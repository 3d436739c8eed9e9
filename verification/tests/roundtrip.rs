use vanity_commit::commit::serialize;
use vanity_commit::digest::object_digest;
use vanity_commit::commit::CommitMetadata;
use vanity_commit::sig::IdentitySignature;

fn signature_fields(s: &git2::Signature) -> IdentitySignature {
    IdentitySignature {
        name: s.name_bytes().to_vec(),
        email: s.email_bytes().to_vec(),
        timestamp: s.when().seconds(),
        utc_offset: s.when().offset_minutes(),
    }
}

fn commit_fields(c: &git2::Commit) -> CommitMetadata {
    CommitMetadata {
        tree_ref: c.tree_id().to_string().into_bytes(),
        parent_refs: c.parent_ids().map(|p| p.to_string().into_bytes()).collect(),
        author: signature_fields(&c.author()),
        committer: signature_fields(&c.committer()),
        message: Some(c.message_bytes().to_vec()),
    }
}

fn object_id_of(m: &CommitMetadata) -> Vec<u8> {
    let body = serialize(m);
    object_digest(&body)
}

#[test]
fn serializer_reproduces_storage_identifiers() {
    let dir = "/tmp/vanity_commit_roundtrip_repo";
    let repo = git2::Repository::init(dir).unwrap();
    let when = git2::Time::new(1500000000, 120);
    let author = git2::Signature::new("A U Thor", "author@example.com", &when).unwrap();
    let committer = git2::Signature::new("C O Mitter", "committer@example.com", &when).unwrap();
    let tree_id = repo.treebuilder(None).unwrap().write().unwrap();
    let tree = repo.find_tree(tree_id).unwrap();

    let first = repo
        .commit(None, &author, &committer, "first step\n", &tree, &[])
        .unwrap();
    let first_commit = repo.find_commit(first).unwrap();
    assert_eq!(object_id_of(&commit_fields(&first_commit)), first.as_bytes().to_vec());

    let second = repo
        .commit(
            None,
            &author,
            &committer,
            "second step, with a parent\n",
            &tree,
            &[&first_commit],
        )
        .unwrap();
    let second_commit = repo.find_commit(second).unwrap();
    assert_eq!(object_id_of(&commit_fields(&second_commit)), second.as_bytes().to_vec());

    let empty_message = repo
        .commit(None, &author, &committer, "", &tree, &[&second_commit])
        .unwrap();
    let empty_commit = repo.find_commit(empty_message).unwrap();
    assert_eq!(object_id_of(&commit_fields(&empty_commit)), empty_message.as_bytes().to_vec());
}
