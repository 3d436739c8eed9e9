use vanity_commit::commit::header_for;
use vanity_commit::commit::serialize;
use vanity_commit::commit::CommitMetadata;
use vanity_commit::numerals::decimal_bytes;
use vanity_commit::numerals::hex_bytes;
use vanity_commit::numerals::signed_decimal_bytes;
use vanity_commit::sig::render_signature;
use vanity_commit::sig::IdentitySignature;

fn sig(name: &str, email: &str, timestamp: i64, utc_offset: i32) -> IdentitySignature {
    IdentitySignature {
        name: name.as_bytes().to_vec(),
        email: email.as_bytes().to_vec(),
        timestamp,
        utc_offset,
    }
}

fn render(header: &str, s: &IdentitySignature) -> String {
    String::from_utf8(render_signature(&header.as_bytes().to_vec(), s)).unwrap()
}

#[test]
fn decimal_rendering_exact() {
    assert_eq!(decimal_bytes(0), b"0".to_vec());
    assert_eq!(decimal_bytes(7), b"7".to_vec());
    assert_eq!(decimal_bytes(10), b"10".to_vec());
    assert_eq!(decimal_bytes(1234567890), b"1234567890".to_vec());
    assert_eq!(decimal_bytes(u64::MAX), b"18446744073709551615".to_vec());
}

#[test]
fn signed_decimal_rendering_exact() {
    assert_eq!(signed_decimal_bytes(0), b"0".to_vec());
    assert_eq!(signed_decimal_bytes(-1), b"-1".to_vec());
    assert_eq!(signed_decimal_bytes(1500000000), b"1500000000".to_vec());
    assert_eq!(signed_decimal_bytes(i64::MIN), b"-9223372036854775808".to_vec());
}

#[test]
fn hex_rendering_exact() {
    assert_eq!(hex_bytes(0), b"0".to_vec());
    assert_eq!(hex_bytes(255), b"ff".to_vec());
    assert_eq!(hex_bytes(0xdead), b"dead".to_vec());
}

#[test]
fn signature_line_positive_offset() {
    let s = sig("A U Thor", "author@example.com", 1500000000, 120);
    assert_eq!(
        render("author", &s),
        "author A U Thor <author@example.com> 1500000000 +0200\n"
    );
}

#[test]
fn signature_line_negative_offset() {
    let s = sig("C O Mitter", "committer@example.com", 1500000000, -90);
    assert_eq!(
        render("committer", &s),
        "committer C O Mitter <committer@example.com> 1500000000 -0130\n"
    );
}

#[test]
fn signature_line_zero_offset_and_minutes_only() {
    let s = sig("N", "n@example.com", 0, 0);
    assert_eq!(render("author", &s), "author N <n@example.com> 0 +0000\n");
    let s = sig("N", "n@example.com", 12, 59);
    assert_eq!(render("author", &s), "author N <n@example.com> 12 +0059\n");
}

#[test]
fn signature_line_negative_timestamp() {
    let s = sig("N", "n@example.com", -1, 0);
    assert_eq!(render("author", &s), "author N <n@example.com> -1 +0000\n");
}

#[test]
fn serialize_default_shape_exact() {
    let m = CommitMetadata {
        tree_ref: b"0123456789abcdef0123456789abcdef01234567".to_vec(),
        parent_refs: Vec::new(),
        author: sig("A U Thor", "author@example.com", 1500000000, 120),
        committer: sig("C O Mitter", "committer@example.com", 1500000000, -90),
        message: Some(Vec::new()),
    };
    let body = serialize(&m);
    let expected_body = "tree 0123456789abcdef0123456789abcdef01234567\n\
                         author A U Thor <author@example.com> 1500000000 +0200\n\
                         committer C O Mitter <committer@example.com> 1500000000 -0130\n\
                         \n";
    assert_eq!(String::from_utf8(body.clone()).unwrap(), expected_body);
    let mut object = header_for(body.len());
    object.extend_from_slice(&body);
    let expected_object = format!("commit {}\0{}", expected_body.len(), expected_body);
    assert_eq!(object, expected_object.as_bytes().to_vec());
}

#[test]
fn serialize_without_message_ends_with_separator() {
    let m = CommitMetadata {
        tree_ref: b"0123456789abcdef0123456789abcdef01234567".to_vec(),
        parent_refs: Vec::new(),
        author: sig("A", "a@example.com", 1, 0),
        committer: sig("B", "b@example.com", 2, 0),
        message: None,
    };
    let body = String::from_utf8(serialize(&m)).unwrap();
    assert!(body.ends_with("committer B <b@example.com> 2 +0000\n\n"));
}

#[test]
fn serialize_parent_lines_in_order() {
    let p1 = "1111111111111111111111111111111111111111";
    let p2 = "2222222222222222222222222222222222222222";
    let m = CommitMetadata {
        tree_ref: b"0123456789abcdef0123456789abcdef01234567".to_vec(),
        parent_refs: vec![p1.as_bytes().to_vec(), p2.as_bytes().to_vec()],
        author: sig("A", "a@example.com", 1, 0),
        committer: sig("B", "b@example.com", 2, 0),
        message: Some(b"merge\n".to_vec()),
    };
    let body = String::from_utf8(serialize(&m)).unwrap();
    let expected = format!(
        "tree 0123456789abcdef0123456789abcdef01234567\nparent {}\nparent {}\nauthor A <a@example.com> 1 +0000\ncommitter B <b@example.com> 2 +0000\n\nmerge\n",
        p1, p2
    );
    assert_eq!(body, expected);
}
