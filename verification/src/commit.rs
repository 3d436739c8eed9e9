//! Commit metadata and its canonical serialized byte form.
//!
//! A commit body is the tree line, one parent line per parent in order, the
//! author line, the committer line, a blank separator line, and — when a
//! message is present — the message verbatim. The object that is hashed is
//! that body prefixed by the header `"commit " + decimal(body length) + NUL`.

use vstd::prelude::*;

use crate::bytes::copy_bytes;
use crate::bytes::push_all;
use crate::numerals::dec_rep;
use crate::numerals::decimal_bytes;
use crate::sig::amended_committer;
use crate::sig::render_signature;
use crate::sig::sig_line;
use crate::sig::IdentitySignature;
use crate::sig::SigAbs;

verus! {

/// `"tree "` as bytes.
pub open spec fn tree_prefix_rep() -> Seq<u8> {
    seq![116u8, 114u8, 101u8, 101u8, 32u8]
}

/// `"parent "` as bytes.
pub open spec fn parent_prefix_rep() -> Seq<u8> {
    seq![112u8, 97u8, 114u8, 101u8, 110u8, 116u8, 32u8]
}

/// `"author"` as bytes.
pub open spec fn author_keyword_rep() -> Seq<u8> {
    seq![97u8, 117u8, 116u8, 104u8, 111u8, 114u8]
}

/// `"committer"` as bytes.
pub open spec fn committer_keyword_rep() -> Seq<u8> {
    seq![99u8, 111u8, 109u8, 109u8, 105u8, 116u8, 116u8, 101u8, 114u8]
}

/// `"commit "` as bytes: the object-header keyword.
pub open spec fn commit_header_rep() -> Seq<u8> {
    seq![99u8, 111u8, 109u8, 109u8, 105u8, 116u8, 32u8]
}

/// The fields of one commit, read once from storage and immutable for the
/// duration of a run. References are hexadecimal identifiers as raw bytes.
pub struct CommitMetadata {
    pub tree_ref: Vec<u8>,
    pub parent_refs: Vec<Vec<u8>>,
    pub author: IdentitySignature,
    pub committer: IdentitySignature,
    pub message: Option<Vec<u8>>,
}

/// The mathematical abstraction of commit metadata.
pub struct CommitAbs {
    pub tree_ref: Seq<u8>,
    pub parent_refs: Seq<Seq<u8>>,
    pub author: SigAbs,
    pub committer: SigAbs,
    pub message: Option<Seq<u8>>,
}

impl View for CommitMetadata {
    type V = CommitAbs;

    open spec fn view(&self) -> CommitAbs {
        CommitAbs {
            tree_ref: self.tree_ref@,
            parent_refs: self.parent_refs.deep_view(),
            author: self.author@,
            committer: self.committer@,
            message: match self.message {
                Some(m) => Some(m@),
                None => None,
            },
        }
    }
}

/// The parent lines, in order: `"parent " + ref + "\n"` for each reference.
pub open spec fn parents_rep(parents: Seq<Seq<u8>>) -> Seq<u8>
    decreases parents.len(),
{
    if parents.len() == 0 {
        Seq::<u8>::empty()
    } else {
        parents_rep(parents.drop_last()) + parent_prefix_rep() + parents.last() + seq![10u8]
    }
}

/// The canonical serialized body of a commit: the tree line, the parent
/// lines, the two signature lines, a blank separator line, and — when a
/// message is present — the message verbatim.
pub open spec fn serialize_rep(m: CommitAbs) -> Seq<u8> {
    tree_prefix_rep() + m.tree_ref + seq![10u8] + parents_rep(m.parent_refs) + sig_line(
        author_keyword_rep(),
        m.author,
    ) + sig_line(committer_keyword_rep(), m.committer) + seq![10u8] + (match m.message {
        Some(msg) => msg,
        None => Seq::<u8>::empty(),
    })
}

/// The object header for a body of the given length: `"commit " + decimal + NUL`.
pub open spec fn header_rep(body_len: nat) -> Seq<u8> {
    commit_header_rep() + dec_rep(body_len) + seq![0u8]
}

/// The full byte sequence whose digest is the commit's object identifier:
/// the header for the body's length, then the body itself.
pub open spec fn object_rep(body: Seq<u8>) -> Seq<u8> {
    header_rep(body.len()) + body
}

/// Serializes commit metadata into its canonical body.
pub fn serialize(m: &CommitMetadata) -> (r: Vec<u8>)
    ensures
        r@ == serialize_rep(m@),
{
    let mut out: Vec<u8> = Vec::new();
    out.push(116);
    out.push(114);
    out.push(101);
    out.push(101);
    out.push(32);
    proof {
        assert(out@ =~= tree_prefix_rep());
    }
    push_all(&mut out, &m.tree_ref);
    out.push(10);
    let ghost head: Seq<u8> = tree_prefix_rep() + m@.tree_ref + seq![10u8];
    proof {
        assert(out@ =~= head + parents_rep(m@.parent_refs.take(0)));
    }
    let mut k: usize = 0;
    while k < m.parent_refs.len()
        invariant
            0 <= k <= m.parent_refs.len(),
            head == tree_prefix_rep() + m@.tree_ref + seq![10u8],
            m@.parent_refs == m.parent_refs.deep_view(),
            out@ == head + parents_rep(m@.parent_refs.take(k as int)),
        decreases m.parent_refs.len() - k,
    {
        out.push(112);
        out.push(97);
        out.push(114);
        out.push(101);
        out.push(110);
        out.push(116);
        out.push(32);
        push_all(&mut out, &m.parent_refs[k]);
        out.push(10);
        k = k + 1;
        proof {
            let taken = m@.parent_refs.take(k as int);
            assert(taken.drop_last() =~= m@.parent_refs.take(k as int - 1));
            assert(taken.last() == m.parent_refs@[k as int - 1]@);
            assert(out@ =~= head + parents_rep(taken));
        }
    }
    proof {
        assert(m@.parent_refs.take(m.parent_refs@.len() as int) =~= m@.parent_refs);
    }
    let mut author_kw: Vec<u8> = Vec::new();
    author_kw.push(97);
    author_kw.push(117);
    author_kw.push(116);
    author_kw.push(104);
    author_kw.push(111);
    author_kw.push(114);
    proof {
        assert(author_kw@ =~= author_keyword_rep());
    }
    let author_line = render_signature(&author_kw, &m.author);
    push_all(&mut out, &author_line);
    let mut committer_kw: Vec<u8> = Vec::new();
    committer_kw.push(99);
    committer_kw.push(111);
    committer_kw.push(109);
    committer_kw.push(109);
    committer_kw.push(105);
    committer_kw.push(116);
    committer_kw.push(116);
    committer_kw.push(101);
    committer_kw.push(114);
    proof {
        assert(committer_kw@ =~= committer_keyword_rep());
    }
    let committer_line = render_signature(&committer_kw, &m.committer);
    push_all(&mut out, &committer_line);
    out.push(10);
    match &m.message {
        Some(msg) => {
            push_all(&mut out, msg);
        },
        None => {},
    }
    proof {
        assert(out@ =~= serialize_rep(m@));
    }
    out
}

/// Builds the object header for a body of length `body_len`.
pub fn header_for(body_len: usize) -> (r: Vec<u8>)
    ensures
        r@ == header_rep(body_len as nat),
{
    let mut out: Vec<u8> = Vec::new();
    out.push(99);
    out.push(111);
    out.push(109);
    out.push(109);
    out.push(105);
    out.push(116);
    out.push(32);
    let digits = decimal_bytes(body_len as u64);
    push_all(&mut out, &digits);
    out.push(0);
    proof {
        assert(out@ =~= header_rep(body_len as nat));
    }
    out
}

/// The abstract amendment: the token prepended to the committer's name, and
/// every other field unchanged.
pub open spec fn amended_rep(m: CommitAbs, token: Seq<u8>) -> CommitAbs {
    CommitAbs {
        tree_ref: m.tree_ref,
        parent_refs: m.parent_refs,
        author: m.author,
        committer: SigAbs {
            name: token + m.committer.name,
            email: m.committer.email,
            timestamp: m.committer.timestamp,
            utc_offset: m.committer.utc_offset,
        },
        message: m.message,
    }
}

/// The amendment of a whole commit once a winning token is known: the token
/// is prepended to the committer's display name, and the tree reference, the
/// parent references, the author, the message, and every other committer
/// field are kept byte-identical.
pub fn amended_metadata(m: &CommitMetadata, token: &Vec<u8>) -> (r: CommitMetadata)
    ensures
        r@.tree_ref == m@.tree_ref,
        r@.parent_refs == m@.parent_refs,
        r@.author == m@.author,
        r@.message == m@.message,
        r@.committer.name == token@ + m@.committer.name,
        r@.committer.email == m@.committer.email,
        r@.committer.timestamp == m@.committer.timestamp,
        r@.committer.utc_offset == m@.committer.utc_offset,
        r@ == amended_rep(m@, token@),
{
    let mut parents: Vec<Vec<u8>> = Vec::new();
    let mut k: usize = 0;
    while k < m.parent_refs.len()
        invariant
            0 <= k <= m.parent_refs.len(),
            parents@.len() == k,
            forall|i: int| 0 <= i < k ==> parents@[i]@ == m.parent_refs@[i]@,
        decreases m.parent_refs.len() - k,
    {
        parents.push(copy_bytes(&m.parent_refs[k]));
        k = k + 1;
    }
    proof {
        let dv = parents.deep_view();
        let mv = m@.parent_refs;
        assert forall|i: int| 0 <= i < mv.len() implies dv[i] == mv[i] by {
            assert(dv[i] =~= parents@[i]@);
            assert(mv[i] =~= m.parent_refs@[i]@);
        }
        assert(dv =~= mv);
    }
    let author = IdentitySignature {
        name: copy_bytes(&m.author.name),
        email: copy_bytes(&m.author.email),
        timestamp: m.author.timestamp,
        utc_offset: m.author.utc_offset,
    };
    let message: Option<Vec<u8>> = match &m.message {
        Some(msg) => Some(copy_bytes(msg)),
        None => None,
    };
    CommitMetadata {
        tree_ref: copy_bytes(&m.tree_ref),
        parent_refs: parents,
        author,
        committer: amended_committer(&m.committer, token),
        message,
    }
}

} // verus!
