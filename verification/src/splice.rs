//! Locating the unique `"committer "` marker in a serialized commit body,
//! splitting the body around it, and splicing a candidate token in.
//!
//! The search engine mutates the body by inserting a token immediately after
//! the marker. The split point is sound only when the marker occurs exactly
//! once in the body; any other count is reported as an invariant violation
//! rather than silently splitting at the wrong occurrence.

use vstd::prelude::*;

use crate::bytes::copy_range;
use crate::bytes::push_all;
use crate::commit::committer_keyword_rep;
use crate::commit::header_for;
use crate::commit::object_rep;
use crate::errors::VanityError;

verus! {

/// `"committer "` as bytes: the split marker, the committer keyword plus one
/// space.
pub open spec fn marker_rep() -> Seq<u8> {
    committer_keyword_rep() + seq![32u8]
}

/// The marker's length in bytes.
pub open spec fn marker_len() -> int {
    10
}

/// Whether the marker occurs in `body` starting at position `i`.
pub open spec fn occurs_at(body: Seq<u8>, i: int) -> bool {
    &&& 0 <= i
    &&& i + marker_len() <= body.len()
    &&& body.subrange(i, i + marker_len()) == marker_rep()
}

/// Whether the marker occurs anywhere in `s`.
pub open spec fn contains_marker(s: Seq<u8>) -> bool {
    exists|i: int| occurs_at(s, i)
}

/// How many of the positions `0 .. n` carry an occurrence of the marker.
pub open spec fn occ_count_to(body: Seq<u8>, n: int) -> nat
    decreases n,
{
    if n <= 0 {
        0
    } else {
        occ_count_to(body, n - 1) + if occurs_at(body, n - 1) {
            1nat
        } else {
            0nat
        }
    }
}

/// How many times the marker occurs in `body`.
pub open spec fn occurrence_count(body: Seq<u8>) -> nat {
    occ_count_to(body, body.len() as int)
}

/// A serialized body split at the unique marker occurrence: the bytes before
/// the marker and the bytes after it.
#[derive(Debug)]
pub struct SplitBody {
    pub before: Vec<u8>,
    pub after: Vec<u8>,
}

/// The body that a split stands for, with a token spliced in directly after
/// the marker.
pub open spec fn spliced_body(before: Seq<u8>, token: Seq<u8>, after: Seq<u8>) -> Seq<u8> {
    before + marker_rep() + token + after
}

/// Builds the marker as a buffer.
fn marker_bytes() -> (r: Vec<u8>)
    ensures
        r@ == marker_rep(),
{
    let mut m: Vec<u8> = Vec::new();
    m.push(99);
    m.push(111);
    m.push(109);
    m.push(109);
    m.push(105);
    m.push(116);
    m.push(116);
    m.push(101);
    m.push(114);
    m.push(32);
    proof {
        assert(m@ =~= marker_rep());
    }
    m
}

/// Tests whether the marker occurs in `body` at position `i`.
fn is_marker_at(body: &Vec<u8>, i: usize) -> (r: bool)
    ensures
        r == occurs_at(body@, i as int),
{
    if body.len() < 10 || i > body.len() - 10 {
        return false;
    }
    let marker = marker_bytes();
    let mut k: usize = 0;
    while k < 10
        invariant
            0 <= k <= 10,
            i + 10 <= body@.len() <= usize::MAX,
            marker@ == marker_rep(),
            forall|j: int| 0 <= j < k ==> body@[i + j] == marker_rep()[j],
        decreases 10 - k,
    {
        if body[i + k] != marker[k] {
            proof {
                assert(body@.subrange(i as int, i + 10)[k as int] == body@[i + k]);
            }
            return false;
        }
        k = k + 1;
    }
    proof {
        assert(body@.subrange(i as int, i + 10) =~= marker_rep());
    }
    true
}

/// Splits `body` at the marker, provided the marker occurs exactly once;
/// reports the occurrence count as an invariant violation otherwise.
pub fn split_body(body: &Vec<u8>) -> (r: Result<SplitBody, VanityError>)
    ensures
        match r {
            Ok(sb) => {
                &&& occurrence_count(body@) == 1
                &&& occurs_at(body@, sb.before@.len() as int)
                &&& body@ == spliced_body(sb.before@, Seq::<u8>::empty(), sb.after@)
            },
            Err(e) => {
                &&& occurrence_count(body@) != 1
                &&& e == (VanityError::SerializationInvariant {
                    occurrences: occurrence_count(body@) as usize,
                })
            },
        },
{
    let mut count: usize = 0;
    let mut first: usize = 0;
    let mut i: usize = 0;
    let n: usize = body.len();
    assert(body@.len() == n <= usize::MAX);
    while i < body.len()
        invariant
            0 <= i <= body@.len() <= usize::MAX,
            count <= i,
            count == occ_count_to(body@, i as int),
            count > 0 ==> occurs_at(body@, first as int) && first < i,
        decreases body@.len() - i,
    {
        if is_marker_at(body, i) {
            if count == 0 {
                first = i;
            }
            count = count + 1;
        }
        i = i + 1;
    }
    if count == 1 {
        let before = copy_range(body, 0, first);
        let after = copy_range(body, first + 10, body.len());
        proof {
            assert(body@ =~= body@.subrange(0, first as int) + body@.subrange(
                first as int,
                first + 10,
            ) + body@.subrange(first + 10, body@.len() as int));
        }
        Ok(SplitBody { before, after })
    } else {
        Err(VanityError::SerializationInvariant { occurrences: count })
    }
}

/// Serializes commit metadata and splits the body at the unique marker, the
/// two steps a run performs once before the workers start.
pub fn prepare_search(m: &crate::commit::CommitMetadata) -> (r: Result<SplitBody, VanityError>)
    ensures
        match r {
            Ok(sb) => {
                &&& occurrence_count(crate::commit::serialize_rep(m@)) == 1
                &&& crate::commit::serialize_rep(m@) == spliced_body(
                    sb.before@,
                    Seq::<u8>::empty(),
                    sb.after@,
                )
            },
            Err(e) => {
                &&& occurrence_count(crate::commit::serialize_rep(m@)) != 1
                &&& e == (VanityError::SerializationInvariant {
                    occurrences: occurrence_count(crate::commit::serialize_rep(m@)) as usize,
                })
            },
        },
{
    let body = crate::commit::serialize(m);
    split_body(&body)
}

/// Counting occurrences over a longer range never loses any.
pub proof fn lemma_occ_count_mono(body: Seq<u8>, a: int, b: int)
    requires
        a <= b,
    ensures
        occ_count_to(body, a) <= occ_count_to(body, b),
    decreases b - a,
{
    if a < b {
        lemma_occ_count_mono(body, a, b - 1);
    }
}

/// Two occurrences at distinct positions put the total count at two or more.
pub proof fn lemma_two_occurrences(body: Seq<u8>, i: int, j: int)
    requires
        occurs_at(body, i),
        occurs_at(body, j),
        i < j,
    ensures
        occurrence_count(body) >= 2,
{
    assert(occ_count_to(body, i + 1) >= 1);
    lemma_occ_count_mono(body, i + 1, j);
    assert(occ_count_to(body, j + 1) >= 2);
    lemma_occ_count_mono(body, j + 1, body.len() as int);
}

/// An occurrence inside a segment of a longer sequence is an occurrence of
/// the longer sequence, shifted by the segment's offset.
pub proof fn lemma_occurs_in_segment(whole: Seq<u8>, seg: Seq<u8>, off: int, i: int)
    requires
        0 <= off,
        off + seg.len() <= whole.len(),
        forall|t: int| 0 <= t < seg.len() ==> whole[off + t] == seg[t],
        occurs_at(seg, i),
    ensures
        occurs_at(whole, off + i),
{
    assert(whole.subrange(off + i, off + i + marker_len()) =~= seg.subrange(
        i,
        i + marker_len(),
    ));
}

/// A commit message that itself contains the `"committer "` marker makes the
/// marker occur at least twice in the serialized body — once in the committer
/// line and once inside the message — so `split_body` reports the ambiguity
/// as a `SerializationInvariant` error instead of splicing at a wrong
/// occurrence.
pub proof fn lemma_ambiguous_message_detected(m: crate::commit::CommitAbs)
    requires
        m.message is Some,
        contains_marker(m.message->Some_0),
    ensures
        occurrence_count(crate::commit::serialize_rep(m)) >= 2,
{
    let body = crate::commit::serialize_rep(m);
    let msg = m.message->Some_0;
    let head = crate::commit::tree_prefix_rep() + m.tree_ref + seq![10u8] + crate::commit::parents_rep(
        m.parent_refs,
    ) + crate::sig::sig_line(crate::commit::author_keyword_rep(), m.author);
    let cline = crate::sig::sig_line(committer_keyword_rep(), m.committer);
    let mpart = seq![10u8] + msg;
    assert(body =~= head + cline + mpart);
    let p1 = head.len() as int;
    assert forall|t: int| 0 <= t < cline.len() implies body[p1 + t] == cline[t] by {
        assert(body[p1 + t] == (head + cline + mpart)[p1 + t]);
    }
    assert(cline.subrange(0, marker_len()) =~= marker_rep());
    assert(occurs_at(cline, 0));
    lemma_occurs_in_segment(body, cline, p1, 0);
    let i0 = choose|i: int| occurs_at(msg, i);
    let p2 = p1 + cline.len() + 1;
    assert forall|t: int| 0 <= t < msg.len() implies body[p2 + t] == msg[t] by {
        assert(body[p2 + t] == (head + cline + mpart)[p2 + t]);
        assert((head + cline + mpart)[p2 + t] == mpart[1 + t]);
    }
    lemma_occurs_in_segment(body, msg, p2, i0);
    lemma_two_occurrences(body, p1, p2 + i0);
}

/// Splicing a token into the split body yields exactly the serialization of
/// the amended metadata: the body the engine hashes for a token is the body
/// the storage layer will serialize once that token is prepended to the
/// committer's name. The hypotheses are what `prepare_search` establishes on
/// success.
#[verifier::rlimit(100)]
pub proof fn lemma_splice_is_amendment(
    m: crate::commit::CommitAbs,
    before: Seq<u8>,
    after: Seq<u8>,
    token: Seq<u8>,
)
    requires
        occurrence_count(crate::commit::serialize_rep(m)) == 1,
        crate::commit::serialize_rep(m) == spliced_body(before, Seq::<u8>::empty(), after),
    ensures
        spliced_body(before, token, after) == crate::commit::serialize_rep(
            crate::commit::amended_rep(m, token),
        ),
{
    let body = crate::commit::serialize_rep(m);
    let head = crate::commit::tree_prefix_rep() + m.tree_ref + seq![10u8]
        + crate::commit::parents_rep(m.parent_refs) + crate::sig::sig_line(
        crate::commit::author_keyword_rep(),
        m.author,
    );
    let cline = crate::sig::sig_line(committer_keyword_rep(), m.committer);
    let mpart: Seq<u8> = seq![10u8] + (match m.message {
        Some(msg) => msg,
        None => Seq::<u8>::empty(),
    });
    assert(body =~= head + cline + mpart);
    let rest = seq![32u8, 60u8] + m.committer.email + seq![62u8, 32u8]
        + crate::numerals::signed_dec_rep(m.committer.timestamp) + seq![32u8]
        + crate::sig::offset_rep(m.committer.utc_offset) + seq![10u8];
    assert(cline =~= marker_rep() + m.committer.name + rest);

    // The committer line is an occurrence of the marker at the head's end.
    assert forall|t: int| 0 <= t < cline.len() implies body[head.len() + t] == cline[t] by {
        assert(body[head.len() + t] == (head + cline + mpart)[head.len() + t]);
    }
    assert(cline.subrange(0, marker_len()) =~= marker_rep());
    assert(occurs_at(cline, 0));
    lemma_occurs_in_segment(body, cline, head.len() as int, 0);

    // The split point is an occurrence too; by uniqueness it is that one.
    assert(body.subrange(before.len() as int, before.len() + marker_len()) =~= marker_rep());
    assert(occurs_at(body, before.len() as int));
    if before.len() < head.len() {
        lemma_two_occurrences(body, before.len() as int, head.len() as int);
    }
    if head.len() < before.len() {
        lemma_two_occurrences(body, head.len() as int, before.len() as int);
    }
    assert(before.len() == head.len());
    assert forall|i: int| 0 <= i < before.len() implies before[i] == head[i] by {
        assert(body[i] == (before + marker_rep() + Seq::<u8>::empty() + after)[i]);
        assert(body[i] == (head + cline + mpart)[i]);
    }
    assert(before =~= head);

    // The suffix after the marker is the committer's name, the rest of the
    // committer line, and the message part.
    let tail = m.committer.name + rest + mpart;
    assert(after.len() == tail.len());
    assert forall|t: int| 0 <= t < after.len() implies after[t] == tail[t] by {
        assert(body[before.len() + marker_len() + t] == (before + marker_rep() + Seq::<u8>::empty()
            + after)[before.len() + marker_len() + t]);
        assert(after[t] == body[before.len() + marker_len() + t]);
        assert(body[head.len() + marker_len() + t] == (head + cline + mpart)[head.len()
            + marker_len() + t]);
        if marker_len() + t < cline.len() {
            assert(cline[marker_len() + t] == (marker_rep() + m.committer.name + rest)[marker_len()
                + t]);
        }
    }
    assert(after =~= tail);

    let m2 = crate::commit::amended_rep(m, token);
    let cline2 = crate::sig::sig_line(committer_keyword_rep(), m2.committer);
    assert(cline2 =~= marker_rep() + token + m.committer.name + rest);
    assert(crate::commit::serialize_rep(m2) =~= head + cline2 + mpart);
    assert(spliced_body(before, token, after) =~= head + cline2 + mpart);
}

/// Builds the full header-prefixed candidate object for one token: the body
/// with the token spliced in after the marker, preceded by the object header
/// for the new body length.
pub fn build_candidate(sb: &SplitBody, token: &Vec<u8>) -> (r: Vec<u8>)
    ensures
        r@ == object_rep(spliced_body(sb.before@, token@, sb.after@)),
{
    let mut body: Vec<u8> = Vec::new();
    push_all(&mut body, &sb.before);
    let marker = marker_bytes();
    push_all(&mut body, &marker);
    push_all(&mut body, token);
    push_all(&mut body, &sb.after);
    proof {
        assert(body@ =~= spliced_body(sb.before@, token@, sb.after@));
    }
    let mut full = header_for(body.len());
    push_all(&mut full, &body);
    full
}

} // verus!
