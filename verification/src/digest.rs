//! The object digest and the nibble-prefix test against a search target.

use vstd::prelude::*;

use crate::commit::header_rep;
use crate::commit::object_rep;

verus! {

/// The 20-byte SHA-1 digest of a byte sequence. The digest is a function of
/// the input bytes alone; what it is on given bytes is not stated here.
pub uninterp spec fn sha1_of(data: Seq<u8>) -> Seq<u8>;

/// Relies on sha1::Sha1 through digest::Digest::digest: the SHA-1 digest
/// depends on the input bytes alone and is 20 bytes long.
#[verifier::external_body]
pub(crate) fn sha1_digest(data: &Vec<u8>) -> (r: Vec<u8>)
    ensures
        r@ == sha1_of(data@),
        r@.len() == 20,
{
    <sha1::Sha1 as sha1::Digest>::digest(data.as_slice()).as_slice().to_vec()
}

/// The nibble sequence of a byte sequence: for each byte, its high four bits
/// and then its low four bits, so each nibble is a value below sixteen.
pub open spec fn nibbles_of(bytes: Seq<u8>) -> Seq<u8> {
    Seq::new(
        bytes.len() * 2,
        |k: int|
            if k % 2 == 0 {
                bytes[k / 2] / 16
            } else {
                bytes[k / 2] % 16
            },
    )
}

/// Whether `nibbles` begins with `target`, position by position, comparing as
/// many positions as the shorter of the two holds.
pub open spec fn prefix_matches_rep(nibbles: Seq<u8>, target: Seq<u8>) -> bool {
    forall|k: int|
        0 <= k < target.len() && k < nibbles.len() ==> nibbles[k] == target[k]
}

/// Tests the digest's nibble sequence, left to right, against the target.
pub fn prefix_matches(digest: &Vec<u8>, target: &Vec<u8>) -> (r: bool)
    ensures
        r == prefix_matches_rep(nibbles_of(digest@), target@),
{
    let ghost nibbles = nibbles_of(digest@);
    let mut k: usize = 0;
    while k < target.len()
        invariant
            0 <= k <= target@.len(),
            nibbles == nibbles_of(digest@),
            forall|j: int| 0 <= j < k && j < nibbles.len() ==> nibbles[j] == target@[j],
        decreases target@.len() - k,
    {
        let byte_index = k / 2;
        if byte_index >= digest.len() {
            return true;
        }
        let b = digest[byte_index];
        let nib: u8 = if k % 2 == 0 {
            b / 16
        } else {
            b % 16
        };
        assert(nib == nibbles[k as int]);
        if nib != target[k] {
            return false;
        }
        k = k + 1;
    }
    true
}

/// Computes the object identifier of a serialized body: the digest of the
/// header-prefixed body.
pub fn object_digest(body: &Vec<u8>) -> (r: Vec<u8>)
    ensures
        r@ == sha1_of(object_rep(body@)),
        r@.len() == 20,
{
    let mut full = crate::commit::header_for(body.len());
    crate::bytes::push_all(&mut full, body);
    sha1_digest(&full)
}

} // verus!
