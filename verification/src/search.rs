//! The brute-force prefix search: candidate tokens, the per-worker search
//! loop, the write-once result cell, and the worker-count policy.
//!
//! Each worker owns a disjoint stream of candidate tokens: a token is the
//! worker's letter, the counter in lowercase hexadecimal, and a trailing
//! underscore, so tokens of different workers differ already in their first
//! byte.

use vstd::prelude::*;

use crate::bytes::push_all;
use crate::digest::nibbles_of;
use crate::digest::prefix_matches;
use crate::digest::prefix_matches_rep;
use crate::digest::sha1_of;
use crate::errors::VanityError;
use crate::numerals::hex_bytes;
use crate::numerals::hex_rep;
use crate::splice::build_candidate;
use crate::splice::spliced_body;
use crate::splice::SplitBody;
use crate::commit::object_rep;

verus! {

/// The largest worker count the engine will use.
pub const MAX_WORKERS: u64 = 16;

/// The candidate token of worker `tid` at counter `i`: the worker's letter
/// (`'A'` plus the worker index), the counter in lowercase hexadecimal, and
/// a trailing underscore.
pub open spec fn token_rep(tid: nat, i: nat) -> Seq<u8> {
    seq![(65 + tid) as u8] + hex_rep(i) + seq![95u8]
}

/// Whether the token `token`, spliced into the split body, yields an object
/// whose digest begins with the target nibbles.
pub open spec fn token_wins(before: Seq<u8>, after: Seq<u8>, token: Seq<u8>, target: Seq<u8>) -> bool {
    prefix_matches_rep(nibbles_of(sha1_of(object_rep(spliced_body(before, token, after)))), target)
}

/// Builds the candidate token of worker `tid` at counter `i`.
pub fn make_token(tid: u64, i: u64) -> (r: Vec<u8>)
    requires
        tid < MAX_WORKERS,
    ensures
        r@ == token_rep(tid as nat, i as nat),
{
    let mut out: Vec<u8> = Vec::new();
    out.push((65 + tid) as u8);
    let digits = hex_bytes(i);
    push_all(&mut out, &digits);
    out.push(95);
    proof {
        assert(out@ =~= token_rep(tid as nat, i as nat));
    }
    out
}

/// Tokens of two distinct workers never collide, whatever the two counters
/// are: the first byte of a token is the worker's letter.
pub proof fn lemma_tokens_distinct_across_workers(i: nat, j: nat, a: nat, b: nat)
    requires
        i < MAX_WORKERS,
        j < MAX_WORKERS,
        i != j,
    ensures
        token_rep(i, a) != token_rep(j, b),
{
    assert(token_rep(i, a)[0] == (65 + i) as u8);
    assert(token_rep(j, b)[0] == (65 + j) as u8);
}

/// Tokens are globally unique over one run: two tokens collide only when
/// both the worker index and the counter coincide.
pub proof fn lemma_tokens_unique(i: nat, j: nat, a: nat, b: nat)
    requires
        i < MAX_WORKERS,
        j < MAX_WORKERS,
        i != j || a != b,
    ensures
        token_rep(i, a) != token_rep(j, b),
{
    if i != j {
        lemma_tokens_distinct_across_workers(i, j, a, b);
    } else if token_rep(i, a) == token_rep(j, b) {
        let ta = token_rep(i, a);
        let tb = token_rep(j, b);
        crate::numerals::lemma_hex_rep_len(a);
        crate::numerals::lemma_hex_rep_len(b);
        assert(ta.len() == 2 + hex_rep(a).len());
        assert(tb.len() == 2 + hex_rep(b).len());
        assert forall|t: int| 0 <= t < hex_rep(a).len() implies hex_rep(a)[t] == hex_rep(b)[t] by {
            assert(ta[1 + t] == hex_rep(a)[t]);
            assert(tb[1 + t] == hex_rep(b)[t]);
        }
        assert(hex_rep(a) =~= hex_rep(b));
        crate::numerals::lemma_hex_rep_injective(a, b);
    }
}

/// Runs worker `tid`'s search over the counters `start .. start + count`.
/// Returns the first winning token of that range, or `None` after testing
/// every counter of the range without a win.
pub fn search_chunk(sb: &SplitBody, target: &Vec<u8>, tid: u64, start: u64, count: u64) -> (r:
    Option<Vec<u8>>)
    requires
        tid < MAX_WORKERS,
        start + count <= u64::MAX,
    ensures
        match r {
            Some(t) => exists|c: u64|
                start <= c < start + count && t@ == token_rep(tid as nat, c as nat)
                    && #[trigger] token_wins(sb.before@, sb.after@, token_rep(tid as nat, c as nat), target@),
            None => forall|c: u64|
                start <= c < start + count ==> !#[trigger] token_wins(
                    sb.before@,
                    sb.after@,
                    token_rep(tid as nat, c as nat),
                    target@,
                ),
        },
{
    let end: u64 = start + count;
    let mut i: u64 = start;
    while i < end
        invariant
            start <= i <= end,
            end == start + count,
            tid < MAX_WORKERS,
            forall|c: u64|
                start <= c < i ==> !#[trigger] token_wins(
                    sb.before@,
                    sb.after@,
                    token_rep(tid as nat, c as nat),
                    target@,
                ),
        decreases end - i,
    {
        let token = make_token(tid, i);
        let candidate = build_candidate(sb, &token);
        let digest = crate::digest::sha1_digest(&candidate);
        if prefix_matches(&digest, target) {
            proof {
                assert(token_wins(sb.before@, sb.after@, token_rep(tid as nat, i as nat), target@));
            }
            return Some(token);
        }
        i = i + 1;
    }
    None
}

/// Runs one worker alone from counter zero up to `limit`. A `None` from the
/// range becomes the distinct exhaustion error.
pub fn search_single(sb: &SplitBody, target: &Vec<u8>, tid: u64, limit: u64) -> (r: Result<
    Vec<u8>,
    VanityError,
>)
    requires
        tid < MAX_WORKERS,
    ensures
        match r {
            Ok(t) => exists|c: u64|
                c < limit && t@ == token_rep(tid as nat, c as nat) && #[trigger] token_wins(
                    sb.before@,
                    sb.after@,
                    token_rep(tid as nat, c as nat),
                    target@,
                ),
            Err(e) => e == VanityError::SearchExhausted && forall|c: u64|
                c < limit ==> !#[trigger] token_wins(
                    sb.before@,
                    sb.after@,
                    token_rep(tid as nat, c as nat),
                    target@,
                ),
        },
{
    match search_chunk(sb, target, tid, 0, limit) {
        Some(t) => Ok(t),
        None => Err(VanityError::SearchExhausted),
    }
}

/// The shared result slot: `None` until the first winning token is written,
/// then that token forever. It transitions at most once.
pub struct ResultCell {
    slot: Option<Vec<u8>>,
}

impl ResultCell {
    /// Whether a winning token has been written.
    pub closed spec fn found(&self) -> bool {
        self.slot is Some
    }

    /// The winning token, once one has been written.
    pub closed spec fn token(&self) -> Seq<u8>
        recommends
            self.found(),
    {
        self.slot->Some_0@
    }

    /// A fresh, unoccupied cell.
    pub fn empty() -> (r: ResultCell)
        ensures
            !r.found(),
    {
        ResultCell { slot: None }
    }

    /// The per-iteration poll: whether the search is over.
    pub fn is_found(&self) -> (r: bool)
        ensures
            r == self.found(),
    {
        match &self.slot {
            Some(_) => true,
            None => false,
        }
    }

    /// Offers a winning token. The first writer wins; a later offer leaves
    /// the cell unchanged.
    pub fn offer(&mut self, t: Vec<u8>)
        ensures
            old(self).found() ==> *final(self) == *old(self),
            !old(self).found() ==> final(self).found() && final(self).token() == t@,
    {
        match &self.slot {
            Some(_) => {},
            None => {
                self.slot = Some(t);
            },
        }
    }

    /// Surrenders the cell's content.
    pub fn into_token(self) -> (r: Option<Vec<u8>>)
        ensures
            self.found() <==> r is Some,
            self.found() ==> r->Some_0@ == self.token(),
    {
        self.slot
    }
}

/// Relies on num_cpus::get: it returns the number of available logical CPUs,
/// and always at least one.
#[verifier::external_body]
fn available_parallelism() -> (r: usize)
    ensures
        r >= 1,
{
    num_cpus::get()
}

/// The pure half of the worker-count policy: a queried parallelism of
/// `cpus` is capped at `MAX_WORKERS`.
pub fn capped_workers(cpus: usize) -> (r: usize)
    ensures
        cpus < 16 ==> r == cpus,
        cpus >= 16 ==> r == 16,
{
    if cpus < 16 {
        cpus
    } else {
        16
    }
}

/// The worker-count policy: the host's available parallelism, capped at
/// `MAX_WORKERS`.
pub fn default_worker_count() -> (r: usize)
    ensures
        1 <= r <= MAX_WORKERS,
{
    let cpus = available_parallelism();
    capped_workers(cpus)
}

} // verus!
