//! The error taxonomy of the vanity-hash tool. Every error is fatal to a
//! single run: there is no retry and no partial success.

use vstd::prelude::*;

verus! {

#[derive(Debug, PartialEq, Eq, Structural)]
pub enum VanityError {
    /// The repository is missing or its head does not resolve to a commit.
    /// Produced only by the storage boundary around the library.
    StoreAccess,
    /// A byte of the search-target argument is not a hexadecimal digit.
    InputFormat { position: usize, byte: u8 },
    /// The `"committer "` marker occurs zero times, or more than once, in the
    /// serialized commit body, so the splice point is ambiguous.
    SerializationInvariant { occurrences: usize },
    /// The candidate-counter space was exhausted without a match.
    SearchExhausted,
}

} // verus!
