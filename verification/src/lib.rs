//! A verified core for a vanity-hash tool: it serializes a commit object in
//! its canonical byte form, and searches — by brute force over candidate
//! committer-name tokens — for a candidate whose digest begins with a chosen
//! sequence of nibbles.

pub mod bytes;
pub mod commit;
pub mod digest;
pub mod errors;
pub mod numerals;
pub mod search;
pub mod sig;
pub mod splice;
pub mod target;
