//! Identity signatures and their canonical one-line rendering.
//!
//! A signature renders as `<header> <name> <<email>> <timestamp> <sign><HH><MM>\n`,
//! where the timestamp is decimal seconds since the epoch and the trailing
//! field is the UTC offset in zero-padded hours and minutes.

use vstd::prelude::*;

use crate::bytes::copy_bytes;
use crate::bytes::push_all;
use crate::numerals::padded2_bytes;
use crate::numerals::padded2_rep;
use crate::numerals::signed_dec_rep;
use crate::numerals::signed_decimal_bytes;

verus! {

/// An identity with a timestamp: who, reachable where, and when.
pub struct IdentitySignature {
    /// Display name, as raw bytes.
    pub name: Vec<u8>,
    /// E-mail address, as raw bytes.
    pub email: Vec<u8>,
    /// Seconds since the epoch.
    pub timestamp: i64,
    /// Offset from UTC in minutes; its sign selects `+` or `-` in the rendering.
    pub utc_offset: i32,
}

/// The mathematical abstraction of an identity signature.
pub struct SigAbs {
    pub name: Seq<u8>,
    pub email: Seq<u8>,
    pub timestamp: int,
    pub utc_offset: int,
}

impl View for IdentitySignature {
    type V = SigAbs;

    open spec fn view(&self) -> SigAbs {
        SigAbs {
            name: self.name@,
            email: self.email@,
            timestamp: self.timestamp as int,
            utc_offset: self.utc_offset as int,
        }
    }
}

/// The rendering of the UTC offset: a sign byte, then hours and minutes of
/// the offset's absolute magnitude, each zero-padded to two digits.
pub open spec fn offset_rep(utc_offset: int) -> Seq<u8> {
    let sign: Seq<u8> = if utc_offset < 0 {
        seq![45u8]
    } else {
        seq![43u8]
    };
    let mag = if utc_offset < 0 {
        -utc_offset
    } else {
        utc_offset
    };
    sign + padded2_rep((mag / 60) as nat) + padded2_rep((mag % 60) as nat)
}

/// The canonical one-line form of a signature under a given header keyword:
/// `<header> <name> <<email>> <timestamp> <offset>\n`.
pub open spec fn sig_line(header: Seq<u8>, s: SigAbs) -> Seq<u8> {
    header + seq![32u8] + s.name + seq![32u8, 60u8] + s.email + seq![62u8, 32u8]
        + signed_dec_rep(s.timestamp) + seq![32u8] + offset_rep(s.utc_offset) + seq![10u8]
}

/// Renders `sig` as its canonical line under the header keyword `header`.
pub fn render_signature(header: &Vec<u8>, sig: &IdentitySignature) -> (r: Vec<u8>)
    ensures
        r@ == sig_line(header@, sig@),
{
    let mut out: Vec<u8> = Vec::new();
    push_all(&mut out, header);
    out.push(32);
    push_all(&mut out, &sig.name);
    out.push(32);
    out.push(60);
    push_all(&mut out, &sig.email);
    out.push(62);
    out.push(32);
    let ts = signed_decimal_bytes(sig.timestamp);
    push_all(&mut out, &ts);
    out.push(32);
    if sig.utc_offset < 0 {
        out.push(45);
    } else {
        out.push(43);
    }
    let mag: u64 = if sig.utc_offset < 0 {
        (-(sig.utc_offset as i64)) as u64
    } else {
        sig.utc_offset as u64
    };
    let hh = padded2_bytes(mag / 60);
    push_all(&mut out, &hh);
    let mm = padded2_bytes(mag % 60);
    push_all(&mut out, &mm);
    out.push(10);
    proof {
        assert(out@ =~= sig_line(header@, sig@));
    }
    out
}

/// The amendment applied to the committer identity once a winning token is
/// known: the token is prepended to the display name and every other field
/// is kept byte-identical.
pub fn amended_committer(sig: &IdentitySignature, token: &Vec<u8>) -> (r: IdentitySignature)
    ensures
        r@.name == token@ + sig@.name,
        r@.email == sig@.email,
        r@.timestamp == sig@.timestamp,
        r@.utc_offset == sig@.utc_offset,
{
    let mut name: Vec<u8> = Vec::new();
    push_all(&mut name, token);
    push_all(&mut name, &sig.name);
    proof {
        assert((Seq::<u8>::empty() + token@) + sig.name@ =~= token@ + sig.name@);
    }
    IdentitySignature {
        name,
        email: copy_bytes(&sig.email),
        timestamp: sig.timestamp,
        utc_offset: sig.utc_offset,
    }
}

} // verus!
