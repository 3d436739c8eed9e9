//! Rendering of integers as ASCII decimal and lowercase-hexadecimal byte
//! sequences, as they appear in the serialized commit object and in the
//! candidate tokens.

use vstd::prelude::*;

verus! {

/// The ASCII decimal representation of `n`, most significant digit first,
/// with no leading zeros (a single `'0'` for zero).
pub open spec fn dec_rep(n: nat) -> Seq<u8>
    decreases n,
{
    if n < 10 {
        seq![(48 + n) as u8]
    } else {
        dec_rep(n / 10) + seq![(48 + n % 10) as u8]
    }
}

/// The ASCII decimal representation of a signed value: a leading `'-'`
/// before the magnitude when negative.
pub open spec fn signed_dec_rep(n: int) -> Seq<u8> {
    if n < 0 {
        seq![45u8] + dec_rep((-n) as nat)
    } else {
        dec_rep(n as nat)
    }
}

/// The decimal representation of `n`, zero-padded on the left to at least
/// two digits.
pub open spec fn padded2_rep(n: nat) -> Seq<u8> {
    if n < 10 {
        seq![48u8] + dec_rep(n)
    } else {
        dec_rep(n)
    }
}

/// The lowercase hexadecimal digit for a value below sixteen.
pub open spec fn hex_digit(d: nat) -> u8 {
    if d < 10 {
        (48 + d) as u8
    } else {
        (87 + d) as u8
    }
}

/// The ASCII lowercase hexadecimal representation of `n`, most significant
/// digit first, with no leading zeros (a single `'0'` for zero).
pub open spec fn hex_rep(n: nat) -> Seq<u8>
    decreases n,
{
    if n < 16 {
        seq![hex_digit(n)]
    } else {
        hex_rep(n / 16) + seq![hex_digit(n % 16)]
    }
}

/// A hexadecimal representation is never empty.
pub proof fn lemma_hex_rep_len(n: nat)
    ensures
        hex_rep(n).len() >= 1,
    decreases n,
{
    if n >= 16 {
        lemma_hex_rep_len(n / 16);
    }
}

/// Two numbers with the same hexadecimal representation are the same: the
/// representation has no leading zeros, so it is injective.
pub proof fn lemma_hex_rep_injective(a: nat, b: nat)
    requires
        hex_rep(a) == hex_rep(b),
    ensures
        a == b,
    decreases a + b,
{
    lemma_hex_rep_len(a);
    lemma_hex_rep_len(b);
    if a < 16 && b < 16 {
        assert(hex_rep(a)[0] == hex_digit(a));
        assert(hex_rep(b)[0] == hex_digit(b));
    } else if a < 16 {
        lemma_hex_rep_len(b / 16);
        assert(hex_rep(b).len() >= 2);
    } else if b < 16 {
        lemma_hex_rep_len(a / 16);
        assert(hex_rep(a).len() >= 2);
    } else {
        assert(hex_rep(a).last() == hex_digit(a % 16));
        assert(hex_rep(b).last() == hex_digit(b % 16));
        assert(a % 16 == b % 16);
        assert(hex_rep(a).drop_last() =~= hex_rep(a / 16));
        assert(hex_rep(b).drop_last() =~= hex_rep(b / 16));
        lemma_hex_rep_injective(a / 16, b / 16);
    }
}

pub fn decimal_bytes(n: u64) -> (r: Vec<u8>)
    ensures
        r@ == dec_rep(n as nat),
    decreases n,
{
    if n < 10 {
        let mut v: Vec<u8> = Vec::new();
        v.push((48 + n) as u8);
        proof {
            assert(v@ =~= dec_rep(n as nat));
        }
        v
    } else {
        let mut v = decimal_bytes(n / 10);
        v.push((48 + n % 10) as u8);
        proof {
            assert(v@ =~= dec_rep(n as nat));
        }
        v
    }
}

pub fn signed_decimal_bytes(n: i64) -> (r: Vec<u8>)
    ensures
        r@ == signed_dec_rep(n as int),
{
    if n >= 0 {
        decimal_bytes(n as u64)
    } else {
        let mag: u64 = (-(n as i128)) as u64;
        assert(mag as int == -(n as int));
        let mut v: Vec<u8> = Vec::new();
        v.push(45);
        let digits = decimal_bytes(mag);
        crate::bytes::push_all(&mut v, &digits);
        proof {
            assert(seq![45u8] + digits@ =~= signed_dec_rep(n as int));
        }
        v
    }
}

pub fn padded2_bytes(n: u64) -> (r: Vec<u8>)
    ensures
        r@ == padded2_rep(n as nat),
{
    if n < 10 {
        let mut v: Vec<u8> = Vec::new();
        v.push(48);
        v.push((48 + n) as u8);
        proof {
            assert(v@ =~= padded2_rep(n as nat));
        }
        v
    } else {
        decimal_bytes(n)
    }
}

pub fn hex_bytes(n: u64) -> (r: Vec<u8>)
    ensures
        r@ == hex_rep(n as nat),
    decreases n,
{
    if n < 16 {
        let d: u8 = if n < 10 {
            (48 + n) as u8
        } else {
            (87 + n) as u8
        };
        let mut v: Vec<u8> = Vec::new();
        v.push(d);
        proof {
            assert(v@ =~= hex_rep(n as nat));
        }
        v
    } else {
        let mut v = hex_bytes(n / 16);
        let m: u64 = n % 16;
        let d: u8 = if m < 10 {
            (48 + m) as u8
        } else {
            (87 + m) as u8
        };
        v.push(d);
        proof {
            assert(v@ =~= hex_rep(n as nat));
        }
        v
    }
}

} // verus!
