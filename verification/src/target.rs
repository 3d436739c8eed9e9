//! Parsing the search target: a hexadecimal string, one nibble per
//! character, left to right. An invalid character is a fatal input error
//! naming the character and its position.

use vstd::prelude::*;

use crate::errors::VanityError;

verus! {

/// Whether `b` is an ASCII hexadecimal digit (either case).
pub open spec fn is_hex_byte(b: u8) -> bool {
    (48 <= b <= 57) || (97 <= b <= 102) || (65 <= b <= 70)
}

/// The nibble value of a hexadecimal digit.
pub open spec fn nibble_value(b: u8) -> u8
    recommends
        is_hex_byte(b),
{
    if 48 <= b <= 57 {
        (b - 48) as u8
    } else if 97 <= b <= 102 {
        (b - 87) as u8
    } else {
        (b - 55) as u8
    }
}

/// Parses a hexadecimal string into its nibble values, one per character.
/// The first non-hexadecimal character, if any, is reported with its
/// position.
pub fn parse_target(s: &Vec<u8>) -> (r: Result<Vec<u8>, VanityError>)
    ensures
        match r {
            Ok(t) => {
                &&& forall|k: int| 0 <= k < s@.len() ==> is_hex_byte(#[trigger] s@[k])
                &&& t@.len() == s@.len()
                &&& forall|k: int| 0 <= k < s@.len() ==> t@[k] == nibble_value(#[trigger] s@[k])
            },
            Err(e) => exists|p: int|
                {
                    &&& 0 <= p < s@.len()
                    &&& !is_hex_byte(#[trigger] s@[p])
                    &&& forall|k: int| 0 <= k < p ==> is_hex_byte(#[trigger] s@[k])
                    &&& e == (VanityError::InputFormat { position: p as usize, byte: s@[p] })
                },
        },
{
    let mut out: Vec<u8> = Vec::new();
    let mut k: usize = 0;
    while k < s.len()
        invariant
            0 <= k <= s@.len(),
            out@.len() == k,
            forall|j: int| 0 <= j < k ==> is_hex_byte(#[trigger] s@[j]),
            forall|j: int| 0 <= j < k ==> out@[j] == nibble_value(#[trigger] s@[j]),
        decreases s@.len() - k,
    {
        let b = s[k];
        if 48 <= b && b <= 57 {
            out.push(b - 48);
        } else if 97 <= b && b <= 102 {
            out.push(b - 87);
        } else if 65 <= b && b <= 70 {
            out.push(b - 55);
        } else {
            return Err(VanityError::InputFormat { position: k, byte: b });
        }
        k = k + 1;
    }
    Ok(out)
}

/// The Search Target length bound: one to forty nibbles, a prefix of the
/// digest's forty.
pub open spec fn valid_target_len(t: Seq<u8>) -> bool {
    1 <= t.len() <= 40
}

/// Checks a parsed target against the length bound of the data model.
pub fn target_length_ok(t: &Vec<u8>) -> (r: bool)
    ensures
        r == valid_target_len(t@),
{
    1 <= t.len() && t.len() <= 40
}

/// The default search target: seven zero nibbles.
pub fn default_target() -> (r: Vec<u8>)
    ensures
        r@ == seq![0u8, 0u8, 0u8, 0u8, 0u8, 0u8, 0u8],
{
    let mut out: Vec<u8> = Vec::new();
    let mut k: usize = 0;
    while k < 7
        invariant
            0 <= k <= 7,
            out@.len() == k,
            forall|j: int| 0 <= j < k ==> out@[j] == 0u8,
        decreases 7 - k,
    {
        out.push(0);
        k = k + 1;
    }
    proof {
        assert(out@ =~= seq![0u8, 0u8, 0u8, 0u8, 0u8, 0u8, 0u8]);
    }
    out
}

} // verus!
