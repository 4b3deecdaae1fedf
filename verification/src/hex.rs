//! Hex decoding: a string of hex digit pairs to bytes, rejecting strings of
//! odd length or with a character that is not a hex digit.

use vstd::prelude::*;

verus! {

/// Value of `c` as a hex digit, or 16 when `c` is not one.
pub open spec fn hex_char_value(c: char) -> u8 {
    let v = c as u32;
    if 48 <= v <= 57 {
        (v - 48) as u8
    } else if 97 <= v <= 102 {
        (v - 87) as u8
    } else if 65 <= v <= 70 {
        (v - 55) as u8
    } else {
        16
    }
}

pub open spec fn is_hex_char(c: char) -> bool {
    hex_char_value(c) < 16
}

/// The bytes a hex string stands for, one per digit pair.
pub open spec fn spec_hex_bytes(s: Seq<char>) -> Seq<u8> {
    Seq::new(s.len() / 2, |i: int| (hex_char_value(s[2 * i]) * 16 + hex_char_value(s[2 * i + 1])) as u8)
}

/// Decoded form of `s`: its bytes when `s` is a well-formed hex string,
/// `None` when its length is odd or some character is not a hex digit.
pub open spec fn spec_hex_decode(s: Seq<char>) -> Option<Seq<u8>> {
    if s.len() % 2 == 0 && (forall|i: int| 0 <= i < s.len() ==> is_hex_char(s[i])) {
        Some(spec_hex_bytes(s))
    } else {
        None
    }
}

fn hex_char_val(c: char) -> (v: u8)
    ensures
        v == hex_char_value(c),
{
    let x: u32 = c as u32;
    if 48 <= x && x <= 57 {
        (x - 48) as u8
    } else if 97 <= x && x <= 102 {
        (x - 87) as u8
    } else if 65 <= x && x <= 70 {
        (x - 55) as u8
    } else {
        16
    }
}

/// Decodes a hex string to bytes; `None` exactly when the string is not
/// well-formed hex.
pub fn hex_decode(s: &str) -> (r: Option<Vec<u8>>)
    ensures
        r is Some <==> spec_hex_decode(s@) is Some,
        r matches Some(v) ==> spec_hex_decode(s@) == Some(v@),
{
    let n = s.unicode_len();
    if n % 2 != 0 {
        return None;
    }
    let mut out: Vec<u8> = Vec::new();
    let mut i: usize = 0;
    while i < n
        invariant
            i % 2 == 0,
            0 <= i <= n,
            n == s@.len(),
            n % 2 == 0,
            out@.len() == i / 2,
            forall|j: int| 0 <= j < i ==> is_hex_char(s@[j]),
            forall|j: int| 0 <= j < i / 2 ==> out@[j] == (hex_char_value(s@[2 * j]) * 16
                + hex_char_value(s@[2 * j + 1])) as u8,
        decreases n - i,
    {
        let hi = hex_char_val(s.get_char(i));
        let lo = hex_char_val(s.get_char(i + 1));
        if hi >= 16 || lo >= 16 {
            return None;
        }
        out.push(hi * 16 + lo);
        i = i + 2;
    }
    assert(out@ =~= spec_hex_bytes(s@));
    Some(out)
}

} // verus!
