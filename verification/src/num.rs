//! Decimal rendering of unsigned amounts, proved to produce exactly the
//! digits of the number, most significant first, with no leading zero except
//! for the number zero itself.

use vstd::prelude::*;

verus! {

/// The character for the decimal digit `d`.
pub open spec fn digit_char(d: int) -> char {
    ((48 + d) as u8) as char
}

/// The decimal digits of `n`, most significant first.
pub open spec fn dec_chars(n: nat) -> Seq<char>
    decreases n,
{
    if n < 10 {
        seq![digit_char(n as int)]
    } else {
        dec_chars(n / 10).push(digit_char((n % 10) as int))
    }
}

/// The digit characters of `d` read back to front.
spec fn rev_chars(d: Seq<u8>) -> Seq<char> {
    Seq::new(d.len(), |i: int| digit_char(d[d.len() - 1 - i] as int))
}

proof fn lemma_rev_push(d: Seq<u8>, x: u8)
    ensures
        rev_chars(d.push(x)) =~= seq![digit_char(x as int)] + rev_chars(d),
{
}

/// Relies on `String::push`: appends exactly one character.
#[verifier::external_body]
pub(crate) fn push_char(s: &mut String, c: char)
    ensures
        final(s)@ == old(s)@.push(c),
{
    s.push(c);
}

fn digit_to_char(d: u8) -> (c: char)
    requires
        d < 10,
    ensures
        c == digit_char(d as int),
{
    (48 + d) as char
}

/// Renders `n` in decimal.
pub fn u128_to_string(n: u128) -> (r: String)
    ensures
        r@ == dec_chars(n as nat),
{
    let mut r = String::new();
    if n == 0 {
        push_char(&mut r, '0');
        assert(r@ =~= dec_chars(0));
        return r;
    }
    let mut digits: Vec<u8> = Vec::new();
    let mut m: u128 = n;
    while m > 0
        invariant
            forall|j: int| 0 <= j < digits@.len() ==> digits@[j] < 10,
            dec_chars(n as nat) =~= (if m > 0 {
                dec_chars(m as nat) + rev_chars(digits@)
            } else {
                rev_chars(digits@)
            }),
        decreases m,
    {
        let d = (m % 10) as u8;
        proof {
            lemma_rev_push(digits@, (m % 10) as u8);
        }
        digits.push(d);
        m = m / 10;
    }
    let k = digits.len();
    let mut t: usize = 0;
    while t < k
        invariant
            0 <= t <= k,
            k == digits@.len(),
            forall|j: int| 0 <= j < digits@.len() ==> digits@[j] < 10,
            r@ =~= rev_chars(digits@).take(t as int),
            dec_chars(n as nat) =~= rev_chars(digits@),
        decreases k - t,
    {
        push_char(&mut r, digit_to_char(digits[k - 1 - t]));
        proof {
            assert(r@ =~= rev_chars(digits@).take(t + 1));
        }
        t = t + 1;
    }
    assert(r@ =~= dec_chars(n as nat));
    r
}

} // verus!
