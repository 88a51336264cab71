//! Non-negative decimal numbers, for a book's position in a series.
//!
//! A position like "1.5" is kept exactly as a mantissa and a decimal scale:
//! the denoted value is the mantissa divided by ten to the scale.

use vstd::prelude::*;

use crate::text::{chars_vec, find_char, find_in_vec, lemma_find_char};

verus! {

/// A non-negative decimal number: `mantissa` divided by ten to the `scale`.
#[derive(Debug, Clone, Copy, PartialEq, Eq, Structural)]
pub struct Decimal {
    /// All decimal digits of the number, as one integer.
    pub mantissa: u64,
    /// How many of the trailing digits of `mantissa` lie behind the decimal
    /// point.
    pub scale: u32,
}

/// An ASCII decimal digit.
pub open spec fn is_digit(c: char) -> bool {
    48 <= c as u32 <= 57
}

/// The numeric value of an ASCII decimal digit.
pub open spec fn digit_val(c: char) -> int {
    c as u32 - 48
}

/// Whether every character of `s` is an ASCII decimal digit.
pub open spec fn all_digits(s: Seq<char>) -> bool {
    forall|i: int| 0 <= i < s.len() ==> is_digit(#[trigger] s[i])
}

/// The integer a digit string denotes; most significant digit first.
pub open spec fn digits_val(s: Seq<char>) -> int
    decreases s.len(),
{
    if s.len() == 0 {
        0
    } else {
        digits_val(s.drop_last()) * 10 + digit_val(s.last())
    }
}

proof fn lemma_digits_val_nonneg(s: Seq<char>)
    requires
        all_digits(s),
    ensures
        digits_val(s) >= 0,
    decreases s.len(),
{
    if s.len() > 0 {
        let t = s.drop_last();
        assert(forall|i: int| 0 <= i < t.len() ==> is_digit(#[trigger] t[i])) by {
            assert(forall|i: int| 0 <= i < t.len() ==> t[i] == s[i]);
        }
        lemma_digits_val_nonneg(t);
        assert(is_digit(s.last()));
    }
}

/// A digit string denotes at least as much as any of its prefixes.
proof fn lemma_digits_val_prefix(s: Seq<char>, j: int)
    requires
        all_digits(s),
        0 <= j <= s.len(),
    ensures
        digits_val(s.take(j)) <= digits_val(s),
    decreases s.len() - j,
{
    assert(forall|i: int| 0 <= i < j ==> s.take(j)[i] == s[i]);
    if j < s.len() {
        lemma_digits_val_prefix(s, j + 1);
        let t = s.take(j + 1);
        assert(t.drop_last() =~= s.take(j));
        assert(t.last() == s[j]);
        lemma_digits_val_nonneg(s.take(j));
        assert(digits_val(s.take(j)) <= digits_val(s.take(j)) * 10 + digit_val(s[j]));
    } else {
        assert(s.take(j) =~= s);
    }
}

/// The digit characters of a decimal string: everything but the first dot.
pub open spec fn decimal_digits(s: Seq<char>) -> Seq<char> {
    match find_char(s, '.') {
        Some(i) => s.take(i) + s.skip(i + 1),
        None => s,
    }
}

/// How many digits of a decimal string stand behind the dot.
pub open spec fn decimal_scale(s: Seq<char>) -> int {
    match find_char(s, '.') {
        Some(i) => s.len() - i - 1,
        None => 0,
    }
}

/// The decimal number a string denotes: digits with at most one dot, at
/// least one digit, and a mantissa that fits an unsigned 64-bit integer.
pub open spec fn decimal_of(s: Seq<char>) -> Option<Decimal> {
    let digits = decimal_digits(s);
    if digits.len() >= 1 && all_digits(digits) && digits_val(digits) <= u64::MAX
        && decimal_scale(s) <= u32::MAX {
        Some(
            Decimal {
                mantissa: digits_val(digits) as u64,
                scale: decimal_scale(s) as u32,
            },
        )
    } else {
        None
    }
}

/// Parses a decimal number; absent exactly where the string does not denote
/// one, or where its digits overflow the mantissa.
pub fn parse_decimal(s: &str) -> (r: Option<Decimal>)
    ensures
        r == decimal_of(s@),
{
    let v = chars_vec(s);
    let dot = find_in_vec(&v, '.');
    proof {
        lemma_find_char(v@, '.');
    }
    let ghost gdigits = decimal_digits(s@);
    let mut digits: Vec<char> = Vec::new();
    let scale_usize: usize;
    match dot {
        Some(d) => {
            let mut i: usize = 0;
            while i < d
                invariant
                    d < v@.len(),
                    i <= d,
                    digits@ == v@.subrange(0, i as int),
                decreases d - i,
            {
                digits.push(v[i]);
                assert(digits@ =~= v@.subrange(0, i + 1));
                i += 1;
            }
            let mut j: usize = d + 1;
            while j < v.len()
                invariant
                    d < v@.len(),
                    d + 1 <= j <= v@.len(),
                    digits@ == v@.subrange(0, d as int) + v@.subrange(d + 1, j as int),
                decreases v@.len() - j,
            {
                digits.push(v[j]);
                assert(digits@ =~= v@.subrange(0, d as int) + v@.subrange(d + 1, j + 1));
                j += 1;
            }
            proof {
                assert(v@.take(d as int) =~= v@.subrange(0, d as int));
                assert(v@.skip(d + 1) =~= v@.subrange(d + 1, v@.len() as int));
            }
            scale_usize = v.len() - d - 1;
        },
        None => {
            digits = v;
            scale_usize = 0;
        },
    }
    assert(digits@ == gdigits);
    assert(scale_usize as int == decimal_scale(s@));
    if digits.len() == 0 {
        return None;
    }
    match digits_to_u64(&digits) {
        Some(m) => {
            if scale_usize > u32::MAX as usize {
                None
            } else {
                Some(Decimal { mantissa: m, scale: scale_usize as u32 })
            }
        },
        None => None,
    }
}

/// Reads a digit string as an unsigned 64-bit integer; absent where a
/// character is no digit or the value overflows.
fn digits_to_u64(digits: &Vec<char>) -> (r: Option<u64>)
    ensures
        match r {
            Some(m) => all_digits(digits@) && m == digits_val(digits@),
            None => !(all_digits(digits@) && digits_val(digits@) <= u64::MAX),
        },
{
    let ghost gdigits = digits@;
    let mut m: u64 = 0;
    let mut k: usize = 0;
    proof {
        assert(gdigits.take(0) =~= Seq::<char>::empty());
    }
    while k < digits.len()
        invariant
            digits@ == gdigits,
            k <= gdigits.len(),
            all_digits(gdigits.take(k as int)),
            m == digits_val(gdigits.take(k as int)),
        decreases gdigits.len() - k,
    {
        let c = digits[k];
        let cu = c as u32;
        proof {
            assert(gdigits.take(k + 1).drop_last() =~= gdigits.take(k as int));
            assert(gdigits.take(k + 1).last() == gdigits[k as int]);
        }
        if cu < 48 || cu > 57 {
            assert(!is_digit(gdigits[k as int]));
            assert(!all_digits(gdigits));
            return None;
        }
        assert(is_digit(gdigits[k as int]));
        assert(forall|i: int| 0 <= i < k + 1 ==> is_digit(#[trigger] gdigits.take(k + 1)[i]));
        let d = (cu - 48) as u64;
        let stepped = match m.checked_mul(10) {
            Some(t) => t.checked_add(d),
            None => None,
        };
        match stepped {
            Some(t) => {
                m = t;
            },
            None => {
                proof {
                    assert(digits_val(gdigits.take(k + 1)) > u64::MAX);
                    if all_digits(gdigits) {
                        lemma_digits_val_prefix(gdigits, k + 1);
                    }
                }
                return None;
            },
        }
        k += 1;
    }
    proof {
        assert(gdigits.take(gdigits.len() as int) =~= gdigits);
    }
    Some(m)
}

} // verus!
