//! Whole numbers written in decimal.

use vstd::prelude::*;
use vstd::slice::slice_subrange;

verus! {

/// Whether `c` is one of the ten decimal digits.
pub open spec fn is_digit(c: char) -> bool {
    '0' <= c && c <= '9'
}

/// The number that the digit `c` stands for.
pub open spec fn digit_value(c: char) -> nat
    recommends
        is_digit(c),
{
    (c as int - '0' as int) as nat
}

/// Whether `s` holds decimal digits only.
pub open spec fn all_digits(s: Seq<char>) -> bool {
    forall|i: int| 0 <= i < s.len() ==> is_digit(#[trigger] s[i])
}

/// The number that the digits of `s` denote, the most significant digit first.
pub open spec fn decimal(s: Seq<char>) -> nat
    recommends
        all_digits(s),
    decreases s.len(),
{
    if s.len() == 0 {
        0
    } else {
        10 * decimal(s.drop_last()) + digit_value(s.last())
    }
}

/// The whole number that `s` is the decimal writing of, if it is one.
///
/// A number is written as a sign followed by at least one digit. The sign
/// `+` may always be left out or written; the sign `-` is read only where
/// `signed` holds. Nothing else may stand in the text: no blank, no
/// separator.
pub open spec fn parse_int(s: Seq<char>, signed: bool) -> Option<int> {
    if s.len() > 0 && s[0] == '+' {
        if s.len() > 1 && all_digits(s.skip(1)) {
            Some(decimal(s.skip(1)) as int)
        } else {
            None
        }
    } else if signed && s.len() > 0 && s[0] == '-' {
        if s.len() > 1 && all_digits(s.skip(1)) {
            Some(-(decimal(s.skip(1)) as int))
        } else {
            None
        }
    } else if s.len() > 0 && all_digits(s) {
        Some(decimal(s) as int)
    } else {
        None
    }
}

/// Appending a digit multiplies by ten and adds the digit.
pub proof fn lemma_decimal_push(s: Seq<char>, c: char)
    ensures
        decimal(s.push(c)) == 10 * decimal(s) + digit_value(c),
{
    assert(s.push(c).drop_last() =~= s);
}

/// A prefix of a digit string denotes no more than the whole string.
pub proof fn lemma_decimal_prefix(s: Seq<char>, n: int)
    requires
        0 <= n <= s.len(),
    ensures
        decimal(s.take(n)) <= decimal(s),
    decreases s.len() - n,
{
    if n == s.len() {
        assert(s.take(n) =~= s);
    } else {
        lemma_decimal_prefix(s, n + 1);
        assert(s.take(n + 1).drop_last() =~= s.take(n));
    }
}

/// Reads `digits` as a number written in decimal digits and nothing else.
///
/// Returns the number that they denote where all of them are digits and the
/// number fits, and `None` otherwise. No digits at all denote zero.
pub fn parse_digits(digits: &[char]) -> (r: Option<u128>)
    ensures
        r == if all_digits(digits@) && decimal(digits@) <= u128::MAX {
            Some(decimal(digits@) as u128)
        } else {
            None
        },
{
    let mut total: u128 = 0;
    let mut i: usize = 0;
    while i < digits.len()
        invariant
            i <= digits@.len(),
            all_digits(digits@.take(i as int)),
            total == decimal(digits@.take(i as int)),
        decreases digits@.len() - i,
    {
        let c: char = digits[i];
        proof {
            assert(digits@.take(i + 1) =~= digits@.take(i as int).push(c));
            lemma_decimal_push(digits@.take(i as int), c);
            lemma_decimal_prefix(digits@, i + 1);
        }
        if c < '0' || c > '9' {
            return None;
        }
        let d: u128 = (c as u32 - '0' as u32) as u128;
        if total > (u128::MAX - d) / 10 {
            return None;
        }
        total = total * 10 + d;
        i = i + 1;
    }
    proof {
        assert(digits@.take(i as int) =~= digits@);
    }
    Some(total)
}

/// The number that `s` denotes where it lies between `min` and `max`, both
/// included.
pub open spec fn parse_int_within(s: Seq<char>, signed: bool, min: int, max: int) -> Option<int> {
    match parse_int(s, signed) {
        Some(n) => if min <= n <= max {
            Some(n)
        } else {
            None
        },
        None => None,
    }
}

/// Reads `text` as a whole number that may carry either sign.
pub fn parse_signed(text: &[char]) -> (r: Option<i128>)
    ensures
        r == match parse_int_within(text@, true, i128::MIN as int, i128::MAX as int) {
            Some(n) => Some(n as i128),
            None => None,
        },
{
    if text.len() == 0 {
        return None;
    }
    let first: char = text[0];
    if first == '+' || first == '-' {
        if text.len() == 1 {
            return None;
        }
        match parse_digits(slice_subrange(text, 1, text.len())) {
            Some(m) => {
                if m <= i128::MAX as u128 {
                    if first == '-' {
                        Some(-(m as i128))
                    } else {
                        Some(m as i128)
                    }
                } else if first == '-' && m - 1 == i128::MAX as u128 {
                    Some(i128::MIN)
                } else {
                    None
                }
            },
            None => None,
        }
    } else {
        match parse_digits(text) {
            Some(m) => if m <= i128::MAX as u128 {
                Some(m as i128)
            } else {
                None
            },
            None => None,
        }
    }
}

/// Reads `text` as a whole number that is not negative; the sign `-` is
/// not accepted, not even before a zero.
pub fn parse_unsigned(text: &[char]) -> (r: Option<u128>)
    ensures
        r == match parse_int_within(text@, false, 0, u128::MAX as int) {
            Some(n) => Some(n as u128),
            None => None,
        },
{
    if text.len() == 0 {
        return None;
    }
    if text[0] == '+' {
        if text.len() == 1 {
            return None;
        }
        parse_digits(slice_subrange(text, 1, text.len()))
    } else {
        parse_digits(text)
    }
}

} // verus!
