//! Decimal integers as article identifiers write them: an optional sign,
//! then digits and nothing else.

use crate::text::to_chars;
use vstd::prelude::*;

verus! {

/// `c` is one of the ten ASCII digits.
pub open spec fn is_digit(c: char) -> bool {
    '0' <= c && c <= '9'
}

/// The number a digit stands for.
pub open spec fn digit_value(c: char) -> int {
    c as int - '0' as int
}

/// Every character of `s` is a digit.
pub open spec fn all_digits(s: Seq<char>) -> bool {
    forall|i: int| 0 <= i < s.len() ==> is_digit(#[trigger] s[i])
}

/// The number that the digits of `s` write in base ten; 0 for no digits.
pub open spec fn decimal_value(s: Seq<char>) -> int
    decreases s.len(),
{
    if s.len() == 0 {
        0
    } else {
        decimal_value(s.drop_last()) * 10 + digit_value(s.last())
    }
}

/// `s` starts with a sign.
pub open spec fn has_sign(s: Seq<char>) -> bool {
    s.len() > 0 && (s[0] == '-' || s[0] == '+')
}

/// What follows the sign, if there is one.
pub open spec fn unsigned_part(s: Seq<char>) -> Seq<char> {
    if has_sign(s) {
        s.skip(1)
    } else {
        s
    }
}

/// The integer that `s` writes: an optional `+` or `-`, then at least one
/// digit and only digits. Anything else writes no integer.
pub open spec fn integer_of(s: Seq<char>) -> Option<int> {
    let digits = unsigned_part(s);
    if digits.len() == 0 || !all_digits(digits) {
        None
    } else if s[0] == '-' {
        Some(-decimal_value(digits))
    } else {
        Some(decimal_value(digits))
    }
}

/// The `i32` that `s` writes: `integer_of`, where the value fits.
pub open spec fn i32_of(s: Seq<char>) -> Option<i32> {
    match integer_of(s) {
        Some(v) => if i32::MIN <= v <= i32::MAX {
            Some(v as i32)
        } else {
            None
        },
        None => None,
    }
}

/// A longer run of digits never writes a smaller number than its prefix.
pub proof fn lemma_decimal_value_grows(s: Seq<char>, k: int)
    requires
        all_digits(s),
        0 <= k <= s.len(),
    ensures
        0 <= decimal_value(s.take(k)) <= decimal_value(s),
    decreases s.len() - k,
{
    lemma_decimal_value_nonnegative(s.take(k));
    if k < s.len() {
        lemma_decimal_value_grows(s, k + 1);
        assert(s.take(k + 1).drop_last() == s.take(k));
        assert(is_digit(s[k]));
        assert(s.take(k + 1).last() == s[k]);
    } else {
        assert(s.take(k) == s);
    }
}

/// Digits write a number that is not negative.
pub proof fn lemma_decimal_value_nonnegative(s: Seq<char>)
    requires
        all_digits(s),
    ensures
        0 <= decimal_value(s),
    decreases s.len(),
{
    if s.len() > 0 {
        assert(is_digit(s.last()));
        lemma_decimal_value_nonnegative(s.drop_last());
    }
}

/// Reads `text` as an `i32`.
pub fn parse_i32(text: &str) -> (r: Option<i32>)
    ensures
        r == i32_of(text@),
{
    let chars = to_chars(text);
    let n: usize = chars.len();
    if n == 0 {
        return None;
    }
    let negative: bool = chars[0] == '-';
    let first: usize = if chars[0] == '-' || chars[0] == '+' {
        1
    } else {
        0
    };
    if first == n {
        return None;
    }
    let ghost digits = unsigned_part(text@);
    assert(digits == text@.skip(first as int));
    let mut value: i64 = 0;
    let mut i: usize = first;
    while i < n
        invariant
            n == chars.len(),
            chars@ == text@,
            first <= i <= n,
            first <= 1,
            digits == unsigned_part(text@),
            digits == text@.skip(first as int),
            digits.len() == n - first,
            negative == (text@[0] == '-'),
            all_digits(digits.take(i - first)),
            value == decimal_value(digits.take(i - first)),
            0 <= value <= 2147483648,
        decreases n - i,
    {
        let c: char = chars[i];
        let ghost upto = digits.take(i - first);
        let ghost next = digits.take(i - first + 1);
        proof {
            assert(digits[i - first] == c);
            assert(next.drop_last() == upto);
            assert(next.last() == c);
        }
        if !(c >= '0' && c <= '9') {
            proof {
                assert(!is_digit(digits[i - first]));
            }
            return None;
        }
        let d: i64 = (c as u32 - '0' as u32) as i64;
        assert(d == digit_value(c));
        proof {
            assert forall|j: int| 0 <= j < next.len() implies is_digit(#[trigger] next[j]) by {
                if j < upto.len() {
                    assert(next[j] == upto[j]);
                }
            }
        }
        let grown: i64 = value * 10 + d;
        if grown > 2147483648 {
            proof {
                if all_digits(digits) {
                    lemma_decimal_value_grows(digits, i - first + 1);
                    assert(decimal_value(next) == grown);
                }
            }
            return None;
        }
        value = grown;
        i += 1;
    }
    proof {
        assert(digits.take(n - first) == digits);
    }
    if negative {
        Some((-value) as i32)
    } else if value == 2147483648 {
        None
    } else {
        Some(value as i32)
    }
}

} // verus!
