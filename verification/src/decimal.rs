//! Decimal integer literals: an optional sign followed by one or more ASCII
//! digits, with nothing before, between or after.

use vstd::prelude::*;
use crate::text::chars_of;

verus! {

/// Whether `c` is one of the ten ASCII digits.
pub open spec fn is_digit(c: char) -> bool {
    '0' <= c && c <= '9'
}

/// The number a digit stands for.
pub open spec fn digit_value(c: char) -> int {
    c as int - '0' as int
}

/// Whether every character of `s` is a digit.
pub open spec fn all_digits(s: Seq<char>) -> bool {
    forall|i: int| 0 <= i < s.len() ==> is_digit(#[trigger] s[i])
}

/// The number that a run of digits denotes in base ten; leading zeros do not
/// change it.
pub open spec fn decimal_value(s: Seq<char>) -> int
    decreases s.len(),
{
    if s.len() == 0 {
        0
    } else {
        decimal_value(s.drop_last()) * 10 + digit_value(s.last())
    }
}

/// Whether `s` opens with a sign that a literal may carry: `+` always, `-`
/// only where `allow_minus` is set.
pub open spec fn has_sign(s: Seq<char>, allow_minus: bool) -> bool {
    s.len() > 0 && (s[0] == '+' || (allow_minus && s[0] == '-'))
}

/// The digits of a literal: what follows the sign, or all of `s` when it
/// carries none.
pub open spec fn digits_of(s: Seq<char>, allow_minus: bool) -> Seq<char> {
    if has_sign(s, allow_minus) {
        s.subrange(1, s.len() as int)
    } else {
        s
    }
}

/// The integer that `s` denotes, if it is a decimal literal. A literal with
/// no digit, or with any character that is not a digit after the sign, denotes
/// nothing.
pub open spec fn decimal(s: Seq<char>, allow_minus: bool) -> Option<int> {
    let digits = digits_of(s, allow_minus);
    if digits.len() > 0 && all_digits(digits) {
        if allow_minus && s[0] == '-' {
            Some(-decimal_value(digits))
        } else {
            Some(decimal_value(digits))
        }
    } else {
        None
    }
}

/// The `u32` that `s` denotes: an unsigned literal (a leading `+` is
/// accepted, a `-` is not) whose value fits.
pub open spec fn decimal_u32(s: Seq<char>) -> Option<u32> {
    match decimal(s, false) {
        Some(v) => if v <= u32::MAX {
            Some(v as u32)
        } else {
            None
        },
        None => None,
    }
}

/// The `i64` that `s` denotes: a signed literal whose value fits.
pub open spec fn decimal_i64(s: Seq<char>) -> Option<i64> {
    match decimal(s, true) {
        Some(v) => if i64::MIN <= v <= i64::MAX {
            Some(v as i64)
        } else {
            None
        },
        None => None,
    }
}

/// A run of digits denotes a number that is not negative.
pub proof fn lemma_decimal_value_nonnegative(s: Seq<char>)
    requires
        all_digits(s),
    ensures
        decimal_value(s) >= 0,
    decreases s.len(),
{
    if s.len() > 0 {
        lemma_decimal_value_nonnegative(s.drop_last());
    }
}

/// Appending digits never makes the denoted number smaller.
pub proof fn lemma_decimal_value_grows(s: Seq<char>, k: int)
    requires
        all_digits(s),
        0 <= k <= s.len(),
    ensures
        decimal_value(s.subrange(0, k)) <= decimal_value(s),
    decreases s.len() - k,
{
    if k == s.len() {
        assert(s.subrange(0, k) =~= s);
    } else {
        let longer = s.subrange(0, k + 1);
        assert(longer.drop_last() =~= s.subrange(0, k));
        lemma_decimal_value_nonnegative(s.subrange(0, k));
        lemma_decimal_value_grows(s, k + 1);
    }
}

/// The value of the digit `c`, if it is one.
fn digit(c: char) -> (d: Option<u8>)
    ensures
        d is Some <==> is_digit(c),
        d matches Some(v) ==> v == digit_value(c) && v <= 9,
{
    if c >= '0' && c <= '9' {
        Some((c as u32 - '0' as u32) as u8)
    } else {
        None
    }
}

/// Reads the digits `chars[start..]` and returns the number they denote,
/// provided there is at least one, all are digits, and the number does not
/// exceed `limit`.
fn magnitude(chars: &Vec<char>, start: usize, limit: u64) -> (m: Option<u64>)
    requires
        start <= chars@.len(),
    ensures
        ({
            let digits = chars@.subrange(start as int, chars@.len() as int);
            let readable = digits.len() > 0 && all_digits(digits) && decimal_value(digits) <= limit;
            match m {
                Some(v) => readable && v == decimal_value(digits),
                None => !readable,
            }
        }),
{
    let n: usize = chars.len();
    let ghost digits = chars@.subrange(start as int, n as int);
    if start == n {
        return None;
    }
    let mut acc: u128 = 0;
    let mut i: usize = start;
    while i < n
        invariant
            start <= i <= n,
            n == chars@.len(),
            digits == chars@.subrange(start as int, n as int),
            all_digits(digits.subrange(0, i - start)),
            acc == decimal_value(digits.subrange(0, i - start)),
            acc <= limit,
        decreases n - i,
    {
        let ghost before = digits.subrange(0, i - start);
        let ghost after = digits.subrange(0, i - start + 1);
        proof {
            assert(after.drop_last() =~= before);
            assert(after.last() == chars@[i as int]);
        }
        match digit(chars[i]) {
            None => {
                return None;
            },
            Some(d) => {
                acc = acc * 10 + d as u128;
                proof {
                    assert forall|j: int| 0 <= j < after.len() implies is_digit(
                        #[trigger] after[j],
                    ) by {
                        if j < before.len() {
                            assert(before[j] == after[j]);
                        }
                    }
                }
                if acc > limit as u128 {
                    proof {
                        if all_digits(digits) {
                            lemma_decimal_value_grows(digits, i - start + 1);
                        }
                    }
                    return None;
                }
            },
        }
        i = i + 1;
    }
    proof {
        assert(digits.subrange(0, n - start) =~= digits);
    }
    Some(acc as u64)
}

/// Reads an unsigned decimal literal that fits in a `u32`.
pub fn parse_u32(s: &str) -> (r: Option<u32>)
    ensures
        r == decimal_u32(s@),
{
    let chars = chars_of(s);
    let start: usize = if chars.len() > 0 && chars[0] == '+' {
        1
    } else {
        0
    };
    proof {
        assert(chars@.subrange(start as int, chars@.len() as int) =~= digits_of(s@, false));
        if all_digits(digits_of(s@, false)) {
            lemma_decimal_value_nonnegative(digits_of(s@, false));
        }
    }
    match magnitude(&chars, start, 0xffff_ffff) {
        Some(m) => Some(m as u32),
        None => None,
    }
}

/// Reads a signed decimal literal that fits in an `i64`.
pub fn parse_i64(s: &str) -> (r: Option<i64>)
    ensures
        r == decimal_i64(s@),
{
    let chars = chars_of(s);
    let negative: bool = chars.len() > 0 && chars[0] == '-';
    let start: usize = if chars.len() > 0 && (chars[0] == '+' || chars[0] == '-') {
        1
    } else {
        0
    };
    proof {
        assert(chars@.subrange(start as int, chars@.len() as int) =~= digits_of(s@, true));
        if all_digits(digits_of(s@, true)) {
            lemma_decimal_value_nonnegative(digits_of(s@, true));
        }
    }
    if negative {
        match magnitude(&chars, start, 0x8000_0000_0000_0000) {
            Some(m) => if m == 0x8000_0000_0000_0000 {
                Some(i64::MIN)
            } else {
                Some(-(m as i64))
            },
            None => None,
        }
    } else {
        match magnitude(&chars, start, 0x7fff_ffff_ffff_ffff) {
            Some(m) => Some(m as i64),
            None => None,
        }
    }
}

} // verus!
