//! Reading integers from text the way Rust's `i64` and `u64` parsers do: an
//! optional sign, then one or more ASCII digits, within the type's range.
use vstd::prelude::*;

use crate::text::{chars_of, digit_value, is_digit};

verus! {

/// Every character is an ASCII digit.
pub open spec fn all_digits(d: Seq<char>) -> bool {
    forall|i: int| 0 <= i < d.len() ==> is_digit(#[trigger] d[i])
}

/// The value of a run of decimal digits.
pub open spec fn digits_value(d: Seq<char>) -> int
    decreases d.len(),
{
    if d.len() == 0 {
        0
    } else {
        digits_value(d.drop_last()) * 10 + digit_value(d.last())
    }
}

/// The number written by `s`: an optional `+` or `-`, then at least one digit.
pub open spec fn signed_number(s: Seq<char>) -> Option<int> {
    if s.len() > 0 && (s[0] == '-' || s[0] == '+') {
        let d = s.drop_first();
        if d.len() > 0 && all_digits(d) {
            Some(
                if s[0] == '-' {
                    -digits_value(d)
                } else {
                    digits_value(d)
                },
            )
        } else {
            None
        }
    } else if s.len() > 0 && all_digits(s) {
        Some(digits_value(s))
    } else {
        None
    }
}

/// The `i64` written by `s`, if it is one.
pub open spec fn i64_of(s: Seq<char>) -> Option<i64> {
    match signed_number(s) {
        Some(v) => if i64::MIN <= v <= i64::MAX {
            Some(v as i64)
        } else {
            None
        },
        None => None,
    }
}

/// The `u64` written by `s`, if it is one (a minus sign is never accepted).
pub open spec fn u64_of(s: Seq<char>) -> Option<u64> {
    if s.len() > 0 && s[0] == '-' {
        None
    } else {
        match signed_number(s) {
            Some(v) => if 0 <= v <= u64::MAX {
                Some(v as u64)
            } else {
                None
            },
            None => None,
        }
    }
}

proof fn lemma_digits_value_nonneg(d: Seq<char>)
    requires
        all_digits(d),
    ensures
        digits_value(d) >= 0,
    decreases d.len(),
{
    if d.len() > 0 {
        assert(is_digit(d[d.len() - 1]));
        lemma_digits_value_nonneg(d.drop_last());
    }
}

proof fn lemma_digits_value_grows(d: Seq<char>, k: int)
    requires
        all_digits(d),
        0 <= k <= d.len(),
    ensures
        digits_value(d.take(k)) <= digits_value(d),
    decreases d.len() - k,
{
    if k < d.len() {
        lemma_digits_value_grows(d, k + 1);
        assert(d.take(k + 1).drop_last() == d.take(k));
        assert(is_digit(d[k]));
        assert(all_digits(d.take(k)));
        lemma_digits_value_nonneg(d.take(k));
    } else {
        assert(d.take(k) == d);
    }
}

/// Largest magnitude any of the two parsers takes, plus one.
const MAGNITUDE_CAP: u128 = 18446744073709551616;

/// The value of the digits from position `from` on, when all are digits and the
/// value stays within 2^64.
fn magnitude(chars: &Vec<char>, from: usize) -> (r: Option<u128>)
    requires
        from <= chars@.len(),
    ensures
        r matches Some(v) ==> all_digits(chars@.skip(from as int)) && v == digits_value(
            chars@.skip(from as int),
        ) && v <= MAGNITUDE_CAP,
        r is None ==> !all_digits(chars@.skip(from as int)) || digits_value(
            chars@.skip(from as int),
        ) > MAGNITUDE_CAP,
{
    let ghost rest = chars@.skip(from as int);
    let mut value: u128 = 0;
    let mut i: usize = from;
    while i < chars.len()
        invariant
            from <= i <= chars@.len(),
            rest == chars@.skip(from as int),
            all_digits(rest.take(i - from)),
            value == digits_value(rest.take(i - from)),
            value <= MAGNITUDE_CAP,
        decreases chars@.len() - i,
    {
        let c = chars[i];
        proof {
            assert(rest.take(i - from + 1).drop_last() == rest.take(i - from));
            assert(rest.take(i - from + 1).last() == c);
        }
        if !('0' <= c && c <= '9') {
            assert(!is_digit(rest[i - from]));
            return None;
        }
        let d = (c as u32 - 48) as u128;
        let next = value * 10 + d;
        if next > MAGNITUDE_CAP {
            proof {
                if all_digits(rest) {
                    lemma_digits_value_grows(rest, i - from + 1);
                }
            }
            return None;
        }
        value = next;
        i += 1;
    }
    proof {
        assert(rest.take(i - from) == rest);
    }
    Some(value)
}

/// Reads an `i64` as Rust's parser does.
pub fn parse_i64(s: &str) -> (r: Option<i64>)
    ensures
        r == i64_of(s@),
{
    let chars = chars_of(s);
    if chars.len() == 0 {
        return None;
    }
    let signed = chars[0] == '-' || chars[0] == '+';
    let from: usize = if signed {
        1
    } else {
        0
    };
    proof {
        assert(chars@.skip(1) == s@.drop_first());
        assert(chars@.skip(0) == s@);
    }
    if from == chars.len() {
        return None;
    }
    let m = match magnitude(&chars, from) {
        Some(m) => m,
        None => return None,
    };
    if chars[0] == '-' {
        if m > 9223372036854775808 {
            return None;
        }
        if m == 9223372036854775808 {
            return Some(i64::MIN);
        }
        Some(-(m as i64))
    } else {
        if m > 9223372036854775807 {
            return None;
        }
        Some(m as i64)
    }
}

/// Reads a `u64` as Rust's parser does.
pub fn parse_u64(s: &str) -> (r: Option<u64>)
    ensures
        r == u64_of(s@),
{
    let chars = chars_of(s);
    if chars.len() == 0 || chars[0] == '-' {
        return None;
    }
    let from: usize = if chars[0] == '+' {
        1
    } else {
        0
    };
    proof {
        assert(chars@.skip(1) == s@.drop_first());
        assert(chars@.skip(0) == s@);
    }
    if from == chars.len() {
        return None;
    }
    let m = match magnitude(&chars, from) {
        Some(m) => m,
        None => return None,
    };
    if m > 18446744073709551615 {
        return None;
    }
    Some(m as u64)
}

} // verus!
