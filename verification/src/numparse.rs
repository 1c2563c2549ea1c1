//! Parsing of decimal integers out of character sequences, with the same
//! acceptance rules as the standard library's integer parsing: an optional
//! sign, then one or more ASCII digits, nothing else, and the value must
//! fit in the target type.

use vstd::prelude::*;
use crate::text::{is_digit, is_digit_char, digit_val};

verus! {

/// Whether every character of `s` is a decimal digit.
pub open spec fn all_digits(s: Seq<char>) -> bool {
    forall|i: int| 0 <= i < s.len() ==> is_digit(#[trigger] s[i])
}

/// The value of a sequence of decimal digits, most significant first.
pub open spec fn digits_val(s: Seq<char>) -> int
    decreases s.len(),
{
    if s.len() == 0 {
        0
    } else {
        digits_val(s.drop_last()) * 10 + digit_val(s.last())
    }
}

/// The parse of a whole character sequence as a signed decimal integer
/// with 64-bit bounds: `None` when the shape is wrong or the value does
/// not fit.
pub open spec fn parse_int_spec(s: Seq<char>) -> Option<int> {
    if s.len() == 0 {
        None
    } else {
        let digits = if s[0] == '+' || s[0] == '-' { s.skip(1) } else { s };
        if digits.len() == 0 || !all_digits(digits) {
            None
        } else {
            let value = if s[0] == '-' { -digits_val(digits) } else { digits_val(digits) };
            if i64::MIN <= value <= i64::MAX {
                Some(value)
            } else {
                None
            }
        }
    }
}

/// A digit string has a value of at least zero.
pub proof fn lemma_digits_val_nonneg(s: Seq<char>)
    requires
        all_digits(s),
    ensures
        digits_val(s) >= 0,
    decreases s.len(),
{
    if s.len() > 0 {
        assert(all_digits(s.drop_last()));
        lemma_digits_val_nonneg(s.drop_last());
    }
}

/// Extending a digit string on the right never lowers its value.
pub proof fn lemma_digits_val_prefix(s: Seq<char>, k: int)
    requires
        all_digits(s),
        0 <= k <= s.len(),
    ensures
        digits_val(s) >= digits_val(s.subrange(0, k)),
    decreases s.len() - k,
{
    if k < s.len() {
        lemma_digits_val_prefix(s, k + 1);
        let p = s.subrange(0, k + 1);
        assert(p.drop_last() =~= s.subrange(0, k));
        assert(all_digits(p));
        lemma_digits_val_nonneg(p.drop_last());
        assert(digits_val(p) == digits_val(s.subrange(0, k)) * 10 + digit_val(p.last()));
        assert(digit_val(p.last()) >= 0);
    } else {
        assert(s.subrange(0, k) =~= s);
    }
}

/// Parses `chars[start..end]` as a signed 64-bit decimal integer.
pub fn parse_i64_range(chars: &Vec<char>, start: usize, end: usize) -> (r: Option<i64>)
    requires
        start <= end <= chars@.len(),
    ensures
        match r {
            Some(v) => parse_int_spec(chars@.subrange(start as int, end as int)) == Some(v as int),
            None => parse_int_spec(chars@.subrange(start as int, end as int)) is None,
        },
{
    let ghost tok = chars@.subrange(start as int, end as int);
    if start == end {
        return None;
    }
    let first = chars[start];
    let negative = first == '-';
    let dstart = if first == '-' || first == '+' { start + 1 } else { start };
    let ghost digits = if tok[0] == '+' || tok[0] == '-' { tok.skip(1) } else { tok };
    proof {
        assert(digits =~= chars@.subrange(dstart as int, end as int));
    }
    if dstart == end {
        return None;
    }
    let mut mag: u64 = 0;
    let mut i = dstart;
    while i < end
        invariant
            start <= dstart <= i <= end <= chars@.len(),
            tok == chars@.subrange(start as int, end as int),
            tok.len() > 0,
            digits == (if tok[0] == '+' || tok[0] == '-' { tok.skip(1) } else { tok }),
            digits == chars@.subrange(dstart as int, end as int),
            digits.len() > 0,
            all_digits(digits.subrange(0, i - dstart)),
            mag == digits_val(digits.subrange(0, i - dstart)),
        decreases end - i,
    {
        let c = chars[i];
        if !is_digit_char(c) {
            proof {
                assert(!is_digit(digits[i - dstart]));
                assert(!all_digits(digits));
                assert(parse_int_spec(tok) is None);
            }
            return None;
        }
        let d = (c as u32 - '0' as u32) as u64;
        let ghost prefix = digits.subrange(0, i - dstart);
        let ghost extended = digits.subrange(0, i + 1 - dstart);
        proof {
            assert(extended.drop_last() =~= prefix);
            assert(extended.last() == digits[i - dstart] == c);
            assert(all_digits(extended));
        }
        let overflowed: bool = match mag.checked_mul(10) {
            Some(m10) => match m10.checked_add(d) {
                Some(next) => {
                    mag = next;
                    false
                }
                None => true,
            },
            None => true,
        };
        if overflowed {
            // The value so far already exceeds what fits in 64 bits, and
            // further digits can only grow it.
            proof {
                assert(digits_val(extended) == mag * 10 + digit_val(c));
                assert(digits_val(extended) > u64::MAX);
                if all_digits(digits) {
                    lemma_digits_val_prefix(digits, i + 1 - dstart);
                    assert(digits_val(digits) >= digits_val(extended));
                    assert(digits_val(digits) > i64::MAX);
                    assert(-digits_val(digits) < i64::MIN);
                }
                assert(parse_int_spec(tok) is None);
            }
            return None;
        }
        i = i + 1;
    }
    proof {
        assert(digits.subrange(0, digits.len() as int) =~= digits);
        assert(all_digits(digits));
        assert(mag == digits_val(digits));
    }
    if negative {
        if mag > 9223372036854775808u64 {
            return None;
        }
        if mag == 9223372036854775808u64 {
            Some(i64::MIN)
        } else {
            Some(-(mag as i64))
        }
    } else {
        if mag > 9223372036854775807u64 {
            return None;
        }
        Some(mag as i64)
    }
}

} // verus!
