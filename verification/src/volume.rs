//! The volume level of an audio sink, kept exactly as the status report
//! prints it: a decimal numeral, stored as an integer mantissa and the count
//! of digits after the point. `0.60` is `mantissa 60, scale 2`.

use vstd::prelude::*;
use crate::text::{all_digits, digits_val, find_char, parse_u64_digits, parse_u64_range,
    find_char_range, is_digit};

verus! {

/// A non-negative decimal volume reading: `mantissa / 10^scale`.
#[derive(Clone, Copy, Debug, PartialEq, Eq, Structural)]
pub struct Volume {
    pub mantissa: u64,
    pub scale: usize,
}

/// What reading a volume candidate yields: the digits around at most one
/// point, valued in base ten, with the count of fractional digits. Text
/// with other characters, no digit at all, or a value past `u64` gives
/// nothing, and the sink keeps no volume.
pub open spec fn parse_volume_spec(s: Seq<char>) -> Option<Volume> {
    match find_char(s, '.', 0) {
        None => match parse_u64_digits(s) {
            Some(m) => Some(Volume { mantissa: m, scale: 0 }),
            None => None,
        },
        Some(p) => {
            let digits = s.subrange(0, p) + s.subrange(p + 1, s.len() as int);
            if digits.len() > 0 && all_digits(digits) && digits_val(digits) <= u64::MAX {
                Some(
                    Volume {
                        mantissa: digits_val(digits) as u64,
                        scale: (s.len() - p - 1) as usize,
                    },
                )
            } else {
                None
            }
        },
    }
}

/// Read the slice of `s` between `from` and `to` as a volume level.
pub fn parse_volume_range(s: &str, from: usize, to: usize) -> (r: Option<Volume>)
    requires
        from <= to <= s@.len(),
    ensures
        r == parse_volume_spec(s@.subrange(from as int, to as int)),
{
    let ghost sub = s@.subrange(from as int, to as int);
    match find_char_range(s, '.', from, to) {
        None => {
            match parse_u64_range(s, from, to) {
                Some(m) => Some(Volume { mantissa: m, scale: 0 }),
                None => None,
            }
        },
        Some(p) => {
            let ghost pp = p - from;
            let ghost digits = sub.subrange(0, pp) + sub.subrange(pp + 1, sub.len() as int);
            assert(digits.len() == sub.len() - 1);
            if to - from == 1 {
                assert(digits.len() == 0);
                return None;
            }
            let mut acc: u64 = 0;
            let mut i: usize = from;
            while i < to
                invariant
                    from <= i <= to <= s@.len(),
                    from <= p < to,
                    pp == p - from,
                    find_char(sub, '.', 0) == Some(pp),
                    sub == s@.subrange(from as int, to as int),
                    digits == sub.subrange(0, pp) + sub.subrange(pp + 1, sub.len() as int),
                    all_digits(digits.take(if i <= p { i - from } else { i - from - 1 })),
                    acc == digits_val(digits.take(if i <= p { i - from } else { i - from - 1 })),
                decreases to - i,
            {
                let ghost j: int = if i <= p { i - from } else { i - from - 1 };
                if i != p {
                    let c = s.get_char(i);
                    assert(sub[i - from] == c);
                    assert(digits[j] == c) by {
                        if i < p {
                            assert(digits[j] == sub.subrange(0, pp)[j]);
                        } else {
                            assert(digits[j] == sub.subrange(pp + 1, sub.len() as int)[j - pp]);
                        }
                    }
                    if !('0' <= c && c <= '9') {
                        assert(0 <= j < digits.len());
                        assert(!is_digit(digits[j]));
                        assert(!all_digits(digits));
                        return None;
                    }
                    let d: u64 = (c as u32 - 48) as u64;
                    assert(d == crate::text::digit_val(c));
                    proof {
                        assert(digits.take(j + 1).drop_last() =~= digits.take(j));
                        assert(digits.take(j + 1).last() == c);
                    }
                    if acc > u64::MAX / 10 || (acc == u64::MAX / 10 && d > u64::MAX % 10) {
                        proof {
                            assert(digits_val(digits.take(j + 1)) > u64::MAX);
                            crate::text::lemma_digits_val_prefix(digits, j + 1);
                        }
                        return None;
                    }
                    acc = acc * 10 + d;
                }
                i = i + 1;
            }
            assert(digits.take(digits.len() as int) =~= digits);
            let scale: usize = to - p - 1;
            assert(scale == (sub.len() - pp - 1) as usize);
            Some(Volume { mantissa: acc, scale })
        },
    }
}

} // verus!
