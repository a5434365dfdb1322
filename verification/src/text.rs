//! Character-level helpers shared by the parsers: locating characters and
//! substrings, trimming whitespace, and reading unsigned decimal numerals.

use vstd::prelude::*;

verus! {

/// A decimal digit `0` through `9`.
pub open spec fn is_digit(c: char) -> bool {
    '0' as u32 <= c as u32 && c as u32 <= '9' as u32
}

/// The characters the standard library's `trim` removes: Unicode whitespace.
pub open spec fn is_space(c: char) -> bool {
    ||| ('\u{9}' as u32 <= c as u32 && c as u32 <= '\u{d}' as u32)
    ||| c == ' '
    ||| c == '\u{85}'
    ||| c == '\u{a0}'
    ||| c == '\u{1680}'
    ||| ('\u{2000}' as u32 <= c as u32 && c as u32 <= '\u{200a}' as u32)
    ||| c == '\u{2028}'
    ||| c == '\u{2029}'
    ||| c == '\u{202f}'
    ||| c == '\u{205f}'
    ||| c == '\u{3000}'
}

/// Index of the first digit at or after `i`, if any.
pub open spec fn find_digit(s: Seq<char>, i: int) -> Option<int>
    decreases s.len() - i,
{
    if i < 0 || i >= s.len() {
        None
    } else if is_digit(s[i]) {
        Some(i)
    } else {
        find_digit(s, i + 1)
    }
}

/// Index of the first occurrence of `c` at or after `i`, if any.
pub open spec fn find_char(s: Seq<char>, c: char, i: int) -> Option<int>
    decreases s.len() - i,
{
    if i < 0 || i >= s.len() {
        None
    } else if s[i] == c {
        Some(i)
    } else {
        find_char(s, c, i + 1)
    }
}

/// `pat` occurs in `s` starting exactly at `i`.
pub open spec fn match_at(s: Seq<char>, pat: Seq<char>, i: int) -> bool {
    &&& 0 <= i
    &&& i + pat.len() <= s.len()
    &&& s.subrange(i, i + pat.len() as int) == pat
}

/// Index of the first occurrence of `pat` at or after `i`, if any.
pub open spec fn find_seq(s: Seq<char>, pat: Seq<char>, i: int) -> Option<int>
    decreases s.len() - i + 1,
{
    if i < 0 || i + pat.len() > s.len() {
        None
    } else if match_at(s, pat, i) {
        Some(i)
    } else {
        find_seq(s, pat, i + 1)
    }
}

/// `pat` occurs somewhere in `s`.
pub open spec fn contains_seq(s: Seq<char>, pat: Seq<char>) -> bool {
    find_seq(s, pat, 0) is Some
}

/// A found character lies inside the searched range.
pub proof fn lemma_find_char_bounds(s: Seq<char>, c: char, i: int)
    ensures
        find_char(s, c, i) matches Some(j) ==> i <= j < s.len(),
    decreases s.len() - i + 1,
{
    if i < 0 || i >= s.len() {
    } else if s[i] == c {
    } else {
        lemma_find_char_bounds(s, c, i + 1);
    }
}

/// `s` without leading whitespace.
pub open spec fn trim_start(s: Seq<char>) -> Seq<char>
    decreases s.len(),
{
    if s.len() > 0 && is_space(s[0]) {
        trim_start(s.drop_first())
    } else {
        s
    }
}

/// `s` without trailing whitespace.
pub open spec fn trim_end(s: Seq<char>) -> Seq<char>
    decreases s.len(),
{
    if s.len() > 0 && is_space(s[s.len() - 1]) {
        trim_end(s.drop_last())
    } else {
        s
    }
}

/// `s` without leading or trailing whitespace, as `str::trim` leaves it.
pub open spec fn trim(s: Seq<char>) -> Seq<char> {
    trim_end(trim_start(s))
}

/// Every character of `s` is a decimal digit.
pub open spec fn all_digits(s: Seq<char>) -> bool {
    forall|i: int| 0 <= i < s.len() ==> is_digit(s[i])
}

/// Numeric value of one digit character.
pub open spec fn digit_val(c: char) -> nat {
    (c as u32 - '0' as u32) as nat
}

/// Value of a digit string read in base ten.
pub open spec fn digits_val(s: Seq<char>) -> nat
    decreases s.len(),
{
    if s.len() == 0 {
        0
    } else {
        digits_val(s.drop_last()) * 10 + digit_val(s.last())
    }
}

/// What `str::parse::<u64>` returns on a digit-only candidate: the numeral's
/// value when the text is non-empty, all digits, and in range.
pub open spec fn parse_u64_digits(s: Seq<char>) -> Option<u64> {
    if s.len() > 0 && all_digits(s) && digits_val(s) <= u64::MAX {
        Some(digits_val(s) as u64)
    } else {
        None
    }
}

/// What `str::parse::<u32>` returns on a digit-only candidate.
pub open spec fn parse_u32_digits(s: Seq<char>) -> Option<u32> {
    if s.len() > 0 && all_digits(s) && digits_val(s) <= u32::MAX {
        Some(digits_val(s) as u32)
    } else {
        None
    }
}

/// A longer digit string is worth at least as much as any of its prefixes.
pub proof fn lemma_digits_val_prefix(s: Seq<char>, i: int)
    requires
        0 <= i <= s.len(),
    ensures
        digits_val(s.take(i)) <= digits_val(s),
    decreases s.len() - i,
{
    if i < s.len() {
        assert(s.take(i + 1).drop_last() =~= s.take(i));
        assert(digits_val(s.take(i + 1)) == digits_val(s.take(i)) * 10 + digit_val(s.take(
            i + 1,
        ).last()));
        lemma_digits_val_prefix(s, i + 1);
    } else {
        assert(s.take(i) =~= s);
    }
}

/// Search a slice of `s` for its first digit.
pub fn find_digit_range(s: &str, from: usize, to: usize) -> (r: Option<usize>)
    requires
        from <= to <= s@.len(),
    ensures
        ({
            let sub = s@.subrange(from as int, to as int);
            match r {
                Some(j) => from <= j < to && find_digit(sub, 0) == Some(j - from),
                None => find_digit(sub, 0) is None,
            }
        }),
{
    let ghost sub = s@.subrange(from as int, to as int);
    let mut i: usize = from;
    while i < to
        invariant
            from <= i <= to <= s@.len(),
            sub == s@.subrange(from as int, to as int),
            find_digit(sub, 0) == find_digit(sub, i - from),
        decreases to - i,
    {
        let c = s.get_char(i);
        assert(sub[i - from] == c);
        if '0' <= c && c <= '9' {
            return Some(i);
        }
        i = i + 1;
    }
    None
}

/// Search a slice of `s` for the first occurrence of `c`.
pub fn find_char_range(s: &str, c: char, from: usize, to: usize) -> (r: Option<usize>)
    requires
        from <= to <= s@.len(),
    ensures
        ({
            let sub = s@.subrange(from as int, to as int);
            match r {
                Some(j) => from <= j < to && find_char(sub, c, 0) == Some(j - from),
                None => find_char(sub, c, 0) is None,
            }
        }),
{
    let ghost sub = s@.subrange(from as int, to as int);
    let mut i: usize = from;
    while i < to
        invariant
            from <= i <= to <= s@.len(),
            sub == s@.subrange(from as int, to as int),
            find_char(sub, c, 0) == find_char(sub, c, i - from),
        decreases to - i,
    {
        let d = s.get_char(i);
        assert(sub[i - from] == d);
        if d == c {
            return Some(i);
        }
        i = i + 1;
    }
    None
}

/// Whether `pat` stands in `s` exactly at position `i`.
fn match_at_range(s: &str, pat: &Vec<char>, i: usize, to: usize) -> (r: bool)
    requires
        i <= to <= s@.len(),
    ensures
        r == (i + pat@.len() <= to && s@.subrange(i as int, to as int).subrange(
            0,
            pat@.len() as int,
        ) == pat@),
{
    if pat.len() > to - i {
        assert(i + pat@.len() > to);
        return false;
    }
    let ghost sub = s@.subrange(i as int, to as int).subrange(0, pat@.len() as int);
    let mut k: usize = 0;
    while k < pat.len()
        invariant
            i + pat@.len() <= to <= s@.len(),
            k <= pat@.len(),
            sub == s@.subrange(i as int, to as int).subrange(0, pat@.len() as int),
            forall|m: int| 0 <= m < k ==> sub[m] == pat@[m],
        decreases pat@.len() - k,
    {
        let c = s.get_char(i + k);
        assert(sub[k as int] == c);
        if c != pat[k] {
            assert(sub[k as int] != pat@[k as int]);
            assert(sub != pat@);
            return false;
        }
        k = k + 1;
    }
    assert(sub =~= pat@);
    true
}

/// Search a slice of `s` for the first occurrence of `pat`.
pub fn find_seq_range(s: &str, pat: &Vec<char>, from: usize, to: usize) -> (r: Option<usize>)
    requires
        from <= to <= s@.len(),
    ensures
        ({
            let sub = s@.subrange(from as int, to as int);
            match r {
                Some(j) => from <= j && j + pat@.len() <= to && find_seq(sub, pat@, 0) == Some(
                    j - from,
                ),
                None => find_seq(sub, pat@, 0) is None,
            }
        }),
{
    let ghost sub = s@.subrange(from as int, to as int);
    if pat.len() > to - from {
        return None;
    }
    if pat.len() == 0 {
        proof {
            assert(sub.subrange(0, 0) =~= pat@);
            assert(match_at(sub, pat@, 0));
        }
        return Some(from);
    }
    let end: usize = to - pat.len();
    let mut i: usize = from;
    while i <= end
        invariant
            from <= i,
            i <= end + 1,
            end == to - pat@.len(),
            pat@.len() >= 1,
            from <= to <= s@.len(),
            pat@.len() <= to - from,
            sub == s@.subrange(from as int, to as int),
            find_seq(sub, pat@, 0) == find_seq(sub, pat@, i - from),
        decreases end + 1 - i,
    {
        let hit = match_at_range(s, pat, i, to);
        proof {
            assert(sub.subrange(i - from, i - from + pat@.len()) =~= s@.subrange(
                i as int,
                to as int,
            ).subrange(0, pat@.len() as int));
            assert(match_at(sub, pat@, i - from) == (sub.subrange(
                i - from,
                i - from + pat@.len(),
            ) == pat@));
        }
        if hit {
            assert(find_seq(sub, pat@, i - from) == Some(i - from));
            return Some(i);
        }
        i = i + 1;
    }
    assert(find_seq(sub, pat@, i - from) is None);
    None
}

/// Whether one character is Unicode whitespace, as `str::trim` counts it.
fn space_char(c: char) -> (r: bool)
    ensures
        r == is_space(c),
{
    let v = c as u32;
    (9 <= v && v <= 13) || v == 32 || v == 133 || v == 160 || v == 5760 || (8192 <= v && v <= 8202)
        || v == 8232 || v == 8233 || v == 8239 || v == 8287 || v == 12288
}

/// Narrow a slice of `s` to its whitespace-trimmed core.
pub fn trim_range(s: &str, from: usize, to: usize) -> (r: (usize, usize))
    requires
        from <= to <= s@.len(),
    ensures
        from <= r.0 <= r.1 <= to,
        s@.subrange(r.0 as int, r.1 as int) == trim(s@.subrange(from as int, to as int)),
{
    let ghost orig = s@.subrange(from as int, to as int);
    let mut a: usize = from;
    while a < to && space_char(s.get_char(a))
        invariant
            from <= a <= to <= s@.len(),
            trim_start(orig) == trim_start(s@.subrange(a as int, to as int)),
        decreases to - a,
    {
        proof {
            let cur = s@.subrange(a as int, to as int);
            assert(cur[0] == s@[a as int]);
            assert(cur.drop_first() =~= s@.subrange(a + 1, to as int));
        }
        a = a + 1;
    }
    proof {
        let cur = s@.subrange(a as int, to as int);
        if a < to {
            assert(cur[0] == s@[a as int]);
        }
        assert(trim_start(cur) == cur);
        assert(trim_start(orig) == s@.subrange(a as int, to as int));
    }
    let mut b: usize = to;
    while a < b && space_char(s.get_char(b - 1))
        invariant
            from <= a <= b <= to <= s@.len(),
            trim_start(orig) == s@.subrange(a as int, to as int),
            trim_end(s@.subrange(a as int, to as int)) == trim_end(
                s@.subrange(a as int, b as int),
            ),
        decreases b,
    {
        proof {
            let cur = s@.subrange(a as int, b as int);
            assert(cur[cur.len() - 1] == s@[b - 1]);
            assert(cur.drop_last() =~= s@.subrange(a as int, b - 1));
        }
        b = b - 1;
    }
    proof {
        let cur = s@.subrange(a as int, b as int);
        if a < b {
            assert(cur[cur.len() - 1] == s@[b - 1]);
        }
        assert(trim_end(cur) == cur);
    }
    (a, b)
}

/// Read a slice of `s` as a base-ten `u64`, as `str::parse` would where the
/// text is digits only.
pub fn parse_u64_range(s: &str, from: usize, to: usize) -> (r: Option<u64>)
    requires
        from <= to <= s@.len(),
    ensures
        r == parse_u64_digits(s@.subrange(from as int, to as int)),
{
    let ghost sub = s@.subrange(from as int, to as int);
    if from == to {
        assert(sub.len() == 0);
        return None;
    }
    let mut acc: u64 = 0;
    let mut i: usize = from;
    while i < to
        invariant
            from <= i <= to <= s@.len(),
            sub == s@.subrange(from as int, to as int),
            all_digits(sub.take(i - from)),
            acc == digits_val(sub.take(i - from)),
        decreases to - i,
    {
        let c = s.get_char(i);
        assert(sub[i - from] == c);
        if !('0' <= c && c <= '9') {
            assert(!is_digit(sub[i - from]));
            return None;
        }
        let d: u64 = (c as u32 - 48) as u64;
        assert(d == digit_val(c));
        proof {
            assert(sub.take(i - from + 1).drop_last() =~= sub.take(i - from));
            assert(digits_val(sub.take(i - from + 1)) == digits_val(sub.take(i - from)) * 10
                + digit_val(c));
        }
        if acc > u64::MAX / 10 || (acc == u64::MAX / 10 && d > u64::MAX % 10) {
            proof {
                assert(digits_val(sub.take(i - from + 1)) > u64::MAX);
                lemma_digits_val_prefix(sub, i - from + 1);
            }
            return None;
        }
        acc = acc * 10 + d;
        i = i + 1;
    }
    assert(sub.take(to - from) =~= sub);
    Some(acc)
}

/// Read a slice of `s` as a base-ten `u32`.
pub fn parse_u32_range(s: &str, from: usize, to: usize) -> (r: Option<u32>)
    requires
        from <= to <= s@.len(),
    ensures
        r == parse_u32_digits(s@.subrange(from as int, to as int)),
{
    match parse_u64_range(s, from, to) {
        Some(v) => {
            if v <= u32::MAX as u64 {
                Some(v as u32)
            } else {
                None
            }
        },
        None => {
            proof {
                let sub = s@.subrange(from as int, to as int);
                if sub.len() > 0 && all_digits(sub) && digits_val(sub) <= u32::MAX {
                    assert(digits_val(sub) <= u64::MAX);
                }
            }
            None
        },
    }
}

} // verus!
