//! Byte-level text scanning shared by the parsers of compositor replies and
//! of `/proc` files: substring search, runs of bytes up to a stop byte, and
//! unsigned decimal numbers as `str::parse` reads them.

use vstd::prelude::*;

verus! {

/// `pat` occurs in `text` at index `i`.
pub open spec fn matches_at(text: Seq<u8>, pat: Seq<u8>, i: int) -> bool {
    &&& 0 <= i
    &&& i + pat.len() <= text.len()
    &&& text.subrange(i, i + pat.len()) == pat
}

/// The first index at or after `from` where `pat` occurs in `text`.
pub open spec fn first_match_from(text: Seq<u8>, pat: Seq<u8>, from: int) -> Option<int>
    decreases text.len() - from,
{
    if from < 0 || from + pat.len() > text.len() {
        None
    } else if matches_at(text, pat, from) {
        Some(from)
    } else if from >= text.len() {
        None
    } else {
        first_match_from(text, pat, from + 1)
    }
}

/// What `first_match_from` gives: an index at or after `from` where `pat`
/// occurs, with no occurrence between `from` and it; or no occurrence at all.
pub proof fn lemma_first_match_from(text: Seq<u8>, pat: Seq<u8>, from: int)
    requires
        0 <= from,
    ensures
        first_match_from(text, pat, from) matches Some(i) ==> {
            &&& from <= i
            &&& matches_at(text, pat, i)
            &&& forall|j: int| from <= j < i ==> !matches_at(text, pat, j)
        },
        first_match_from(text, pat, from) is None ==> forall|j: int|
            from <= j ==> !matches_at(text, pat, j),
    decreases text.len() - from,
{
    if from + pat.len() > text.len() {
    } else if matches_at(text, pat, from) {
    } else if from >= text.len() {
    } else {
        lemma_first_match_from(text, pat, from + 1);
    }
}

/// Whether `text[at..]` starts with `pat`.
fn matches_here(text: &[u8], pat: &[u8], at: usize) -> (b: bool)
    requires
        at + pat@.len() <= text@.len(),
    ensures
        b == matches_at(text@, pat@, at as int),
{
    let n = pat.len();
    let len = text.len();
    let mut k: usize = 0;
    while k < n
        invariant
            n == pat@.len(),
            len == text@.len(),
            at + n <= len,
            k <= n,
            forall|m: int| 0 <= m < k ==> text@[at + m] == pat@[m],
        decreases n - k,
    {
        if text[at + k] != pat[k] {
            assert(text@.subrange(at as int, at + n)[k as int] != pat@[k as int]);
            return false;
        }
        k = k + 1;
    }
    assert(text@.subrange(at as int, at + n) =~= pat@);
    true
}

/// Whether `a` and `b` hold the same bytes.
pub fn bytes_equal(a: &[u8], b: &[u8]) -> (r: bool)
    ensures
        r == (a@ == b@),
{
    let n = a.len();
    if n != b.len() {
        return false;
    }
    let mut k: usize = 0;
    while k < n
        invariant
            n == a@.len(),
            n == b@.len(),
            k <= n,
            forall|m: int| 0 <= m < k ==> a@[m] == b@[m],
        decreases n - k,
    {
        if a[k] != b[k] {
            return false;
        }
        k = k + 1;
    }
    assert(a@ =~= b@);
    true
}

/// The first index at or after `from` where `pat` occurs in `text`.
pub fn find_from(text: &[u8], pat: &[u8], from: usize) -> (r: Option<usize>)
    ensures
        r matches Some(i) ==> first_match_from(text@, pat@, from as int) == Some(i as int),
        r is None ==> first_match_from(text@, pat@, from as int) is None,
{
    let len = text.len();
    let n = pat.len();
    if from > len || n > len - from {
        return None;
    }
    if n == 0 {
        assert(text@.subrange(from as int, from as int) =~= pat@);
        return Some(from);
    }
    let mut i = from;
    while i <= len - n
        invariant
            len == text@.len(),
            n == pat@.len(),
            1 <= n <= len,
            from <= i <= len - n + 1,
            first_match_from(text@, pat@, from as int) == first_match_from(text@, pat@, i as int),
        decreases len - i,
    {
        if matches_here(text, pat, i) {
            return Some(i);
        }
        i = i + 1;
    }
    None
}

/// The index of the first `stop` byte at or after `start`, or the length of
/// `bytes` when there is none.
pub open spec fn end_of_run(bytes: Seq<u8>, start: int, stop: u8) -> int
    decreases bytes.len() - start,
{
    if start < 0 || start >= bytes.len() || bytes[start] == stop {
        start
    } else {
        end_of_run(bytes, start + 1, stop)
    }
}

/// `end_of_run` stops at the first `stop` byte, or at the end of `bytes`.
pub proof fn lemma_end_of_run(bytes: Seq<u8>, start: int, stop: u8)
    requires
        0 <= start <= bytes.len(),
    ensures
        start <= end_of_run(bytes, start, stop) <= bytes.len(),
        forall|k: int| start <= k < end_of_run(bytes, start, stop) ==> bytes[k] != stop,
        end_of_run(bytes, start, stop) == bytes.len() || bytes[end_of_run(bytes, start, stop)]
            == stop,
    decreases bytes.len() - start,
{
    if start < bytes.len() && bytes[start] != stop {
        lemma_end_of_run(bytes, start + 1, stop);
    }
}

/// The number of bytes of `bytes` before the first `stop_char`, or the length
/// of `bytes` when there is none.
pub fn advance_until(bytes: &[u8], stop_char: u8) -> (n: usize)
    ensures
        n == end_of_run(bytes@, 0, stop_char),
{
    let mut index: usize = 0;
    while index < bytes.len() && bytes[index] != stop_char
        invariant
            index <= bytes@.len(),
            end_of_run(bytes@, 0, stop_char) == end_of_run(bytes@, index as int, stop_char),
        decreases bytes@.len() - index,
    {
        index = index + 1;
    }
    index
}

/// Whether `b` is an ASCII decimal digit.
pub open spec fn is_digit(b: u8) -> bool {
    48 <= b <= 57
}

/// Every byte of `s` is an ASCII decimal digit.
pub open spec fn all_digits(s: Seq<u8>) -> bool {
    forall|i: int| 0 <= i < s.len() ==> is_digit(#[trigger] s[i])
}

/// The number that the decimal digits `s` spell.
pub open spec fn digits_value(s: Seq<u8>) -> nat
    decreases s.len(),
{
    if s.len() == 0 {
        0
    } else {
        digits_value(s.drop_last()) * 10 + (s.last() - 48) as nat
    }
}

/// `s` without its leading `+`, if it has one.
pub open spec fn unsigned_digits(s: Seq<u8>) -> Seq<u8> {
    if s.len() > 0 && s[0] == 43u8 {
        s.drop_first()
    } else {
        s
    }
}

/// What `str::parse` gives for an unsigned integer type whose largest value
/// is `max`: an optional leading `+`, then one or more decimal digits whose
/// value is at most `max`; anything else is an error.
pub open spec fn parse_unsigned(s: Seq<u8>, max: nat) -> Option<nat> {
    let digits = unsigned_digits(s);
    if digits.len() > 0 && all_digits(digits) && digits_value(digits) <= max {
        Some(digits_value(digits))
    } else {
        None
    }
}

/// A prefix of a string of digits spells no larger a number than the whole.
proof fn lemma_digits_value_prefix(s: Seq<u8>, j: int)
    requires
        all_digits(s),
        0 <= j <= s.len(),
    ensures
        digits_value(s.take(j)) <= digits_value(s),
    decreases s.len(),
{
    if j < s.len() {
        let p = s.drop_last();
        assert(all_digits(p)) by {
            assert forall|i: int| 0 <= i < p.len() implies is_digit(#[trigger] p[i]) by {
                assert(p[i] == s[i]);
            }
        }
        lemma_digits_value_prefix(p, j);
        assert(p.take(j) =~= s.take(j));
    } else {
        assert(s.take(j) =~= s);
    }
}

/// Parses `s` as an unsigned decimal number no larger than `max`, as
/// `str::parse` does for an unsigned integer type whose largest value is `max`.
pub fn parse_decimal(s: &[u8], max: u64) -> (r: Option<u64>)
    ensures
        r matches Some(v) ==> parse_unsigned(s@, max as nat) == Some(v as nat),
        r is None ==> parse_unsigned(s@, max as nat) is None,
{
    let len = s.len();
    let start: usize = if len > 0 && s[0] == 43 {
        1
    } else {
        0
    };
    let ghost digits = unsigned_digits(s@);
    assert(digits =~= s@.subrange(start as int, len as int));
    if start == len {
        return None;
    }
    let mut value: u64 = 0;
    let mut i = start;
    while i < len
        invariant
            start <= i <= len,
            len == s@.len(),
            digits == s@.subrange(start as int, len as int),
            digits == unsigned_digits(s@),
            all_digits(digits.take(i - start)),
            value == digits_value(digits.take(i - start)),
            value <= max,
        decreases len - i,
    {
        let b = s[i];
        let ghost k = i - start;
        assert(digits[k] == b);
        if b < 48 || b > 57 {
            assert(!is_digit(digits[k]));
            assert(!all_digits(digits));
            return None;
        }
        assert(digits.take(k + 1).drop_last() =~= digits.take(k));
        assert(all_digits(digits.take(k + 1))) by {
            assert forall|m: int| 0 <= m < k + 1 implies is_digit(#[trigger] digits.take(k + 1)[m]) by {
                if m < k {
                    assert(digits.take(k + 1)[m] == digits.take(k)[m]);
                }
            }
        }
        let d = (b - 48) as u64;
        if d > max || value > (max - d) / 10 {
            proof {
                assert(digits_value(digits.take(k + 1)) == value * 10 + d);
                if d <= max {
                    assert(value * 10 + d > max) by (nonlinear_arith)
                        requires
                            value > (max - d) / 10,
                            d <= max,
                    ;
                }
                if all_digits(digits) {
                    lemma_digits_value_prefix(digits, k + 1);
                }
            }
            return None;
        }
        proof {
            assert(value * 10 + d <= max) by (nonlinear_arith)
                requires
                    value <= (max - d) / 10,
                    d <= max,
            ;
        }
        value = value * 10 + d;
        i = i + 1;
    }
    assert(digits.take(len - start) =~= digits);
    Some(value)
}

/// The length in bytes of the whitespace character (as `char::is_whitespace`
/// has it) that starts at `i` in the UTF-8 text `t` and ends by `end`, or 0
/// when none does.
pub open spec fn whitespace_len(t: Seq<u8>, i: int, end: int) -> int {
    if i < 0 || i >= end || end > t.len() {
        0
    } else if (9 <= t[i] <= 13) || t[i] == 32 {
        1
    } else if t[i] == 0xC2 && i + 1 < end && (t[i + 1] == 0x85 || t[i + 1] == 0xA0) {
        2
    } else if i + 2 < end && ((t[i] == 0xE1 && t[i + 1] == 0x9A && t[i + 2] == 0x80) || (t[i]
        == 0xE2 && t[i + 1] == 0x80 && ((0x80 <= t[i + 2] <= 0x8A) || t[i + 2] == 0xA8 || t[i + 2]
        == 0xA9 || t[i + 2] == 0xAF)) || (t[i] == 0xE2 && t[i + 1] == 0x81 && t[i + 2] == 0x9F)
        || (t[i] == 0xE3 && t[i + 1] == 0x80 && t[i + 2] == 0x80)) {
        3
    } else {
        0
    }
}

/// Where the text `t[start..end]` begins once its leading whitespace is
/// skipped, as `str::trim_start` does.
pub open spec fn trimmed_start(t: Seq<u8>, start: int, end: int) -> int
    decreases end - start,
{
    if start < end && whitespace_len(t, start, end) > 0 {
        trimmed_start(t, start + whitespace_len(t, start, end), end)
    } else {
        start
    }
}

/// The length of the whitespace character at `i` in `t[..end]`, or 0.
fn whitespace_at(t: &[u8], i: usize, end: usize) -> (n: usize)
    requires
        end <= t@.len(),
    ensures
        n == whitespace_len(t@, i as int, end as int),
{
    if i >= end {
        return 0;
    }
    let b = t[i];
    if (9 <= b && b <= 13) || b == 32 {
        return 1;
    }
    if b == 0xC2 && end - i > 1 && (t[i + 1] == 0x85 || t[i + 1] == 0xA0) {
        return 2;
    }
    if end - i > 2 {
        let b1 = t[i + 1];
        let b2 = t[i + 2];
        if (b == 0xE1 && b1 == 0x9A && b2 == 0x80) || (b == 0xE2 && b1 == 0x80 && ((0x80 <= b2
            && b2 <= 0x8A) || b2 == 0xA8 || b2 == 0xA9 || b2 == 0xAF)) || (b == 0xE2 && b1 == 0x81
            && b2 == 0x9F) || (b == 0xE3 && b1 == 0x80 && b2 == 0x80) {
            return 3;
        }
    }
    0
}

/// Where `t[start..end]` begins once its leading whitespace is skipped.
pub fn trim_start_from(t: &[u8], start: usize, end: usize) -> (r: usize)
    requires
        start <= end <= t@.len(),
    ensures
        r == trimmed_start(t@, start as int, end as int),
        start <= r <= end,
{
    let mut i = start;
    loop
        invariant
            start <= i <= end,
            end <= t@.len(),
            trimmed_start(t@, start as int, end as int) == trimmed_start(t@, i as int, end as int),
        decreases end - i,
    {
        let w = whitespace_at(t, i, end);
        if w == 0 || i >= end {
            return i;
        }
        assert(i + w <= end);
        i = i + w;
    }
}

/// The byte range of the line that starts at `start` in `t`, as `str::lines`
/// gives it: up to the next `\n` (which, with a `\r` just before it, it
/// leaves out) or the end of `t`. No line starts at the end of `t`.
pub open spec fn line_at(t: Seq<u8>, start: int) -> Option<(int, int)> {
    if start < 0 || start >= t.len() {
        None
    } else {
        let e = end_of_run(t, start, 10);
        if e < t.len() && e > start && t[e - 1] == 13 {
            Some((start, e - 1))
        } else {
            Some((start, e))
        }
    }
}

/// The byte range of the `n`-th line (from 0) of `t[start..]`, as
/// `str::lines().nth(n)` gives it.
pub open spec fn nth_line(t: Seq<u8>, start: int, n: nat) -> Option<(int, int)>
    decreases t.len() - start, n,
{
    if start < 0 || start >= t.len() {
        None
    } else if n == 0 {
        line_at(t, start)
    } else {
        let e = end_of_run(t, start, 10);
        if e >= t.len() || e < start {
            None
        } else {
            nth_line(t, e + 1, (n - 1) as nat)
        }
    }
}

/// The byte range of the `n`-th line (from 0) of `t[start..]`.
pub fn find_nth_line(t: &[u8], start: usize, n: usize) -> (r: Option<(usize, usize)>)
    ensures
        r matches Some(range) ==> nth_line(t@, start as int, n as nat) == Some(
            (range.0 as int, range.1 as int),
        ) && range.0 <= range.1 <= t@.len(),
        r is None ==> nth_line(t@, start as int, n as nat) is None,
{
    let len = t.len();
    let mut pos = start;
    let mut k = n;
    loop
        invariant
            len == t@.len(),
            nth_line(t@, start as int, n as nat) == nth_line(t@, pos as int, k as nat),
        decreases len - pos, k,
    {
        if pos >= len {
            return None;
        }
        proof {
            lemma_end_of_run(t@, pos as int, 10);
            lemma_end_of_run_suffix(t@, pos as int, 10);
        }
        let rest = &t[pos..len];
        let e = pos + advance_until(rest, 10);
        if k == 0 {
            if e < len && e > pos && t[e - 1] == 13 {
                return Some((pos, e - 1));
            }
            return Some((pos, e));
        }
        if e >= len {
            return None;
        }
        pos = e + 1;
        k = k - 1;
    }
}

/// Reading a run from `start` in `bytes` is reading it from 0 in the rest of
/// `bytes`.
pub proof fn lemma_end_of_run_suffix(bytes: Seq<u8>, start: int, stop: u8)
    requires
        0 <= start <= bytes.len(),
    ensures
        end_of_run(bytes.subrange(start, bytes.len() as int), 0, stop) == end_of_run(
            bytes,
            start,
            stop,
        ) - start,
{
    let rest = bytes.subrange(start, bytes.len() as int);
    lemma_end_of_run(bytes, start, stop);
    lemma_end_of_run(rest, 0, stop);
    let e1 = end_of_run(rest, 0, stop);
    let e2 = end_of_run(bytes, start, stop) - start;
    if e1 < e2 {
        assert(rest[e1] == bytes[start + e1]);
    } else if e2 < e1 {
        assert(rest[e2] == bytes[start + e2]);
    }
}

/// Index `i` of the UTF-8 text `t` is at the start of a character or at its
/// end, as `str::is_char_boundary` has it (the start and the end of a text
/// are boundaries): slicing a `str` there does not panic.
pub open spec fn at_char_boundary(t: Seq<u8>, i: int) -> bool {
    i == 0 || i == t.len() || (0 < i < t.len() && !(0x80 <= t[i] <= 0xBF))
}

/// Whether index `i` of `t` is at the start of a character or at its end.
pub fn is_char_boundary_at(t: &[u8], i: usize) -> (b: bool)
    ensures
        b == at_char_boundary(t@, i as int),
{
    let len = t.len();
    if i == 0 || i == len {
        true
    } else if i < len {
        !(0x80 <= t[i] && t[i] <= 0xBF)
    } else {
        false
    }
}

} // verus!
