//! System figures read from `/proc`: memory from `/proc/meminfo`, processor
//! times from the first line of `/proc/stat`.

use vstd::prelude::*;
use vstd::string::*;

use crate::text::{
    at_char_boundary, is_char_boundary_at, end_of_run, find_from, first_match_from, lemma_end_of_run, lemma_first_match_from,
    parse_decimal, parse_unsigned,
};

verus! {

/// Total and available memory, in kB.
#[derive(Clone, Copy, Default, PartialEq, Eq, Structural, Debug)]
pub struct RamUsage {
    pub total: u64,
    pub available: u64,
}

/// The source of memory figures that the system monitor polls.
pub struct RamListener;

impl RamUsage {
    /// The memory in use: total less available.
    pub fn used(&self) -> (u: u64)
        requires
            self.available <= self.total,
        ensures
            u == self.total - self.available,
    {
        self.total - self.available
    }
}

/// The first index at or after `start` whose byte is not `b`, or the length of
/// `t`.
pub open spec fn skip_run(t: Seq<u8>, start: int, b: u8) -> int
    decreases t.len() - start,
{
    if start < 0 || start >= t.len() || t[start] != b {
        start
    } else {
        skip_run(t, start + 1, b)
    }
}

/// The first index at or after `start` whose byte is not a decimal digit, or
/// the length of `t`.
pub open spec fn digits_end(t: Seq<u8>, start: int) -> int
    decreases t.len() - start,
{
    if start < 0 || start >= t.len() || !(48 <= t[start] <= 57) {
        start
    } else {
        digits_end(t, start + 1)
    }
}

/// Where the number after the first `field` of `text` starts to be read: one
/// byte (the `:`) past the field name.
pub open spec fn value_start(text: Seq<u8>, field: Seq<u8>) -> Option<int> {
    match first_match_from(text, field, 0) {
        None => None,
        Some(i) => Some(i + field.len() + 1),
    }
}

/// `find_value` reads within `text`: the field, if it occurs, is followed by
/// at least one byte, and the byte after that starts a character (or is the
/// end of `text`).
pub open spec fn value_in_text(text: Seq<u8>, field: Seq<u8>) -> bool {
    value_start(text, field) matches Some(s) ==> at_char_boundary(text, s)
}

/// The value of the first `field` of a `/proc/meminfo` text: after the field
/// name and one more byte, the spaces are skipped and the digits that follow
/// are read as a `u64`. `None` when the field does not occur or no number
/// follows it.
pub open spec fn field_value(text: Seq<u8>, field: Seq<u8>) -> Option<u64> {
    match value_start(text, field) {
        None => None,
        Some(s0) => {
            let s = skip_run(text, s0, 32);
            match parse_unsigned(text.subrange(s, digits_end(text, s)), u64::MAX as nat) {
                Some(v) => Some(v as u64),
                None => None,
            }
        },
    }
}

/// The value of the first `field` of the `/proc/meminfo` text `text`.
pub fn find_value(text: &str, field: &'static str) -> (r: Option<u64>)
    requires
        value_in_text(text.spec_bytes(), field.spec_bytes()),
    ensures
        r == field_value(text.spec_bytes(), field.spec_bytes()),
{
    let bytes = text.as_bytes();
    let len = bytes.len();
    let field_bytes = field.as_bytes();
    let index = match find_from(bytes, field_bytes, 0) {
        Some(i) => i,
        None => return None,
    };
    proof {
        lemma_first_match_from(bytes@, field_bytes@, 0);
    }
    let start0 = index + field_bytes.len() + 1;
    let mut num_start = start0;
    while num_start < len && bytes[num_start] == 32
        invariant
            len == bytes@.len(),
            start0 <= num_start <= len,
            skip_run(bytes@, start0 as int, 32) == skip_run(bytes@, num_start as int, 32),
        decreases len - num_start,
    {
        num_start = num_start + 1;
    }
    let mut num_end = num_start;
    while num_end < len && 48 <= bytes[num_end] && bytes[num_end] <= 57
        invariant
            len == bytes@.len(),
            num_start <= num_end <= len,
            digits_end(bytes@, num_start as int) == digits_end(bytes@, num_end as int),
        decreases len - num_end,
    {
        num_end = num_end + 1;
    }
    parse_decimal(&bytes[num_start..num_end], u64::MAX)
}

/// Whether `find_value` can read `field` in `text`: the field does not occur,
/// or it is followed by at least one byte and then the start of a character
/// or the end of `text`.
pub fn value_fits(text: &str, field: &'static str) -> (ok: bool)
    ensures
        ok == value_in_text(text.spec_bytes(), field.spec_bytes()),
{
    let bytes = text.as_bytes();
    let field_bytes = field.as_bytes();
    match find_from(bytes, field_bytes, 0) {
        Some(i) => {
            proof {
                lemma_first_match_from(bytes@, field_bytes@, 0);
            }
            if field_bytes.len() < bytes.len() - i {
                is_char_boundary_at(bytes, i + field_bytes.len() + 1)
            } else {
                false
            }
        },
        None => true,
    }
}

/// The memory figures of a `/proc/meminfo` text; a figure that is missing
/// reads as 0.
pub fn meminfo_usage(text: &str) -> (u: RamUsage)
    requires
        value_in_text(text.spec_bytes(), "MemTotal".spec_bytes()),
        value_in_text(text.spec_bytes(), "MemAvailable".spec_bytes()),
    ensures
        u.total == (match field_value(text.spec_bytes(), "MemTotal".spec_bytes()) {
            Some(v) => v,
            None => 0,
        }),
        u.available == (match field_value(text.spec_bytes(), "MemAvailable".spec_bytes()) {
            Some(v) => v,
            None => 0,
        }),
{
    let total = match find_value(text, "MemTotal") {
        Some(v) => v,
        None => 0,
    };
    let available = match find_value(text, "MemAvailable") {
        Some(v) => v,
        None => 0,
    };
    RamUsage { total, available }
}

/// `str::parse::<u64>` of the entry, 0 when it is missing or does not parse.
pub open spec fn entry_value(entry: Option<Seq<u8>>) -> u64 {
    match entry {
        Some(s) => match parse_unsigned(s, u64::MAX as nat) {
            Some(v) => v as u64,
            None => 0,
        },
        None => 0,
    }
}

/// Reads an entry of the `/proc/stat` processor line as a `u64`; 0 when it is
/// missing or does not parse.
pub fn parse_num(slice: Option<&str>) -> (n: u64)
    ensures
        n == entry_value(
            match slice {
                Some(s) => Some(s.spec_bytes()),
                None => None,
            },
        ),
{
    match slice {
        Some(s) => match parse_decimal(s.as_bytes(), u64::MAX) {
            Some(v) => v,
            None => 0,
        },
        None => 0,
    }
}

/// Processor time spent working and in all, in clock ticks.
#[derive(Clone, Copy, Default, PartialEq, Eq, Structural, Debug)]
pub struct CpuTime {
    pub work_time: u64,
    pub total_time: u64,
}

/// The byte range of the first word (a run of bytes other than space) at or
/// after `pos` in `t`, as `split(" ")` without the empty pieces gives it.
pub open spec fn word_at(t: Seq<u8>, pos: int) -> Option<(int, int)> {
    let s = skip_run(t, pos, 32);
    if s < 0 || s >= t.len() {
        None
    } else {
        Some((s, end_of_run(t, s, 32)))
    }
}

/// The values of the next `k` words of `t` from `pos`, each read as by
/// `parse_num`; missing words read as 0.
pub open spec fn word_values(t: Seq<u8>, pos: int, k: nat) -> Seq<u64>
    decreases k,
{
    if k == 0 {
        Seq::empty()
    } else {
        match word_at(t, pos) {
            None => seq![0u64] + word_values(t, pos, (k - 1) as nat),
            Some(w) => seq![entry_value(Some(t.subrange(w.0, w.1)))] + word_values(
                t,
                w.1,
                (k - 1) as nat,
            ),
        }
    }
}

/// The first word at or after `pos` in `t`, as a byte range.
fn next_word(t: &[u8], pos: usize) -> (r: Option<(usize, usize)>)
    requires
        pos <= t@.len(),
    ensures
        r matches Some(w) ==> word_at(t@, pos as int) == Some((w.0 as int, w.1 as int)) && pos
            <= w.0 < w.1 <= t@.len(),
        r is None ==> word_at(t@, pos as int) is None,
{
    let len = t.len();
    let mut s = pos;
    while s < len && t[s] == 32
        invariant
            len == t@.len(),
            pos <= s <= len,
            skip_run(t@, pos as int, 32) == skip_run(t@, s as int, 32),
        decreases len - s,
    {
        s = s + 1;
    }
    if s >= len {
        return None;
    }
    let mut e = s;
    while e < len && t[e] != 32
        invariant
            len == t@.len(),
            s <= e <= len,
            end_of_run(t@, s as int, 32) == end_of_run(t@, e as int, 32),
        decreases len - e,
    {
        e = e + 1;
    }
    Some((s, e))
}

/// `a + b`, or `u64::MAX` when that does not fit.
pub open spec fn capped(n: int) -> u64 {
    if n > u64::MAX {
        u64::MAX
    } else {
        n as u64
    }
}

/// `a - b`, or 0 when `b` is larger.
pub open spec fn floor_sub(a: u64, b: u64) -> u64 {
    if a >= b {
        (a - b) as u64
    } else {
        0
    }
}

/// The processor times of the ten entries of the processor line of
/// `/proc/stat` (user, nice, system, idle, iowait, irq, softirq, steal, guest,
/// guest_nice). Guest time is counted in user time and guest_nice time in
/// nice time, so they are taken out of those; work is user, nice, system, irq
/// and softirq; the total adds idle, iowait, guest, guest_nice and steal.
/// Sums that do not fit in a `u64` are `u64::MAX`.
pub open spec fn cpu_time_of(v: Seq<u64>) -> CpuTime {
    let work = floor_sub(v[0], v[8]) + floor_sub(v[1], v[9]) + v[2] + v[5] + v[6];
    CpuTime {
        work_time: capped(work),
        total_time: capped(work + v[3] + v[4] + v[8] + v[9] + v[7]),
    }
}

/// The processor times of the ten entries `v` of the processor line.
pub fn cpu_time(v: &[u64]) -> (c: CpuTime)
    requires
        v@.len() == 10,
    ensures
        c == cpu_time_of(v@),
{
    let user = v[0].saturating_sub(v[8]);
    let nice = v[1].saturating_sub(v[9]);
    let work_time = user.saturating_add(nice).saturating_add(v[2]).saturating_add(
        v[5],
    ).saturating_add(v[6]);
    let total_time = work_time.saturating_add(v[3]).saturating_add(v[4]).saturating_add(
        v[8],
    ).saturating_add(v[9]).saturating_add(v[7]);
    CpuTime { work_time, total_time }
}

/// The bytes that open the processor line of `/proc/stat`.
pub open spec fn cpu_line_prefix() -> Seq<u8> {
    "cpu  ".spec_bytes()
}

/// The processor times that the `/proc/stat` text `buf` gives: `None` unless
/// it begins with `cpu  ` and has a line end after that; otherwise the first
/// ten words after the prefix, up to and with the line end, are the entries.
pub open spec fn stat_cpu_time(buf: Seq<u8>) -> Option<CpuTime> {
    let p = cpu_line_prefix().len() as int;
    if buf.len() < p || buf.subrange(0, p) != cpu_line_prefix() {
        None
    } else {
        let rest = buf.subrange(p, buf.len() as int);
        let e = end_of_run(rest, 0, 10);
        if e >= rest.len() {
            None
        } else {
            Some(cpu_time_of(word_values(rest.subrange(0, e + 1), 0, 10)))
        }
    }
}

/// The processor times that the `/proc/stat` text `buf` gives.
pub fn cpu_time_from_stat(buf: &[u8]) -> (r: Option<CpuTime>)
    ensures
        r == stat_cpu_time(buf@),
{
    let prefix = "cpu  ".as_bytes();
    let p = prefix.len();
    let len = buf.len();
    if len < p {
        return None;
    }
    if !crate::text::bytes_equal(&buf[0..p], prefix) {
        return None;
    }
    let rest = &buf[p..len];
    let e = crate::text::advance_until(rest, 10);
    proof {
        lemma_end_of_run(rest@, 0, 10);
    }
    if e >= rest.len() {
        return None;
    }
    let line = &rest[0..e + 1];
    let mut values: Vec<u64> = Vec::new();
    let mut pos: usize = 0;
    let mut k: usize = 0;
    while k < 10
        invariant
            k <= 10,
            pos <= line@.len(),
            values@.len() == k,
            values@ + word_values(line@, pos as int, (10 - k) as nat) == word_values(line@, 0, 10),
        decreases 10 - k,
    {
        let ghost before = word_values(line@, pos as int, (10 - k) as nat);
        match next_word(line, pos) {
            Some(w) => {
                let v = parse_num_bytes(&line[w.0..w.1]);
                assert(before == seq![v] + word_values(line@, w.1 as int, (10 - k - 1) as nat));
                assert(values@.push(v) + word_values(line@, w.1 as int, (10 - k - 1) as nat)
                    =~= values@ + before);
                values.push(v);
                pos = w.1;
            },
            None => {
                assert(before == seq![0u64] + word_values(line@, pos as int, (10 - k - 1) as nat));
                assert(values@.push(0) + word_values(line@, pos as int, (10 - k - 1) as nat)
                    =~= values@ + before);
                values.push(0);
            },
        }
        k = k + 1;
    }
    assert(values@ =~= word_values(line@, 0, 10));
    Some(cpu_time(values.as_slice()))
}

/// `parse_num` of a word given as bytes.
fn parse_num_bytes(s: &[u8]) -> (n: u64)
    ensures
        n == entry_value(Some(s@)),
{
    match parse_decimal(s, u64::MAX) {
        Some(v) => v,
        None => 0,
    }
}

/// The work and total processor time between two readings; the total is at
/// least 1, so that the share of work time can be taken.
pub fn cpu_time_delta(old: CpuTime, new: CpuTime) -> (r: (u64, u64))
    ensures
        r.0 == floor_sub(new.work_time, old.work_time),
        r.1 == (if floor_sub(new.total_time, old.total_time) == 0 {
            1
        } else {
            floor_sub(new.total_time, old.total_time)
        }),
{
    let work = new.work_time.saturating_sub(old.work_time);
    let total = new.total_time.saturating_sub(old.total_time);
    (work, if total == 0 { 1 } else { total })
}

} // verus!
