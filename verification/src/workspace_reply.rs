//! The shape of Hyprland's `/workspaces` reply, entry by entry, and the law
//! that reading it gives back every entry's workspace and window count, in
//! order.

use vstd::prelude::*;
use vstd::string::*;

use crate::hyprland::{field_step, parse_u8_spec, windows_field, workspace_def, workspaces_from, Workspace};
use crate::text::{all_digits, digits_value, end_of_run, first_match_from, is_digit, matches_at, parse_unsigned, unsigned_digits};

verus! {

/// The decimal digits of `v`, as `to_string` writes a number: no sign, no
/// leading zero.
pub open spec fn decimal(v: nat) -> Seq<u8>
    decreases v,
{
    if v < 10 {
        seq![(48 + v) as u8]
    } else {
        decimal(v / 10).push((48 + v % 10) as u8)
    }
}

/// An entry of the reply as `(id, mid, num_windows, rest)`: `workspace ID `,
/// the id in decimal, a space, `mid` (the rest of the header line and the
/// fields before the window count), `windows: `, the window count in
/// decimal, a line end, and `rest` (the fields after it).
pub open spec fn workspace_entry(e: (u8, Seq<u8>, u8, Seq<u8>)) -> Seq<u8> {
    workspace_def() + decimal(e.0 as nat) + seq![32u8] + e.1 + windows_field() + decimal(e.2 as nat)
        + seq![10u8] + e.3
}

/// The reply made of `entries`, one after the other.
pub open spec fn reply_text(entries: Seq<(u8, Seq<u8>, u8, Seq<u8>)>) -> Seq<u8>
    decreases entries.len(),
{
    if entries.len() == 0 {
        Seq::empty()
    } else {
        workspace_entry(entries[0]) + reply_text(entries.drop_first())
    }
}

/// `pat` occurs somewhere in `s`.
pub open spec fn occurs_in(s: Seq<u8>, pat: Seq<u8>) -> bool {
    exists|i: int| matches_at(s, pat, i)
}

/// The fields of an entry do not themselves name a window count before the
/// real one, nor open another entry after it.
pub open spec fn plain_entry(e: (u8, Seq<u8>, u8, Seq<u8>)) -> bool {
    &&& !occurs_in(seq![32u8] + e.1, windows_field())
    &&& !occurs_in(seq![10u8] + e.3, workspace_def())
}

/// The workspace and window count of each entry, in order.
pub open spec fn entry_workspaces(entries: Seq<(u8, Seq<u8>, u8, Seq<u8>)>) -> Seq<Workspace> {
    entries.map_values(|e: (u8, Seq<u8>, u8, Seq<u8>)| Workspace { id: e.0, num_windows: e.2 })
}

/// No proper suffix of `pat` is also a prefix of it, so two occurrences of
/// `pat` never overlap.
pub open spec fn borderless(pat: Seq<u8>) -> bool {
    forall|d: int| 0 < d < pat.len() ==> #[trigger] pat.subrange(d, pat.len() as int) != pat.subrange(
        0,
        pat.len() - d,
    )
}

/// `decimal(v)` is a non-empty run of digits that spells `v`.
proof fn lemma_decimal(v: nat)
    ensures
        decimal(v).len() >= 1,
        all_digits(decimal(v)),
        digits_value(decimal(v)) == v,
    decreases v,
{
    let d = decimal(v);
    if v < 10 {
        assert(d.drop_last() =~= Seq::<u8>::empty());
        assert(d.last() == 48 + v);
        assert(digits_value(d.drop_last()) == 0);
        assert(digits_value(d) == digits_value(d.drop_last()) * 10 + (d.last() - 48) as nat);
    } else {
        lemma_decimal(v / 10);
        assert(d.drop_last() =~= decimal(v / 10));
        assert(all_digits(d)) by {
            assert forall|i: int| 0 <= i < d.len() implies is_digit(#[trigger] d[i]) by {
                if i < d.len() - 1 {
                    assert(d[i] == decimal(v / 10)[i]);
                }
            }
        }
        assert(d.last() == 48 + v % 10);
        assert(digits_value(d) == digits_value(d.drop_last()) * 10 + (d.last() - 48) as nat);
        assert(digits_value(d) == (v / 10) * 10 + v % 10);
        assert((v / 10) * 10 + v % 10 == v);
    }
}

/// `str::parse::<u8>` reads `decimal(v)` back as `v`.
proof fn lemma_parse_decimal(v: u8)
    ensures
        parse_u8_spec(decimal(v as nat)) == Some(v),
{
    lemma_decimal(v as nat);
    let d = decimal(v as nat);
    assert(is_digit(d[0]));
    assert(unsigned_digits(d) == d);
    assert(parse_unsigned(d, 255) == Some(v as nat));
}

/// The bytes of the two field names.
proof fn lemma_field_bytes()
    ensures
        workspace_def() == seq![119u8, 111, 114, 107, 115, 112, 97, 99, 101, 32, 73, 68, 32],
        windows_field() == seq![119u8, 105, 110, 100, 111, 119, 115, 58, 32],
{
    broadcast use is_ascii_spec_bytes;

    reveal_strlit("workspace ID ");
    reveal_strlit("windows: ");
    assert(is_ascii("workspace ID "));
    assert(is_ascii("windows: "));
    assert(workspace_def() =~= seq![119u8, 111, 114, 107, 115, 112, 97, 99, 101, 32, 73, 68, 32]);
    assert(windows_field() =~= seq![119u8, 105, 110, 100, 111, 119, 115, 58, 32]);
}

/// Neither field name overlaps itself.
proof fn lemma_fields_borderless()
    ensures
        borderless(workspace_def()),
        borderless(windows_field()),
{
    lemma_field_bytes();
    let a = workspace_def();
    assert forall|d: int| 0 < d < a.len() implies #[trigger] a.subrange(d, a.len() as int) != a.subrange(
        0,
        a.len() - d,
    ) by {
        assert(a.subrange(d, a.len() as int)[0] == a[d]);
        assert(a.subrange(0, a.len() - d)[0] == a[0]);
    }
    let b = windows_field();
    assert forall|d: int| 0 < d < b.len() implies #[trigger] b.subrange(d, b.len() as int) != b.subrange(
        0,
        b.len() - d,
    ) by {
        if d == 5 {
            assert(b.subrange(d, b.len() as int)[1] == b[6]);
            assert(b.subrange(0, b.len() - d)[1] == b[1]);
        } else {
            assert(b.subrange(d, b.len() as int)[0] == b[d]);
            assert(b.subrange(0, b.len() - d)[0] == b[0]);
        }
    }
}

/// The search for `pat` from `c` finds `p` when `pat` occurs at `p` and not
/// between `c` and `p`.
proof fn lemma_first_match_is(t: Seq<u8>, pat: Seq<u8>, c: int, p: int)
    requires
        0 <= c <= p,
        matches_at(t, pat, p),
        forall|q: int| c <= q < p ==> !matches_at(t, pat, q),
    ensures
        first_match_from(t, pat, c) == Some(p),
    decreases p - c,
{
    if c < p {
        lemma_first_match_is(t, pat, c + 1, p);
    }
}

/// Searching from `c` or from `d` finds the same when `pat` does not occur
/// between them.
proof fn lemma_first_match_skip(t: Seq<u8>, pat: Seq<u8>, c: int, d: int)
    requires
        0 <= c <= d,
        pat.len() > 0,
        forall|q: int| c <= q < d ==> !matches_at(t, pat, q),
    ensures
        first_match_from(t, pat, c) == first_match_from(t, pat, d),
    decreases d - c,
{
    if c < d && c + pat.len() <= t.len() {
        lemma_first_match_skip(t, pat, c + 1, d);
    }
}

/// A borderless `pat` that does not occur in `t[c..p]` occurs nowhere from
/// `c` before `p`, when `p` is the end of `t` or `pat` occurs at `p`.
proof fn lemma_no_match_before(t: Seq<u8>, pat: Seq<u8>, c: int, p: int)
    requires
        0 <= c <= p <= t.len(),
        pat.len() > 0,
        borderless(pat),
        !occurs_in(t.subrange(c, p), pat),
        p == t.len() || matches_at(t, pat, p),
    ensures
        forall|q: int| c <= q < p ==> !matches_at(t, pat, q),
{
    let n = pat.len() as int;
    assert forall|q: int| c <= q < p implies !matches_at(t, pat, q) by {
        if matches_at(t, pat, q) {
            if q + n <= p {
                let r = t.subrange(c, p);
                assert(r.subrange(q - c, q - c + n) =~= t.subrange(q, q + n));
                assert(matches_at(r, pat, q - c));
            } else {
                let d = p - q;
                assert(p < t.len());
                assert(pat.subrange(d, n) =~= t.subrange(p, q + n)) by {
                    assert forall|k: int| 0 <= k < n - d implies #[trigger] pat.subrange(d, n)[k] == t.subrange(p, q + n)[k] by {
                        assert(t.subrange(q, q + n)[d + k] == t[q + d + k]);
                    }
                }
                assert(pat.subrange(0, n - d) =~= t.subrange(p, q + n)) by {
                    assert forall|k: int| 0 <= k < n - d implies #[trigger] pat.subrange(0, n - d)[k] == t.subrange(p, q + n)[k] by {
                        assert(t.subrange(p, p + n)[k] == t[p + k]);
                    }
                }
                assert(pat.subrange(d, n) != pat.subrange(0, n - d));
            }
        }
    }
}

/// A run of bytes without `stop`, followed by `stop`, ends at that `stop`.
proof fn lemma_run_ends(t: Seq<u8>, s: int, e: int, stop: u8)
    requires
        0 <= s <= e < t.len(),
        t[e] == stop,
        forall|k: int| s <= k < e ==> t[k] != stop,
    ensures
        end_of_run(t, s, stop) == e,
    decreases e - s,
{
    if s < e {
        lemma_run_ends(t, s + 1, e, stop);
    }
}

#[verifier::spinoff_prover]
#[verifier::rlimit(100)]
/// Reading from the start of an entry that `prefix` precedes: the entry's
/// workspace, then whatever reading from the end of the entry gives.
proof fn lemma_read_entry(prefix: Seq<u8>, e: (u8, Seq<u8>, u8, Seq<u8>), after: Seq<u8>)
    requires
        plain_entry(e),
        after.len() == 0 || after.subrange(0, 13) == workspace_def(),
        after.len() == 0 || after.len() >= 13,
    ensures
        workspaces_from(prefix + workspace_entry(e) + after, prefix.len() as int) == seq![
            Workspace { id: e.0, num_windows: e.2 },
        ] + workspaces_from(
            prefix + workspace_entry(e) + after,
            (prefix + workspace_entry(e)).len() as int,
        ),
{
    lemma_field_bytes();
    lemma_fields_borderless();
    lemma_decimal(e.0 as nat);
    lemma_decimal(e.2 as nat);
    lemma_parse_decimal(e.0);
    lemma_parse_decimal(e.2);
    let wd = workspace_def();
    let wf = windows_field();
    let di = decimal(e.0 as nat);
    let dn = decimal(e.2 as nat);
    let t = prefix + workspace_entry(e) + after;
    let a = prefix.len() as int;
    let b = a + 13;
    let c1 = b + di.len();
    let p = c1 + 1 + e.1.len();
    let s2 = p + 9;
    let c2 = s2 + dn.len();
    let end = c2 + 1 + e.3.len();
    assert(t =~= prefix + wd + di + seq![32u8] + e.1 + wf + dn + seq![10u8] + e.3 + after);
    assert((prefix + workspace_entry(e)).len() == end);
    assert(t.len() == end + after.len());
    // The entry opens at `a`.
    assert(t.subrange(a, a + 13) =~= wd);
    lemma_first_match_is(t, wd, a, a);
    // The id runs from `b` to the space at `c1`.
    assert(t.subrange(b, c1) =~= di);
    assert(t[c1] == 32u8);
    assert forall|k: int| b <= k < c1 implies t[k] != 32u8 by {
        assert(t[k] == di[k - b]);
        assert(is_digit(di[k - b]));
    }
    lemma_run_ends(t, b, c1, 32u8);
    assert(field_step(t, a, 32, wd) == Some((Some(e.0), c1)));
    // The window count field opens at `p`, and nowhere from `c1` before it.
    assert(t.subrange(p, p + 9) =~= wf);
    assert(t.subrange(c1, p) =~= seq![32u8] + e.1);
    lemma_no_match_before(t, wf, c1, p);
    lemma_first_match_is(t, wf, c1, p);
    // The count runs from `s2` to the line end at `c2`.
    assert(t.subrange(s2, c2) =~= dn);
    assert(t[c2] == 10u8);
    assert forall|k: int| s2 <= k < c2 implies t[k] != 10u8 by {
        assert(t[k] == dn[k - s2]);
        assert(is_digit(dn[k - s2]));
    }
    lemma_run_ends(t, s2, c2, 10u8);
    assert(field_step(t, c1, 10, wf) == Some((Some(e.2), c2)));
    // From the line end on, the next entry opens at `end` at the earliest.
    assert(t.subrange(c2, end) =~= seq![10u8] + e.3);
    if after.len() > 0 {
        assert(t.subrange(end, end + 13) =~= after.subrange(0, 13));
    }
    lemma_no_match_before(t, wd, c2, end);
    lemma_first_match_skip(t, wd, c2, end);
    lemma_skip_to(t, c2, end);
}

/// Reading from `c` and from `d` gives the same when no entry opens from `c`
/// before `d`.
proof fn lemma_skip_to(t: Seq<u8>, c: int, d: int)
    requires
        0 <= c <= d <= t.len(),
        first_match_from(t, workspace_def(), c) == first_match_from(t, workspace_def(), d),
    ensures
        workspaces_from(t, c) == workspaces_from(t, d),
{
    lemma_field_bytes();
    match first_match_from(t, workspace_def(), d) {
        Some(i) => {
            crate::text::lemma_first_match_from(t, workspace_def(), d);
            crate::text::lemma_end_of_run(t, i + 13, 32);
        },
        None => {},
    }
}

/// Reading from the start of the entries that `prefix` precedes gives their
/// workspaces, in order.
proof fn lemma_read_entries(prefix: Seq<u8>, entries: Seq<(u8, Seq<u8>, u8, Seq<u8>)>)
    requires
        forall|k: int| 0 <= k < entries.len() ==> plain_entry(#[trigger] entries[k]),
    ensures
        workspaces_from(prefix + reply_text(entries), prefix.len() as int) == entry_workspaces(entries),
    decreases entries.len(),
{
    lemma_field_bytes();
    if entries.len() == 0 {
        assert(prefix + reply_text(entries) =~= prefix);
        assert(entry_workspaces(entries) =~= Seq::<Workspace>::empty());
    } else {
        let e = entries[0];
        let rest = entries.drop_first();
        let after = reply_text(rest);
        assert forall|k: int| 0 <= k < rest.len() implies plain_entry(#[trigger] rest[k]) by {
            assert(rest[k] == entries[k + 1]);
        }
        if rest.len() > 0 {
            assert(after =~= workspace_entry(rest[0]) + reply_text(rest.drop_first()));
            assert(after.subrange(0, 13) =~= workspace_def());
        }
        assert(prefix + reply_text(entries) =~= prefix + workspace_entry(e) + after);
        lemma_read_entry(prefix, e, after);
        lemma_read_entries(prefix + workspace_entry(e), rest);
        assert(prefix + workspace_entry(e) + after =~= (prefix + workspace_entry(e)) + after);
        assert(entry_workspaces(entries) =~= seq![Workspace { id: e.0, num_windows: e.2 }]
            + entry_workspaces(rest));
    }
}

/// Reading a `/workspaces` reply gives every entry's workspace and window
/// count, in the order of the reply, whatever the ids and counts: the list
/// does not end before the last entry, and no entry is dropped or changed.
pub proof fn law_reply_entries_read(entries: Seq<(u8, Seq<u8>, u8, Seq<u8>)>)
    requires
        forall|k: int| 0 <= k < entries.len() ==> plain_entry(#[trigger] entries[k]),
    ensures
        workspaces_from(reply_text(entries), 0) == entry_workspaces(entries),
{
    lemma_read_entries(Seq::empty(), entries);
    assert(Seq::<u8>::empty() + reply_text(entries) =~= reply_text(entries));
}

} // verus!
