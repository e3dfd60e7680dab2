//! `osc.*.osc_stats` and `mdc.*.mdc_stats` (`osc_stats_seq_show()`). 2.12 to
//! 2.14.52 print a third line, `lockless_truncate` (LU-14838).

use crate::text::{
    char_at, digits, is_char_at, lit_at, match_lit, skip_ws, spec_digits,
    ws,
};
use crate::time::{spec_time_triple, time_triple};
use crate::types::{LocklessStats, StatsHeader, StatsHeaderView};
use vstd::prelude::*;

verus! {

/// `<name><whitespace><digits>\n`.
pub open spec fn spec_counter(s: Seq<char>, i: int, name: Seq<char>) -> Option<(u64, int)> {
    if !lit_at(s, i, name) {
        None
    } else {
        match spec_digits(s, ws(s, i + name.len())) {
            Some((v, j)) if char_at(s, j, '\n') => Some((v, j + 1)),
            _ => None,
        }
    }
}

pub fn counter(s: &[char], i: usize, name: &str) -> (r: Option<(u64, usize)>)
    requires
        i <= s@.len(),
    ensures
        match r {
            Some((v, j)) => spec_counter(s@, i as int, name@) == Some((v, j as int)),
            None => spec_counter(s@, i as int, name@) is None,
        },
        r matches Some((_, j)) ==> i < j <= s.len(),
{
    let a = match match_lit(s, i, name) {
        Some(a) => a,
        None => return None,
    };
    let b = skip_ws(s, a);
    match digits(s, b) {
        Some((v, j)) if is_char_at(s, j, '\n') => Some((v, j + 1)),
        _ => None,
    }
}

/// An optional `\n`, then the stats header.
pub open spec fn spec_header(s: Seq<char>, i: int) -> Option<(StatsHeaderView, int)> {
    spec_time_triple(s, if char_at(s, i, '\n') { i + 1 } else { i })
}

pub fn header(s: &[char], i: usize) -> (r: Option<(StatsHeader, usize)>)
    requires
        i <= s@.len(),
    ensures
        match r {
            Some((h, j)) => spec_header(s@, i as int) == Some((h.deep_view(), j as int)),
            None => spec_header(s@, i as int) is None,
        },
        r matches Some((_, j)) ==> i < j <= s.len(),
{
    let a = if is_char_at(s, i, '\n') { i + 1 } else { i };
    time_triple(s, a)
}

/// The header, `lockless_write_bytes`, `lockless_read_bytes` and, when it
/// is there, `lockless_truncate`.
pub open spec fn spec_lockless_stats(s: Seq<char>, i: int) -> Option<((StatsHeaderView, LocklessStats), int)> {
    match spec_header(s, i) {
        None => None,
        Some((h, a)) => match spec_counter(s, a, "lockless_write_bytes"@) {
            None => None,
            Some((write_bytes, b)) => match spec_counter(s, b, "lockless_read_bytes"@) {
                None => None,
                Some((read_bytes, c)) => match spec_counter(s, c, "lockless_truncate"@) {
                    Some((t, d)) => Some((
                        (h, LocklessStats { write_bytes, read_bytes, truncates: Some(t) }),
                        d,
                    )),
                    None => Some(
                        ((h, LocklessStats { write_bytes, read_bytes, truncates: None }), c),
                    ),
                },
            },
        },
    }
}

/// Each lockless counter is the number on the line that names it: the write
/// bytes come from the `lockless_write_bytes` line, the read bytes from the
/// `lockless_read_bytes` line that follows it and the truncates, when
/// present, from the `lockless_truncate` line after that.
pub proof fn lockless_counters_come_from_their_lines(s: Seq<char>, i: int)
    ensures
        spec_lockless_stats(s, i) matches Some(((_, ls), _)) ==> {
            &&& spec_header(s, i) matches Some((_, a))
            &&& spec_counter(s, a, "lockless_write_bytes"@) matches Some((w, b))
            &&& w == ls.write_bytes
            &&& spec_counter(s, b, "lockless_read_bytes"@) matches Some((r, c))
            &&& r == ls.read_bytes
            &&& ls.truncates == match spec_counter(s, c, "lockless_truncate"@) {
                Some((t, _)) => Some(t),
                None => None,
            }
        },
{
}

pub fn lockless_stats(s: &[char], i: usize) -> (r: Option<((StatsHeader, LocklessStats), usize)>)
    requires
        i <= s@.len(),
    ensures
        match r {
            Some(((h, x), j)) => spec_lockless_stats(s@, i as int) == Some(
                ((h.deep_view(), x), j as int),
            ),
            None => spec_lockless_stats(s@, i as int) is None,
        },
        r matches Some((_, j)) ==> i < j <= s.len(),
{
    let (h, a) = match header(s, i) {
        Some(x) => x,
        None => return None,
    };
    let (write_bytes, b) = match counter(s, a, "lockless_write_bytes") {
        Some(x) => x,
        None => return None,
    };
    let (read_bytes, c) = match counter(s, b, "lockless_read_bytes") {
        Some(x) => x,
        None => return None,
    };
    match counter(s, c, "lockless_truncate") {
        Some((t, d)) => Some(((h, LocklessStats { write_bytes, read_bytes, truncates: Some(t) }), d)),
        None => Some(((h, LocklessStats { write_bytes, read_bytes, truncates: None }), c)),
    }
}

} // verus!
