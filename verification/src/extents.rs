//! `llite.*.extents_stats` and `llite.*.extents_stats_per_process`
//! (`ll_rw_extents_stats_seq_show()`, `ll_rw_extents_stats_pp_seq_show()` and
//! `ll_display_extents_info()` in `lustre/llite/lproc_llite.c`).
//!
//! ```text
//!                                read       |                write
//!       extents            calls    % cum%  |          calls    % cum%
//!    0K -    4K :           9833    9    9  |           9065   30   30
//!   32K -   64K :          83121   79  100  |           1230    4   63
//! ```

use crate::rows::{extents_row, lemma_extents_row, spec_extents_row};
use crate::text::{
    CharClass, char_at, digits, is_char_at, lemma_digits, lemma_ws, lit_at, match_lit,
    scan, scan_class, skip_ws, spec_digits, spec_ws_lit, ws, ws_lit,
};
use crate::time::{spec_time_triple, time_triple};
use crate::types::{
    ExtentsBucket, ProcessExtents, ProcessExtentsView, RwStats, RwStatsView, };
use vstd::prelude::*;

verus! {

/// The two header lines of the table: `read | write` and
/// `extents calls % cum% | calls % cum%`.
pub open spec fn spec_column_headers(s: Seq<char>, i: int) -> Option<int> {
    match spec_ws_lit(s, i, "read"@) {
        None => None,
        Some(a) => match spec_ws_lit(s, a, "|"@) {
            None => None,
            Some(b) => match spec_ws_lit(s, b, "write"@) {
                Some(c) if char_at(s, c, '\n') => match spec_ws_lit(s, c + 1, "extents"@) {
                    None => None,
                    Some(d) => match spec_ws_lit(s, d, "calls"@) {
                        None => None,
                        Some(e) => match spec_ws_lit(s, e, "%"@) {
                            None => None,
                            Some(f) => match spec_ws_lit(s, f, "cum%"@) {
                                None => None,
                                Some(g) => match spec_ws_lit(s, g, "|"@) {
                                    None => None,
                                    Some(h) => match spec_ws_lit(s, h, "calls"@) {
                                        None => None,
                                        Some(k) => match spec_ws_lit(s, k, "%"@) {
                                            None => None,
                                            Some(l) => match spec_ws_lit(s, l, "cum%"@) {
                                                Some(m) if char_at(s, m, '\n') => Some(m + 1),
                                                _ => None,
                                            },
                                        },
                                    },
                                },
                            },
                        },
                    },
                },
                _ => None,
            },
        },
    }
}

pub fn column_headers(s: &[char], i: usize) -> (r: Option<usize>)
    requires
        i <= s@.len(),
    ensures
        match r {
            Some(j) => spec_column_headers(s@, i as int) == Some(j as int),
            None => spec_column_headers(s@, i as int) is None,
        },
        r matches Some(j) ==> i < j <= s.len(),
{
    let a = match ws_lit(s, i, "read") { Some(x) => x, None => return None };
    let b = match ws_lit(s, a, "|") { Some(x) => x, None => return None };
    let c = match ws_lit(s, b, "write") { Some(x) => x, None => return None };
    if !is_char_at(s, c, '\n') {
        return None;
    }
    let d = match ws_lit(s, c + 1, "extents") { Some(x) => x, None => return None };
    let e = match ws_lit(s, d, "calls") { Some(x) => x, None => return None };
    let f = match ws_lit(s, e, "%") { Some(x) => x, None => return None };
    let g = match ws_lit(s, f, "cum%") { Some(x) => x, None => return None };
    let h = match ws_lit(s, g, "|") { Some(x) => x, None => return None };
    let k = match ws_lit(s, h, "calls") { Some(x) => x, None => return None };
    let l = match ws_lit(s, k, "%") { Some(x) => x, None => return None };
    let m = match ws_lit(s, l, "cum%") { Some(x) => x, None => return None };
    if !is_char_at(s, m, '\n') {
        return None;
    }
    Some(m + 1)
}

/// The rows of the table, up to the first line that is not one.
pub open spec fn spec_extents_rows(s: Seq<char>, i: int) -> (Seq<ExtentsBucket>, int)
    decreases s.len() - i,
{
    if 0 <= i <= s.len() {
        match spec_extents_row(s, i) {
            Some((x, j)) => {
                proof {
                    lemma_extents_row(s, i);
                }
                let (rest, k) = spec_extents_rows(s, j);
                (seq![x] + rest, k)
            },
            None => (Seq::empty(), i),
        }
    } else {
        (Seq::empty(), i)
    }
}

pub fn extents_rows(s: &[char], i: usize) -> (r: (Vec<ExtentsBucket>, usize))
    requires
        i <= s@.len(),
    ensures
        spec_extents_rows(s@, i as int) == (r.0.deep_view(), r.1 as int),
        i <= r.1 <= s.len(),
{
    let mut xs: Vec<ExtentsBucket> = Vec::new();
    let mut j = i;
    loop
        invariant
            i <= j <= s.len(),
            spec_extents_rows(s@, i as int) == (
                xs.deep_view() + spec_extents_rows(s@, j as int).0,
                spec_extents_rows(s@, j as int).1,
            ),
        decreases s@.len() - j,
    {
        match extents_row(s, j) {
            Some((x, k)) => {
                let ghost before = xs.deep_view();
                xs.push(x);
                proof {
                    assert(xs.deep_view() =~= before.push(x));
                    assert(before + spec_extents_rows(s@, j as int).0 =~= xs.deep_view()
                        + spec_extents_rows(s@, k as int).0);
                }
                j = k;
            },
            None => {
                proof {
                    assert(xs.deep_view() + spec_extents_rows(s@, j as int).0 =~= xs.deep_view());
                }
                return (xs, j);
            },
        }
    }
}

/// `\nPID: <pid>\n` and the rows of that process.
pub open spec fn spec_process(s: Seq<char>, i: int) -> Option<(ProcessExtentsView, int)> {
    if !char_at(s, i, '\n') || !lit_at(s, i + 1, "PID:"@) {
        None
    } else {
        match spec_digits(s, ws(s, i + 1 + "PID:"@.len())) {
            Some((pid, a)) if char_at(s, a, '\n') => {
                let (buckets, b) = spec_extents_rows(s, a + 1);
                Some((ProcessExtentsView { pid, buckets }, b))
            },
            _ => None,
        }
    }
}

pub proof fn lemma_process(s: Seq<char>, i: int)
    requires
        0 <= i <= s.len(),
    ensures
        spec_process(s, i) matches Some((_, j)) ==> i < j <= s.len(),
{
    if char_at(s, i, '\n') && lit_at(s, i + 1, "PID:"@) {
        let p = i + 1 + "PID:"@.len();
        lemma_ws(s, p);
        lemma_digits(s, ws(s, p));
        if let Some((_, a)) = spec_digits(s, ws(s, p)) {
            if char_at(s, a, '\n') {
                lemma_extents_rows(s, a + 1);
            }
        }
    }
}

pub proof fn lemma_extents_rows(s: Seq<char>, i: int)
    requires
        0 <= i <= s.len(),
    ensures
        i <= spec_extents_rows(s, i).1 <= s.len(),
    decreases s.len() - i,
{
    if let Some((_, j)) = spec_extents_row(s, i) {
        lemma_extents_row(s, i);
        lemma_extents_rows(s, j);
    }
}

pub fn process(s: &[char], i: usize) -> (r: Option<(ProcessExtents, usize)>)
    requires
        i <= s@.len(),
    ensures
        match r {
            Some((x, j)) => spec_process(s@, i as int) == Some((x.deep_view(), j as int)),
            None => spec_process(s@, i as int) is None,
        },
        r matches Some((_, j)) ==> i < j <= s.len(),
{
    if !is_char_at(s, i, '\n') {
        return None;
    }
    let a = match match_lit(s, i + 1, "PID:") {
        Some(a) => a,
        None => return None,
    };
    let (pid, b) = match digits(s, skip_ws(s, a)) {
        Some(x) => x,
        None => return None,
    };
    if !is_char_at(s, b, '\n') {
        return None;
    }
    proof {
        lemma_extents_rows(s@, b + 1);
    }
    let (buckets, c) = extents_rows(s, b + 1);
    Some((ProcessExtents { pid, buckets }, c))
}

/// The `PID:` blocks, up to the first line that does not start one.
pub open spec fn spec_processes(s: Seq<char>, i: int) -> (Seq<ProcessExtentsView>, int)
    decreases s.len() - i,
{
    if 0 <= i <= s.len() {
        match spec_process(s, i) {
            Some((x, j)) => {
                proof {
                    lemma_process(s, i);
                }
                let (rest, k) = spec_processes(s, j);
                (seq![x] + rest, k)
            },
            None => (Seq::empty(), i),
        }
    } else {
        (Seq::empty(), i)
    }
}

pub fn processes(s: &[char], i: usize) -> (r: (Vec<ProcessExtents>, usize))
    requires
        i <= s@.len(),
    ensures
        spec_processes(s@, i as int) == (r.0.deep_view(), r.1 as int),
        i <= r.1 <= s.len(),
{
    let mut xs: Vec<ProcessExtents> = Vec::new();
    let mut j = i;
    loop
        invariant
            i <= j <= s.len(),
            spec_processes(s@, i as int) == (
                xs.deep_view() + spec_processes(s@, j as int).0,
                spec_processes(s@, j as int).1,
            ),
        decreases s@.len() - j,
    {
        match process(s, j) {
            Some((x, k)) => {
                let ghost before = xs.deep_view();
                let ghost xv = x.deep_view();
                xs.push(x);
                proof {
                    assert(xs.deep_view() =~= before.push(xv));
                    assert(before + spec_processes(s@, j as int).0 =~= xs.deep_view()
                        + spec_processes(s@, k as int).0);
                }
                j = k;
            },
            None => {
                proof {
                    assert(xs.deep_view() + spec_processes(s@, j as int).0 =~= xs.deep_view());
                }
                return (xs, j);
            },
        }
    }
}

/// `disabled`, then a hint line: what the kernel prints unless
/// `ll_rw_stats_on` is set. `Some(None)` when `disabled` is not followed by
/// a newline, the hint and a newline.
pub open spec fn spec_disabled(s: Seq<char>, i: int) -> Option<Option<int>> {
    if !lit_at(s, i, "disabled"@) {
        None
    } else if !char_at(s, i + "disabled"@.len(), '\n') {
        Some(None)
    } else {
        let a = scan(s, i + "disabled"@.len() + 1, CharClass::NotNewline);
        if char_at(s, a, '\n') {
            Some(Some(a + 1))
        } else {
            Some(None)
        }
    }
}

pub fn disabled(s: &[char], i: usize) -> (r: Option<Option<usize>>)
    requires
        i <= s@.len(),
    ensures
        match r {
            Some(Some(j)) => spec_disabled(s@, i as int) == Some(Some(j as int)) && i < j <= s.len(),
            Some(None) => spec_disabled(s@, i as int) == Some(None::<int>),
            None => spec_disabled(s@, i as int) is None,
        },
{
    let a = match match_lit(s, i, "disabled") {
        Some(a) => a,
        None => return None,
    };
    if !is_char_at(s, a, '\n') {
        return Some(None);
    }
    let b = scan_class(s, a + 1, CharClass::NotNewline);
    if is_char_at(s, b, '\n') {
        Some(Some(b + 1))
    } else {
        Some(None)
    }
}

/// `extents_stats`: `\n`, then `disabled` and its hint, or the header, the
/// column headers and the rows.
pub open spec fn spec_extents_stats(s: Seq<char>, i: int) -> Option<(RwStatsView<Seq<ExtentsBucket>>, int)> {
    if !char_at(s, i, '\n') {
        None
    } else {
        match spec_disabled(s, i + 1) {
            Some(Some(j)) => Some((RwStatsView::Disabled, j)),
            Some(None) => None,
            None => match spec_time_triple(s, i + 1) {
                Some((header, a)) => match spec_column_headers(s, a) {
                    Some(b) => {
                        let (value, c) = spec_extents_rows(s, b);
                        Some((RwStatsView::Enabled { header, value }, c))
                    },
                    None => None,
                },
                None => None,
            },
        }
    }
}

pub fn extents_stats(s: &[char], i: usize) -> (r: Option<(RwStats<Vec<ExtentsBucket>>, usize)>)
    requires
        i <= s@.len(),
    ensures
        match r {
            Some((x, j)) => spec_extents_stats(s@, i as int) == Some((x.deep_view(), j as int)),
            None => spec_extents_stats(s@, i as int) is None,
        },
        r matches Some((_, j)) ==> i < j <= s.len(),
{
    if !is_char_at(s, i, '\n') {
        return None;
    }
    match disabled(s, i + 1) {
        Some(Some(j)) => return Some((RwStats::Disabled, j)),
        Some(None) => return None,
        None => {},
    }
    let (header, a) = match time_triple(s, i + 1) {
        Some(x) => x,
        None => return None,
    };
    let b = match column_headers(s, a) {
        Some(b) => b,
        None => return None,
    };
    let (value, c) = extents_rows(s, b);
    Some((RwStats::Enabled { header, value }, c))
}

/// `extents_stats_per_process`: as `extents_stats`, with `PID:` blocks in
/// place of the rows.
pub open spec fn spec_extents_stats_per_process(s: Seq<char>, i: int) -> Option<(RwStatsView<Seq<ProcessExtentsView>>, int)> {
    if !char_at(s, i, '\n') {
        None
    } else {
        match spec_disabled(s, i + 1) {
            Some(Some(j)) => Some((RwStatsView::Disabled, j)),
            Some(None) => None,
            None => match spec_time_triple(s, i + 1) {
                Some((header, a)) => match spec_column_headers(s, a) {
                    Some(b) => {
                        let (value, c) = spec_processes(s, b);
                        Some((RwStatsView::Enabled { header, value }, c))
                    },
                    None => None,
                },
                None => None,
            },
        }
    }
}

pub fn extents_stats_per_process(s: &[char], i: usize) -> (r: Option<(RwStats<Vec<ProcessExtents>>, usize)>)
    requires
        i <= s@.len(),
    ensures
        match r {
            Some((x, j)) => spec_extents_stats_per_process(s@, i as int) == Some(
                (x.deep_view(), j as int),
            ),
            None => spec_extents_stats_per_process(s@, i as int) is None,
        },
        r matches Some((_, j)) ==> i < j <= s.len(),
{
    if !is_char_at(s, i, '\n') {
        return None;
    }
    match disabled(s, i + 1) {
        Some(Some(j)) => return Some((RwStats::Disabled, j)),
        Some(None) => return None,
        None => {},
    }
    let (header, a) = match time_triple(s, i + 1) {
        Some(x) => x,
        None => return None,
    };
    let b = match column_headers(s, a) {
        Some(b) => b,
        None => return None,
    };
    let (value, c) = processes(s, b);
    Some((RwStats::Enabled { header, value }, c))
}

} // verus!
