//! `osc.*.io_latency_stats`: the stats header, then read/write tables laid
//! out as the `osd-*` `brw_stats` tables are.
//!
//! ```text
//! snapshot_time:         1700000000.000000000 secs.nsecs
//! start_time:            1699990000.000000000 secs.nsecs
//! elapsed_time:          10000.000000000 secs.nsecs
//!
//!                            read      |     write
//! io_time_4K             ios   % cum % |  ios   % cum %
//! 1:                       3  75  75   |    0   0   0
//! 2:                       1  25 100   |    0   0   0
//! ```
//!
//! Each table keeps the name the kernel prints for it; blank lines between
//! tables are skipped.

use crate::lockless::{header, spec_header};
use crate::rpc_stats::{
    bucket_lines, lemma_bucket_lines, lemma_name_and_unit, name_and_unit, spec_bucket_lines,
    spec_name_and_unit,
};
use crate::text::{char_at, is_char_at, lemma_ws, skip_ws, spec_ws_lit, ws, ws_lit};
use crate::types::{BrwStats, BrwStatsView, StatsHeader, StatsHeaderView};
use vstd::prelude::*;

verus! {

/// The position after `read`, past a `|` that follows it.
pub open spec fn after_read(s: Seq<char>, a: int) -> int {
    if char_at(s, ws(s, a), '|') {
        ws(s, a) + 1
    } else {
        a
    }
}

/// A blank line, `read`, an optional `|` and `write` on one line, the name
/// line and the rows.
pub open spec fn spec_latency_table(s: Seq<char>, i: int) -> Option<(BrwStatsView, int)> {
    if !char_at(s, i, '\n') {
        None
    } else {
        match spec_ws_lit(s, i + 1, "read"@) {
            None => None,
            Some(a) => match spec_ws_lit(s, after_read(s, a), "write"@) {
                Some(b) if char_at(s, b, '\n') => match spec_name_and_unit(s, b + 1) {
                    Some(((name, unit), c)) => {
                        let (buckets, d) = spec_bucket_lines(s, c);
                        Some((BrwStatsView { name, unit, buckets }, d))
                    },
                    None => None,
                },
                _ => None,
            },
        }
    }
}

pub proof fn lemma_latency_table(s: Seq<char>, i: int)
    requires
        0 <= i <= s.len(),
    ensures
        spec_latency_table(s, i) matches Some((_, j)) ==> i < j <= s.len(),
{
    if char_at(s, i, '\n') {
        lemma_ws(s, i + 1);
        if let Some(a) = spec_ws_lit(s, i + 1, "read"@) {
            lemma_ws(s, a);
            lemma_ws(s, after_read(s, a));
            if let Some(b) = spec_ws_lit(s, after_read(s, a), "write"@) {
                if char_at(s, b, '\n') {
                    lemma_name_and_unit(s, b + 1);
                    if let Some((_, c)) = spec_name_and_unit(s, b + 1) {
                        lemma_bucket_lines(s, c);
                    }
                }
            }
        }
    }
}

pub fn latency_table(s: &[char], i: usize) -> (r: Option<(BrwStats, usize)>)
    requires
        i <= s@.len(),
    ensures
        match r {
            Some((x, j)) => spec_latency_table(s@, i as int) == Some((x.deep_view(), j as int)),
            None => spec_latency_table(s@, i as int) is None,
        },
        r matches Some((_, j)) ==> i < j <= s.len(),
{
    proof {
        lemma_latency_table(s@, i as int);
    }
    if !is_char_at(s, i, '\n') {
        return None;
    }
    let a = match ws_lit(s, i + 1, "read") {
        Some(a) => a,
        None => return None,
    };
    let p = skip_ws(s, a);
    let a2 = if is_char_at(s, p, '|') {
        p + 1
    } else {
        a
    };
    let b = match ws_lit(s, a2, "write") {
        Some(b) => b,
        None => return None,
    };
    if !is_char_at(s, b, '\n') {
        return None;
    }
    let ((name, unit), c) = match name_and_unit(s, b + 1) {
        Some(x) => x,
        None => return None,
    };
    let (buckets, d) = bucket_lines(s, c);
    Some((BrwStats { name, unit, buckets }, d))
}

/// The tables at `i`, blank lines between them skipped, up to the first
/// position where neither a table nor a blank line stands.
pub open spec fn spec_latency_tables(s: Seq<char>, i: int) -> (Seq<BrwStatsView>, int)
    decreases s.len() - i,
{
    if 0 <= i <= s.len() {
        match spec_latency_table(s, i) {
            Some((x, j)) => {
                proof {
                    lemma_latency_table(s, i);
                }
                let (rest, k) = spec_latency_tables(s, j);
                (seq![x] + rest, k)
            },
            None => if char_at(s, i, '\n') {
                spec_latency_tables(s, i + 1)
            } else {
                (Seq::empty(), i)
            },
        }
    } else {
        (Seq::empty(), i)
    }
}

pub proof fn lemma_latency_tables(s: Seq<char>, i: int)
    requires
        0 <= i <= s.len(),
    ensures
        i <= spec_latency_tables(s, i).1 <= s.len(),
    decreases s.len() - i,
{
    lemma_latency_table(s, i);
    if let Some((_, j)) = spec_latency_table(s, i) {
        lemma_latency_tables(s, j);
    } else if char_at(s, i, '\n') {
        lemma_latency_tables(s, i + 1);
    }
}

pub fn latency_tables(s: &[char], i: usize) -> (r: (Vec<BrwStats>, usize))
    requires
        i <= s@.len(),
    ensures
        spec_latency_tables(s@, i as int) == (r.0.deep_view(), r.1 as int),
        i <= r.1 <= s.len(),
{
    let mut xs: Vec<BrwStats> = Vec::new();
    let mut j = i;
    proof {
        lemma_latency_tables(s@, i as int);
    }
    loop
        invariant
            i <= j <= s.len(),
            spec_latency_tables(s@, i as int) == (
                xs.deep_view() + spec_latency_tables(s@, j as int).0,
                spec_latency_tables(s@, j as int).1,
            ),
        decreases s@.len() - j,
    {
        match latency_table(s, j) {
            Some((x, k)) => {
                let ghost before = xs.deep_view();
                let ghost xv = x.deep_view();
                xs.push(x);
                proof {
                    assert(xs.deep_view() =~= before.push(xv));
                    assert(before + spec_latency_tables(s@, j as int).0 =~= xs.deep_view()
                        + spec_latency_tables(s@, k as int).0);
                }
                j = k;
            },
            None => {
                if is_char_at(s, j, '\n') {
                    j = j + 1;
                } else {
                    proof {
                        assert(xs.deep_view() + spec_latency_tables(s@, j as int).0
                            =~= xs.deep_view());
                        lemma_latency_tables(s@, i as int);
                    }
                    return (xs, j);
                }
            },
        }
    }
}

/// An optional newline, the header, then the tables.
pub open spec fn spec_io_latency_stats(s: Seq<char>, i: int) -> Option<((StatsHeaderView, Seq<BrwStatsView>), int)> {
    match spec_header(s, i) {
        Some((h, a)) => {
            let (xs, b) = spec_latency_tables(s, a);
            Some(((h, xs), b))
        },
        None => None,
    }
}

pub fn io_latency_stats(s: &[char], i: usize) -> (r: Option<((StatsHeader, Vec<BrwStats>), usize)>)
    requires
        i <= s@.len(),
    ensures
        match r {
            Some(((h, xs), j)) => spec_io_latency_stats(s@, i as int) == Some(
                ((h.deep_view(), xs.deep_view()), j as int),
            ),
            None => spec_io_latency_stats(s@, i as int) is None,
        },
        r matches Some((_, j)) ==> i < j <= s.len(),
{
    let (h, a) = match header(s, i) {
        Some(x) => x,
        None => return None,
    };
    let (xs, b) = latency_tables(s, a);
    Some(((h, xs), b))
}

} // verus!
