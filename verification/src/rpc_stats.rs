//! `osc.*.rpc_stats` and `mdc.*.rpc_stats` (`osc_rpc_stats_seq_show()`,
//! `mdc_rpc_stats_seq_show()`).
//!
//! ```text
//! read RPCs in flight:  0
//! pending read pages:   0
//!
//!             read            write
//! pages per rpc         rpcs   % cum % |       rpcs   % cum %
//! 1:                 0   0   0   |    2456543  48  48
//! ```
//!
//! Scalars and tables keep the kernel's names: the set differs by release and
//! build, and mdc adds a one-sided `modify` table. Newer mdc builds print `%%`
//! in the column header.

use crate::key_value::{key_value, lemma_key_value_advances, spec_key_value};
use crate::lockless::{header, spec_header};
use crate::rows::{bucket, count_pct_cum, lemma_bucket, lemma_count_pct_cum, spec_bucket, spec_count_pct_cum};
use crate::text::{
    CharClass, char_at, digits, find_double_space, find_two_spaces, is_char_at, lemma_digits,
    lemma_scan, lemma_ws, rskip_ws, scan, scan_class,
    scan_class_upto, scan_upto, spec_digits, spec_ws_lit, string_of, trim_bounds, ws_lit,
};
use crate::types::{
    BrwStats, BrwStatsBucket, BrwStatsView, CountBucket, KeyValue, KeyValueView, RpcStats,
    RpcStatsView, StatsHeader, StatsHeaderView,
};
use vstd::prelude::*;

verus! {

/// `<key>: <count> <pct> <cum>\n`, a row of the one-sided `modify` table.
pub open spec fn spec_count_row(s: Seq<char>, i: int) -> Option<(CountBucket, int)> {
    match spec_digits(s, i) {
        Some((key, a)) if char_at(s, a, ':') => match spec_count_pct_cum(s, a + 1) {
            Some((count, b)) if char_at(s, b, '\n') => Some((CountBucket { key, count }, b + 1)),
            _ => None,
        },
        _ => None,
    }
}

pub proof fn lemma_count_row(s: Seq<char>, i: int)
    requires
        0 <= i <= s.len(),
    ensures
        spec_count_row(s, i) matches Some((_, j)) ==> i < j <= s.len(),
{
    lemma_digits(s, i);
    if let Some((_, a)) = spec_digits(s, i) {
        if char_at(s, a, ':') {
            lemma_count_pct_cum(s, a + 1);
        }
    }
}

pub fn count_row(s: &[char], i: usize) -> (r: Option<(CountBucket, usize)>)
    requires
        i <= s@.len(),
    ensures
        match r {
            Some((x, j)) => spec_count_row(s@, i as int) == Some((x, j as int)),
            None => spec_count_row(s@, i as int) is None,
        },
        r matches Some((_, j)) ==> i < j <= s.len(),
{
    let (key, a) = match digits(s, i) {
        Some(x) => x,
        None => return None,
    };
    if !is_char_at(s, a, ':') {
        return None;
    }
    match count_pct_cum(s, a + 1) {
        Some((count, b)) if is_char_at(s, b, '\n') => Some((CountBucket { key, count }, b + 1)),
        _ => None,
    }
}

/// The rows of a `modify` table.
pub open spec fn spec_count_rows(s: Seq<char>, i: int) -> (Seq<CountBucket>, int)
    decreases s.len() - i,
{
    if 0 <= i <= s.len() {
        match spec_count_row(s, i) {
            Some((x, j)) => {
                proof {
                    lemma_count_row(s, i);
                }
                let (rest, k) = spec_count_rows(s, j);
                (seq![x] + rest, k)
            },
            None => (Seq::empty(), i),
        }
    } else {
        (Seq::empty(), i)
    }
}

pub proof fn lemma_count_rows(s: Seq<char>, i: int)
    requires
        0 <= i <= s.len(),
    ensures
        i <= spec_count_rows(s, i).1 <= s.len(),
    decreases s.len() - i,
{
    if let Some((_, j)) = spec_count_row(s, i) {
        lemma_count_row(s, i);
        lemma_count_rows(s, j);
    }
}

pub fn count_rows(s: &[char], i: usize) -> (r: (Vec<CountBucket>, usize))
    requires
        i <= s@.len(),
    ensures
        spec_count_rows(s@, i as int) == (r.0.deep_view(), r.1 as int),
        i <= r.1 <= s.len(),
{
    let mut xs: Vec<CountBucket> = Vec::new();
    let mut j = i;
    loop
        invariant
            i <= j <= s.len(),
            spec_count_rows(s@, i as int) == (
                xs.deep_view() + spec_count_rows(s@, j as int).0,
                spec_count_rows(s@, j as int).1,
            ),
        decreases s@.len() - j,
    {
        match count_row(s, j) {
            Some((x, k)) => {
                let ghost before = xs.deep_view();
                xs.push(x);
                proof {
                    assert(xs.deep_view() =~= before.push(x));
                    assert(before + spec_count_rows(s@, j as int).0 =~= xs.deep_view()
                        + spec_count_rows(s@, k as int).0);
                }
                j = k;
            },
            None => {
                proof {
                    assert(xs.deep_view() + spec_count_rows(s@, j as int).0 =~= xs.deep_view());
                }
                return (xs, j);
            },
        }
    }
}

/// A read/write row followed by its newline.
pub open spec fn spec_bucket_line(s: Seq<char>, i: int) -> Option<(BrwStatsBucket, int)> {
    match spec_bucket(s, i) {
        Some((x, j)) if char_at(s, j, '\n') => Some((x, j + 1)),
        _ => None,
    }
}

/// The rows of a read/write table.
pub open spec fn spec_bucket_lines(s: Seq<char>, i: int) -> (Seq<BrwStatsBucket>, int)
    decreases s.len() - i,
{
    if 0 <= i <= s.len() {
        match spec_bucket_line(s, i) {
            Some((x, j)) => {
                proof {
                    lemma_bucket(s, i);
                }
                let (rest, k) = spec_bucket_lines(s, j);
                (seq![x] + rest, k)
            },
            None => (Seq::empty(), i),
        }
    } else {
        (Seq::empty(), i)
    }
}

pub proof fn lemma_bucket_lines(s: Seq<char>, i: int)
    requires
        0 <= i <= s.len(),
    ensures
        i <= spec_bucket_lines(s, i).1 <= s.len(),
    decreases s.len() - i,
{
    if let Some((_, j)) = spec_bucket_line(s, i) {
        lemma_bucket(s, i);
        lemma_bucket_lines(s, j);
    }
}

pub fn bucket_lines(s: &[char], i: usize) -> (r: (Vec<BrwStatsBucket>, usize))
    requires
        i <= s@.len(),
    ensures
        spec_bucket_lines(s@, i as int) == (r.0.deep_view(), r.1 as int),
        i <= r.1 <= s.len(),
{
    let mut xs: Vec<BrwStatsBucket> = Vec::new();
    let mut j = i;
    loop
        invariant
            i <= j <= s.len(),
            spec_bucket_lines(s@, i as int) == (
                xs.deep_view() + spec_bucket_lines(s@, j as int).0,
                spec_bucket_lines(s@, j as int).1,
            ),
        decreases s@.len() - j,
    {
        let line = match bucket(s, j) {
            Some((x, k)) if is_char_at(s, k, '\n') => Some((x, k + 1)),
            _ => None,
        };
        match line {
            Some((x, k)) => {
                let ghost before = xs.deep_view();
                xs.push(x);
                proof {
                    assert(xs.deep_view() =~= before.push(x));
                    assert(before + spec_bucket_lines(s@, j as int).0 =~= xs.deep_view()
                        + spec_bucket_lines(s@, k as int).0);
                }
                j = k;
            },
            None => {
                proof {
                    assert(xs.deep_view() + spec_bucket_lines(s@, j as int).0 =~= xs.deep_view());
                }
                return (xs, j);
            },
        }
    }
}

/// The line that names a table: `pages per rpc         rpcs   % cum % | ...`.
/// The name is everything before the first run of two spaces, trimmed; the
/// unit is the first word after it, empty when there is none.
pub open spec fn spec_name_and_unit(s: Seq<char>, i: int) -> Option<((Seq<char>, Seq<char>), int)> {
    let a = scan(s, i, CharClass::NotNewline);
    if a == i || !char_at(s, a, '\n') {
        None
    } else {
        let name_end = match find_double_space(s, i, a) {
            Some(p) => p,
            None => a,
        };
        let (n0, n1) = trim_bounds(s, i, name_end);
        let unit = match find_double_space(s, i, a) {
            Some(p) => {
                let u0 = scan_upto(s, p + 2, a, CharClass::Whitespace);
                s.subrange(u0, scan_upto(s, u0, a, CharClass::NotWhitespace))
            },
            None => Seq::empty(),
        };
        Some(((s.subrange(n0, n1), unit), a + 1))
    }
}

pub fn name_and_unit(s: &[char], i: usize) -> (r: Option<((String, String), usize)>)
    requires
        i <= s@.len(),
    ensures
        match r {
            Some(((name, unit), j)) => spec_name_and_unit(s@, i as int) == Some(
                ((name@, unit@), j as int),
            ),
            None => spec_name_and_unit(s@, i as int) is None,
        },
        r matches Some((_, j)) ==> i < j <= s.len(),
{
    let a = scan_class(s, i, CharClass::NotNewline);
    if a == i || !is_char_at(s, a, '\n') {
        return None;
    }
    let pair = find_two_spaces(s, i, a);
    let name_end = match pair {
        Some(p) => p,
        None => a,
    };
    let n0 = scan_class_upto(s, i, name_end, CharClass::Whitespace);
    let n1 = rskip_ws(s, n0, name_end);
    let name = string_of(s, n0, n1);
    let unit = match pair {
        Some(p) => {
            let u0 = scan_class_upto(s, p + 2, a, CharClass::Whitespace);
            let u1 = scan_class_upto(s, u0, a, CharClass::NotWhitespace);
            string_of(s, u0, u1)
        },
        None => String::new(),
    };
    Some(((name, unit), a + 1))
}

/// A blank line, `read` and `write` on a line, the name line and the rows.
pub open spec fn spec_rw_histogram(s: Seq<char>, i: int) -> Option<(BrwStatsView, int)> {
    if !char_at(s, i, '\n') {
        None
    } else {
        match spec_ws_lit(s, i + 1, "read"@) {
            None => None,
            Some(a) => match spec_ws_lit(s, a, "write"@) {
                Some(b) if char_at(s, b, '\n') => match spec_name_and_unit(s, b + 1) {
                    Some(((name, unit), c)) => {
                        let (buckets, d) = spec_bucket_lines(s, c);
                        Some((BrwStatsView { name, unit, buckets }, d))
                    },
                    None => None,
                },
                _ => None,
            },
        }
    }
}

pub proof fn lemma_name_and_unit(s: Seq<char>, i: int)
    requires
        0 <= i <= s.len(),
    ensures
        spec_name_and_unit(s, i) matches Some((_, j)) ==> i < j <= s.len(),
{
    lemma_scan(s, i, CharClass::NotNewline);
}

pub proof fn lemma_rw_histogram(s: Seq<char>, i: int)
    requires
        0 <= i <= s.len(),
    ensures
        spec_rw_histogram(s, i) matches Some((_, j)) ==> i < j <= s.len(),
{
    if char_at(s, i, '\n') {
        lemma_ws(s, i + 1);
        if let Some(a) = spec_ws_lit(s, i + 1, "read"@) {
            lemma_ws(s, a);
            if let Some(b) = spec_ws_lit(s, a, "write"@) {
                if char_at(s, b, '\n') {
                    lemma_name_and_unit(s, b + 1);
                    if let Some((_, c)) = spec_name_and_unit(s, b + 1) {
                        lemma_bucket_lines(s, c);
                    }
                }
            }
        }
    }
}

pub fn rw_histogram(s: &[char], i: usize) -> (r: Option<(BrwStats, usize)>)
    requires
        i <= s@.len(),
    ensures
        match r {
            Some((x, j)) => spec_rw_histogram(s@, i as int) == Some((x.deep_view(), j as int)),
            None => spec_rw_histogram(s@, i as int) is None,
        },
        r matches Some((_, j)) ==> i < j <= s.len(),
{
    if !is_char_at(s, i, '\n') {
        return None;
    }
    let a = match ws_lit(s, i + 1, "read") {
        Some(a) => a,
        None => return None,
    };
    let b = match ws_lit(s, a, "write") {
        Some(b) => b,
        None => return None,
    };
    if !is_char_at(s, b, '\n') {
        return None;
    }
    let ((name, unit), c) = match name_and_unit(s, b + 1) {
        Some(x) => x,
        None => return None,
    };
    let (buckets, d) = bucket_lines(s, c);
    Some((BrwStats { name, unit, buckets }, d))
}

/// A blank line, `modify` on a line, the name line and the one-sided rows.
pub open spec fn spec_modify_histogram(s: Seq<char>, i: int) -> Option<(Seq<CountBucket>, int)> {
    if !char_at(s, i, '\n') {
        None
    } else {
        match spec_ws_lit(s, i + 1, "modify"@) {
            Some(a) if char_at(s, a, '\n') => match spec_name_and_unit(s, a + 1) {
                Some((_, b)) => Some(spec_count_rows(s, b)),
                None => None,
            },
            _ => None,
        }
    }
}

pub proof fn lemma_modify_histogram(s: Seq<char>, i: int)
    requires
        0 <= i <= s.len(),
    ensures
        spec_modify_histogram(s, i) matches Some((_, j)) ==> i < j <= s.len(),
{
    if char_at(s, i, '\n') {
        lemma_ws(s, i + 1);
        if let Some(a) = spec_ws_lit(s, i + 1, "modify"@) {
            if char_at(s, a, '\n') {
                lemma_name_and_unit(s, a + 1);
                if let Some((_, b)) = spec_name_and_unit(s, a + 1) {
                    lemma_count_rows(s, b);
                }
            }
        }
    }
}

pub fn modify_histogram(s: &[char], i: usize) -> (r: Option<(Vec<CountBucket>, usize)>)
    requires
        i <= s@.len(),
    ensures
        match r {
            Some((x, j)) => spec_modify_histogram(s@, i as int) == Some((x.deep_view(), j as int)),
            None => spec_modify_histogram(s@, i as int) is None,
        },
        r matches Some((_, j)) ==> i < j <= s.len(),
{
    if !is_char_at(s, i, '\n') {
        return None;
    }
    let a = match ws_lit(s, i + 1, "modify") {
        Some(a) => a,
        None => return None,
    };
    if !is_char_at(s, a, '\n') {
        return None;
    }
    let b = match name_and_unit(s, a + 1) {
        Some((_, b)) => b,
        None => return None,
    };
    Some(count_rows(s, b))
}

/// One piece of an `rpc_stats` block.
pub enum Section {
    Scalar(KeyValue),
    Modify(Vec<CountBucket>),
    Histogram(BrwStats),
    /// The blank line before the scalars that follow the mdc `modify` table.
    Blank,
}

pub enum SectionView {
    Scalar(KeyValueView),
    Modify(Seq<CountBucket>),
    Histogram(BrwStatsView),
    Blank,
}

impl DeepView for Section {
    type V = SectionView;

    open spec fn deep_view(&self) -> SectionView {
        match self {
            Section::Scalar(x) => SectionView::Scalar(x.deep_view()),
            Section::Modify(x) => SectionView::Modify(x.deep_view()),
            Section::Histogram(x) => SectionView::Histogram(x.deep_view()),
            Section::Blank => SectionView::Blank,
        }
    }
}

/// A scalar, else a `modify` table, else a read/write table, else a blank line.
pub open spec fn spec_section(s: Seq<char>, i: int) -> Option<(SectionView, int)> {
    match spec_key_value(s, i) {
        Some((x, j)) => Some((SectionView::Scalar(x), j)),
        None => match spec_modify_histogram(s, i) {
            Some((x, j)) => Some((SectionView::Modify(x), j)),
            None => match spec_rw_histogram(s, i) {
                Some((x, j)) => Some((SectionView::Histogram(x), j)),
                None => if char_at(s, i, '\n') {
                    Some((SectionView::Blank, i + 1))
                } else {
                    None
                },
            },
        },
    }
}

pub proof fn lemma_section(s: Seq<char>, i: int)
    requires
        0 <= i <= s.len(),
    ensures
        spec_section(s, i) matches Some((_, j)) ==> i < j <= s.len(),
{
    lemma_key_value_advances(s, i);
    lemma_modify_histogram(s, i);
    lemma_rw_histogram(s, i);
}

pub fn section(s: &[char], i: usize) -> (r: Option<(Section, usize)>)
    requires
        i <= s@.len(),
    ensures
        match r {
            Some((x, j)) => spec_section(s@, i as int) == Some((x.deep_view(), j as int)),
            None => spec_section(s@, i as int) is None,
        },
        r matches Some((_, j)) ==> i < j <= s.len(),
{
    if let Some((x, j)) = key_value(s, i) {
        return Some((Section::Scalar(x), j));
    }
    if let Some((x, j)) = modify_histogram(s, i) {
        return Some((Section::Modify(x), j));
    }
    if let Some((x, j)) = rw_histogram(s, i) {
        return Some((Section::Histogram(x), j));
    }
    if is_char_at(s, i, '\n') {
        Some((Section::Blank, i + 1))
    } else {
        None
    }
}

pub open spec fn empty_rpc_stats() -> RpcStatsView {
    RpcStatsView { scalars: Seq::empty(), modify_rpcs_in_flight: None, histograms: Seq::empty() }
}

/// What `rest` becomes with `section` in front of it: scalars and tables in
/// order, the last `modify` table kept.
pub open spec fn add_section(section: SectionView, rest: RpcStatsView) -> RpcStatsView {
    match section {
        SectionView::Scalar(x) => RpcStatsView { scalars: seq![x] + rest.scalars, ..rest },
        SectionView::Modify(x) => if rest.modify_rpcs_in_flight is Some {
            rest
        } else {
            RpcStatsView { modify_rpcs_in_flight: Some(x), ..rest }
        },
        SectionView::Histogram(x) => RpcStatsView { histograms: seq![x] + rest.histograms, ..rest },
        SectionView::Blank => rest,
    }
}

/// The sections at `i`, folded into the stats they describe.
pub open spec fn spec_sections(s: Seq<char>, i: int) -> (RpcStatsView, int)
    decreases s.len() - i,
{
    if 0 <= i <= s.len() {
        match spec_section(s, i) {
            Some((x, j)) => {
                proof {
                    lemma_section(s, i);
                }
                let (rest, k) = spec_sections(s, j);
                (add_section(x, rest), k)
            },
            None => (empty_rpc_stats(), i),
        }
    } else {
        (empty_rpc_stats(), i)
    }
}

/// `acc` followed by `rest`.
pub open spec fn join_rpc_stats(acc: RpcStatsView, rest: RpcStatsView) -> RpcStatsView {
    RpcStatsView {
        scalars: acc.scalars + rest.scalars,
        modify_rpcs_in_flight: if rest.modify_rpcs_in_flight is Some {
            rest.modify_rpcs_in_flight
        } else {
            acc.modify_rpcs_in_flight
        },
        histograms: acc.histograms + rest.histograms,
    }
}

pub fn sections(s: &[char], i: usize) -> (r: (RpcStats, usize))
    requires
        i <= s@.len(),
    ensures
        spec_sections(s@, i as int) == (r.0.deep_view(), r.1 as int),
        i <= r.1 <= s.len(),
{
    let mut stats = RpcStats { scalars: Vec::new(), modify_rpcs_in_flight: None, histograms: Vec::new() };
    let mut j = i;
    proof {
        assert(join_rpc_stats(stats.deep_view(), spec_sections(s@, j as int).0) =~= spec_sections(s@, j as int).0);
    }
    loop
        invariant
            i <= j <= s.len(),
            spec_sections(s@, i as int) == (
                join_rpc_stats(stats.deep_view(), spec_sections(s@, j as int).0),
                spec_sections(s@, j as int).1,
            ),
        decreases s@.len() - j,
    {
        match section(s, j) {
            Some((x, k)) => {
                let ghost before = stats.deep_view();
                let ghost xv = x.deep_view();
                let ghost rest = spec_sections(s@, k as int).0;
                match x {
                    Section::Scalar(kv) => {
                        let ghost kvv = kv.deep_view();
                        stats.scalars.push(kv);
                        proof {
                            assert(stats.scalars.deep_view() =~= before.scalars.push(kvv));
                            assert(before.scalars + (seq![kvv] + rest.scalars) =~= stats.scalars.deep_view()
                                + rest.scalars);
                        }
                    },
                    Section::Modify(m) => {
                        stats.modify_rpcs_in_flight = Some(m);
                    },
                    Section::Histogram(h) => {
                        let ghost hv = h.deep_view();
                        stats.histograms.push(h);
                        proof {
                            assert(stats.histograms.deep_view() =~= before.histograms.push(hv));
                            assert(before.histograms + (seq![hv] + rest.histograms)
                                =~= stats.histograms.deep_view() + rest.histograms);
                        }
                    },
                    Section::Blank => {},
                }
                proof {
                    assert(join_rpc_stats(before, add_section(xv, rest)) =~= join_rpc_stats(
                        stats.deep_view(),
                        rest,
                    ));
                }
                j = k;
            },
            None => {
                proof {
                    assert(join_rpc_stats(stats.deep_view(), empty_rpc_stats()) =~= stats.deep_view());
                }
                return (stats, j);
            },
        }
    }
}

/// An optional newline, the header, then the sections.
pub open spec fn spec_rpc_stats(s: Seq<char>, i: int) -> Option<((StatsHeaderView, RpcStatsView), int)> {
    match spec_header(s, i) {
        Some((h, a)) => {
            let (x, b) = spec_sections(s, a);
            Some(((h, x), b))
        },
        None => None,
    }
}

pub fn rpc_stats(s: &[char], i: usize) -> (r: Option<((StatsHeader, RpcStats), usize)>)
    requires
        i <= s@.len(),
    ensures
        match r {
            Some(((h, x), j)) => spec_rpc_stats(s@, i as int) == Some(
                ((h.deep_view(), x.deep_view()), j as int),
            ),
            None => spec_rpc_stats(s@, i as int) is None,
        },
        r matches Some((_, j)) ==> i < j <= s.len(),
{
    let (h, a) = match header(s, i) {
        Some(x) => x,
        None => return None,
    };
    let (x, b) = sections(s, a);
    Some(((h, x), b))
}

} // verus!
