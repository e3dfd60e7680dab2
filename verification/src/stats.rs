//! Stats blocks: the header, then one `name <samples> samples [<units>] ...`
//! line per counter (`lprocfs_stats_seq_show()`). `llite.*.read_ahead_stats`
//! before 2.14.52 (LU-13705) has names with spaces and hyphens
//! (`read-ahead to EOF         1 samples [pages]`); they are normalized to the
//! 2.14.52 spelling so the label is the same on every release.

use crate::lockless::{header, spec_header};
use crate::text::{
    CharClass, decimal_value, is_digit, is_ws, lemma_scan_upto, lit_at, scan_upto, char_at, chars_of, find_char, find_character, find_lit, find_literal, is_char_at,
    lemma_scan, match_lit, numbers, parse_u64, push_char,
    rfind_whitespace, rfind_ws, rscan_ws, rskip_ws, scan, scan_class, scan_class_upto, spec_numbers, spec_parse_u64, string_of, trim_bounds,
};
use crate::types::{Stat, StatView, StatsHeader, StatsHeaderView};
use vstd::prelude::*;

verus! {

/// `ra_stat_string[]` at v2_14_0 mapped to the 2.14.52+ names; any other
/// name has its spaces replaced by `_`.
pub open spec fn spec_normalize(name: Seq<char>) -> Seq<char> {
    if name == "read-ahead to EOF"@ {
        "readahead_to_eof"@
    } else if name == "hit max r-a issue"@ {
        "hit_max_readahead_issue"@
    } else {
        name.map_values(|c: char| if c == ' ' { '_' } else { c })
    }
}

/// Whether `s[lo..hi]` is exactly `lit`.
pub fn region_is(s: &[char], lo: usize, hi: usize, lit: &str) -> (b: bool)
    requires
        lo <= hi <= s@.len(),
    ensures
        b == (s@.subrange(lo as int, hi as int) == lit@),
{
    match match_lit(s, lo, lit) {
        Some(j) => {
            proof {
                if j != hi {
                    assert(s@.subrange(lo as int, hi as int).len() != lit@.len());
                }
            }
            j == hi
        },
        None => {
            proof {
                if s@.subrange(lo as int, hi as int) == lit@ {
                    assert(s@.subrange(lo as int, lo + lit@.len()) =~= s@.subrange(lo as int, hi as int));
                }
            }
            false
        },
    }
}

fn normalize_region(s: &[char], lo: usize, hi: usize) -> (r: String)
    requires
        lo <= hi <= s@.len(),
    ensures
        r@ == spec_normalize(s@.subrange(lo as int, hi as int)),
{
    if region_is(s, lo, hi, "read-ahead to EOF") {
        return "readahead_to_eof".to_owned();
    }
    if region_is(s, lo, hi, "hit max r-a issue") {
        return "hit_max_readahead_issue".to_owned();
    }
    let ghost name = s@.subrange(lo as int, hi as int);
    let mut r = String::new();
    let mut k = lo;
    while k < hi
        invariant
            lo <= k <= hi <= s@.len(),
            name == s@.subrange(lo as int, hi as int),
            r@ == name.take(k - lo).map_values(|c: char| if c == ' ' { '_' } else { c }),
        decreases hi - k,
    {
        let c = s[k];
        push_char(&mut r, if c == ' ' { '_' } else { c });
        proof {
            assert(name.take(k + 1 - lo) =~= name.take(k - lo).push(c));
            assert(name.take(k + 1 - lo).map_values(|c: char| if c == ' ' { '_' } else { c }) =~= name.take(
                k - lo,
            ).map_values(|c: char| if c == ' ' { '_' } else { c }).push(if c == ' ' { '_' } else { c }));
        }
        k += 1;
    }
    proof {
        assert(name.take(hi - lo) =~= name);
    }
    r
}

/// The label spelling of a `read_ahead_stats` name.
pub fn normalize(name: &str) -> (r: String)
    ensures
        r@ == spec_normalize(name@),
{
    let s = chars_of(name);
    proof {
        assert(s@.subrange(0, s@.len() as int) =~= s@);
    }
    normalize_region(s.as_slice(), 0, s.len())
}

/// One stats line, `s[lo..hi]`: the name (normalized when `norm`), the
/// sample count, the units and then none, three or four numbers
/// (min, max, sum and the sum of squares).
pub open spec fn spec_parse_line(s: Seq<char>, lo: int, hi: int, norm: bool) -> Option<StatView> {
    match find_lit(s, lo, hi, " samples ["@) {
        None => None,
        Some(p) => {
            let t = rscan_ws(s, lo, p);
            match rfind_ws(s, lo, t) {
                None => None,
                Some(q) => match spec_parse_u64(s, q + 1, t) {
                    None => None,
                    Some(samples) => {
                        let r0 = p + " samples ["@.len();
                        match find_char(s, r0, hi, ']') {
                            None => None,
                            Some(r) => match spec_numbers(s, r + 1, hi) {
                                Some(nums) if nums.len() == 0 || nums.len() == 3 || nums.len()
                                    == 4 => {
                                    let (n0, n1) = trim_bounds(s, lo, q);
                                    let name = s.subrange(n0, n1);
                                    Some(
                                        StatView {
                                            name: if norm {
                                                spec_normalize(name)
                                            } else {
                                                name
                                            },
                                            units: s.subrange(r0, r),
                                            samples,
                                            min: if nums.len() >= 3 {
                                                Some(nums[0])
                                            } else {
                                                None
                                            },
                                            max: if nums.len() >= 3 {
                                                Some(nums[1])
                                            } else {
                                                None
                                            },
                                            sum: if nums.len() >= 3 {
                                                Some(nums[2])
                                            } else {
                                                None
                                            },
                                            sumsquare: if nums.len() == 4 {
                                                Some(nums[3])
                                            } else {
                                                None
                                            },
                                        },
                                    )
                                },
                                _ => None,
                            },
                        }
                    },
                },
            }
        },
    }
}

/// The head of a stats line as the kernel prints it:
/// `<name><gap><samples> samples [<units>]`; the numbers follow it.
pub open spec fn stats_line_head(
    name: Seq<char>,
    gap: Seq<char>,
    samples: Seq<char>,
    units: Seq<char>,
) -> Seq<char> {
    name + gap + samples + " samples ["@ + units + "]"@
}

proof fn lemma_rscan_ws_to(s: Seq<char>, lo: int, hi: int, stop: int)
    requires
        0 <= lo < stop <= hi <= s.len(),
        forall|k: int| stop <= k < hi ==> is_ws(#[trigger] s[k]),
        !is_ws(s[stop - 1]),
    ensures
        rscan_ws(s, lo, hi) == stop,
    decreases hi - stop,
{
    if stop < hi {
        assert(is_ws(s[hi - 1]));
        lemma_rscan_ws_to(s, lo, hi - 1, stop);
    }
}

proof fn lemma_find_lit_first(s: Seq<char>, lo: int, hi: int, lit: Seq<char>, p: int)
    requires
        0 <= lo <= p,
        p + lit.len() <= hi <= s.len(),
        lit_at(s, p, lit),
        forall|q: int| lo <= q < p ==> !#[trigger] lit_at(s, q, lit),
    ensures
        find_lit(s, lo, hi, lit) == Some(p),
    decreases p - lo,
{
    if lo < p {
        assert(!lit_at(s, lo, lit));
        lemma_find_lit_first(s, lo + 1, hi, lit, p);
    }
}

proof fn lemma_find_char_first(s: Seq<char>, lo: int, hi: int, c: char, p: int)
    requires
        0 <= lo <= p < hi <= s.len(),
        s[p] == c,
        forall|q: int| lo <= q < p ==> #[trigger] s[q] != c,
    ensures
        find_char(s, lo, hi, c) == Some(p),
    decreases p - lo,
{
    if lo < p {
        lemma_find_char_first(s, lo + 1, hi, c, p);
    }
}

proof fn lemma_rfind_ws_at(s: Seq<char>, lo: int, hi: int, q: int)
    requires
        0 <= lo <= q < hi <= s.len(),
        is_ws(s[q]),
        forall|k: int| q < k < hi ==> !is_ws(#[trigger] s[k]),
    ensures
        rfind_ws(s, lo, hi) == Some(q),
    decreases hi - q,
{
    if q < hi - 1 {
        assert(!is_ws(s[hi - 1]));
        lemma_rfind_ws_at(s, lo, hi - 1, q);
    }
}

/// A stats line reads its numbers in order: for a line
/// `<name><gap><samples> samples [<units>]` (the gap being whitespace)
/// followed by three or four numbers, the stat has that name, sample count
/// and units, its minimum is the first number, its maximum the second, its
/// sum the third and its sum of squares the fourth (none when there are
/// three).
pub proof fn stats_lines_read_their_numbers_in_order(
    name: Seq<char>,
    gap: Seq<char>,
    samples: Seq<char>,
    units: Seq<char>,
    tail: Seq<char>,
    norm: bool,
)
    requires
        name.len() > 0,
        forall|k: int| 0 <= k < name.len() ==> !is_ws(#[trigger] name[k]),
        gap.len() > 0,
        forall|k: int| 0 <= k < gap.len() ==> is_ws(#[trigger] gap[k]),
        samples.len() > 0,
        forall|k: int| 0 <= k < samples.len() ==> is_digit(#[trigger] samples[k]),
        decimal_value(samples) <= u64::MAX,
        forall|k: int| 0 <= k < units.len() ==> #[trigger] units[k] != ']',
        spec_numbers(
            stats_line_head(name, gap, samples, units) + tail,
            stats_line_head(name, gap, samples, units).len() as int,
            (stats_line_head(name, gap, samples, units) + tail).len() as int,
        ) matches Some(ns) && (ns.len() == 3 || ns.len() == 4),
    ensures
        ({
            let line = stats_line_head(name, gap, samples, units) + tail;
            let ns = spec_numbers(
                line,
                stats_line_head(name, gap, samples, units).len() as int,
                line.len() as int,
            )->0;
            spec_parse_line(line, 0, line.len() as int, norm) matches Some(st) && st.name == (if norm {
                spec_normalize(name)
            } else {
                name
            }) && st.samples == decimal_value(samples) && st.units == units && st.min == Some(ns[0])
                && st.max == Some(ns[1]) && st.sum == Some(ns[2]) && st.sumsquare == (if ns.len()
                == 4 {
                Some(ns[3])
            } else {
                None
            })
        }),
{
    reveal_strlit(" samples [");
    reveal_strlit("]");
    let head = stats_line_head(name, gap, samples, units);
    let line = head + tail;
    let lit = " samples ["@;
    let nl = name.len() as int;
    let st = nl + gap.len();
    let p = st + samples.len();
    let r0 = p + 10;
    let r = r0 + units.len();
    assert(head.len() == r + 1);
    assert forall|k: int| 0 <= k < nl implies #[trigger] line[k] == name[k] by {}
    assert forall|k: int| nl <= k < st implies #[trigger] line[k] == gap[k - nl] by {}
    assert forall|k: int| st <= k < p implies #[trigger] line[k] == samples[k - st] by {}
    assert forall|k: int| 0 <= k < units.len() implies #[trigger] line[r0 + k] == units[k] by {}
    assert(line[r] == ']');
    assert(line.subrange(p, p + 10) =~= lit);
    assert forall|q: int| 0 <= q < p implies !#[trigger] lit_at(line, q, lit) by {
        if lit_at(line, q, lit) {
            assert(line.subrange(q, q + 10)[0] == ' ');
            assert(line.subrange(q, q + 10)[1] == 's');
            assert(line[q] == ' ');
            assert(line[q + 1] == 's');
            if q < nl {
                assert(!is_ws(name[q]));
            } else if q + 1 < st {
                assert(is_ws(gap[q + 1 - nl]));
            } else if q + 1 == st {
                assert(is_digit(samples[0]));
            } else {
                assert(is_digit(samples[q - st]));
            }
        }
    }
    lemma_find_lit_first(line, 0, line.len() as int, lit, p);
    assert(is_digit(samples[samples.len() - 1]));
    assert(line[p - 1] == samples[samples.len() - 1]);
    assert(rscan_ws(line, 0, p) == p);
    assert forall|k: int| st - 1 < k < p implies !is_ws(#[trigger] line[k]) by {
        assert(is_digit(samples[k - st]));
    }
    assert(is_ws(gap[gap.len() - 1]));
    lemma_rfind_ws_at(line, 0, p, st - 1);
    assert(is_digit(samples[0]));
    lemma_scan_upto(line, st, p, CharClass::Digit);
    if scan_upto(line, st, p, CharClass::Digit) < p {
        let e = scan_upto(line, st, p, CharClass::Digit);
        assert(is_digit(samples[e - st]));
    }
    assert(line.subrange(st, p) =~= samples);
    assert forall|q: int| r0 <= q < r implies #[trigger] line[q] != ']' by {
        assert(line[q] == units[q - r0]);
    }
    lemma_find_char_first(line, r0, line.len() as int, ']', r);
    assert(line.subrange(r0, r) =~= units);
    assert(!is_ws(name[0]));
    assert(!is_ws(name[nl - 1]));
    assert(scan_upto(line, 0, st - 1, CharClass::Whitespace) == 0);
    assert forall|k: int| nl <= k < st - 1 implies is_ws(#[trigger] line[k]) by {
        assert(is_ws(gap[k - nl]));
    }
    lemma_rscan_ws_to(line, 0, st - 1, nl);
    assert(line.subrange(0, nl) =~= name);
}

fn parse_region(s: &[char], lo: usize, hi: usize, norm: bool) -> (r: Option<Stat>)
    requires
        lo <= hi <= s@.len(),
    ensures
        match r {
            Some(x) => spec_parse_line(s@, lo as int, hi as int, norm) == Some(x.deep_view()),
            None => spec_parse_line(s@, lo as int, hi as int, norm) is None,
        },
{
    let p = match find_literal(s, lo, hi, " samples [") {
        Some(p) => p,
        None => return None,
    };
    let t = rskip_ws(s, lo, p);
    let q = match rfind_whitespace(s, lo, t) {
        Some(q) => q,
        None => return None,
    };
    let samples = match parse_u64(s, q + 1, t) {
        Some(v) => v,
        None => return None,
    };
    let r0 = match match_lit(s, p, " samples [") {
        Some(j) => j,
        None => return None,
    };
    let r = match find_character(s, r0, hi, ']') {
        Some(r) => r,
        None => return None,
    };
    let nums = match numbers(s, r + 1, hi) {
        Some(v) => v,
        None => return None,
    };
    let n = nums.len();
    if !(n == 0 || n == 3 || n == 4) {
        return None;
    }
    let n0 = scan_class_upto(s, lo, q, CharClass::Whitespace);
    let n1 = rskip_ws(s, n0, q);
    let name = if norm { normalize_region(s, n0, n1) } else { string_of(s, n0, n1) };
    let units = string_of(s, r0, r);
    let (min, max, sum) = if n >= 3 {
        (Some(nums[0]), Some(nums[1]), Some(nums[2]))
    } else {
        (None, None, None)
    };
    let sumsquare = if n == 4 { Some(nums[3]) } else { None };
    Some(Stat { name, units, samples, min, max, sum, sumsquare })
}

/// `name<spaces><samples> samples [<units>]<optional min max sum sumsq>`,
/// the name normalized.
pub fn parse_line(line: &str) -> (r: Option<Stat>)
    ensures
        match r {
            Some(x) => spec_parse_line(line@, 0, line@.len() as int, true) == Some(x.deep_view()),
            None => spec_parse_line(line@, 0, line@.len() as int, true) is None,
        },
{
    let s = chars_of(line);
    parse_region(s.as_slice(), 0, s.len(), true)
}

/// A stats line and its newline.
pub open spec fn spec_stat_line(s: Seq<char>, i: int, norm: bool) -> Option<(StatView, int)> {
    let a = scan(s, i, CharClass::NotNewline);
    if !char_at(s, a, '\n') {
        None
    } else {
        match spec_parse_line(s, i, a, norm) {
            Some(x) => Some((x, a + 1)),
            None => None,
        }
    }
}

pub proof fn lemma_stat_line(s: Seq<char>, i: int, norm: bool)
    requires
        0 <= i <= s.len(),
    ensures
        spec_stat_line(s, i, norm) matches Some((_, j)) ==> i < j <= s.len(),
{
    lemma_scan(s, i, CharClass::NotNewline);
}

pub fn stat_line(s: &[char], i: usize, norm: bool) -> (r: Option<(Stat, usize)>)
    requires
        i <= s@.len(),
    ensures
        match r {
            Some((x, j)) => spec_stat_line(s@, i as int, norm) == Some((x.deep_view(), j as int)),
            None => spec_stat_line(s@, i as int, norm) is None,
        },
        r matches Some((_, j)) ==> i < j <= s.len(),
{
    let a = scan_class(s, i, CharClass::NotNewline);
    if !is_char_at(s, a, '\n') {
        return None;
    }
    match parse_region(s, i, a, norm) {
        Some(x) => Some((x, a + 1)),
        None => None,
    }
}

/// The stats lines at `i`, up to the first line that is not one.
pub open spec fn spec_stat_lines(s: Seq<char>, i: int, norm: bool) -> (Seq<StatView>, int)
    decreases s.len() - i,
{
    if 0 <= i <= s.len() {
        match spec_stat_line(s, i, norm) {
            Some((x, j)) => {
                proof {
                    lemma_stat_line(s, i, norm);
                }
                let (rest, k) = spec_stat_lines(s, j, norm);
                (seq![x] + rest, k)
            },
            None => (Seq::empty(), i),
        }
    } else {
        (Seq::empty(), i)
    }
}

pub fn stat_lines(s: &[char], i: usize, norm: bool) -> (r: (Vec<Stat>, usize))
    requires
        i <= s@.len(),
    ensures
        spec_stat_lines(s@, i as int, norm) == (r.0.deep_view(), r.1 as int),
        i <= r.1 <= s.len(),
{
    let mut xs: Vec<Stat> = Vec::new();
    let mut j = i;
    loop
        invariant
            i <= j <= s.len(),
            spec_stat_lines(s@, i as int, norm) == (
                xs.deep_view() + spec_stat_lines(s@, j as int, norm).0,
                spec_stat_lines(s@, j as int, norm).1,
            ),
        decreases s@.len() - j,
    {
        match stat_line(s, j, norm) {
            Some((x, k)) => {
                let ghost before = xs.deep_view();
                let ghost xv = x.deep_view();
                xs.push(x);
                proof {
                    assert(xs.deep_view() =~= before.push(xv));
                    assert(before + spec_stat_lines(s@, j as int, norm).0 =~= xs.deep_view()
                        + spec_stat_lines(s@, k as int, norm).0);
                }
                j = k;
            },
            None => {
                proof {
                    assert(xs.deep_view() + spec_stat_lines(s@, j as int, norm).0 =~= xs.deep_view());
                }
                return (xs, j);
            },
        }
    }
}

/// A stats block: an optional newline, the header, then the stats lines,
/// their names normalized when `norm`.
pub open spec fn spec_stats_block(s: Seq<char>, i: int, norm: bool) -> Option<((StatsHeaderView, Seq<StatView>), int)> {
    match spec_header(s, i) {
        Some((h, a)) => {
            let (xs, b) = spec_stat_lines(s, a, norm);
            Some(((h, xs), b))
        },
        None => None,
    }
}

fn stats_block(s: &[char], i: usize, norm: bool) -> (r: Option<((StatsHeader, Vec<Stat>), usize)>)
    requires
        i <= s@.len(),
    ensures
        match r {
            Some(((h, xs), j)) => spec_stats_block(s@, i as int, norm) == Some(
                ((h.deep_view(), xs.deep_view()), j as int),
            ),
            None => spec_stats_block(s@, i as int, norm) is None,
        },
        r matches Some((_, j)) ==> i < j <= s.len(),
{
    let (h, a) = match header(s, i) {
        Some(x) => x,
        None => return None,
    };
    let (xs, b) = stat_lines(s, a, norm);
    Some(((h, xs), b))
}

/// `*.stats` and `mdc.*.md_stats`.
pub fn stats(s: &[char], i: usize) -> (r: Option<((StatsHeader, Vec<Stat>), usize)>)
    requires
        i <= s@.len(),
    ensures
        match r {
            Some(((h, xs), j)) => spec_stats_block(s@, i as int, false) == Some(
                ((h.deep_view(), xs.deep_view()), j as int),
            ),
            None => spec_stats_block(s@, i as int, false) is None,
        },
        r matches Some((_, j)) ==> i < j <= s.len(),
{
    stats_block(s, i, false)
}

/// `llite.*.read_ahead_stats`, names normalized.
pub fn read_ahead_stats(s: &[char], i: usize) -> (r: Option<((StatsHeader, Vec<Stat>), usize)>)
    requires
        i <= s@.len(),
    ensures
        match r {
            Some(((h, xs), j)) => spec_stats_block(s@, i as int, true) == Some(
                ((h.deep_view(), xs.deep_view()), j as int),
            ),
            None => spec_stats_block(s@, i as int, true) is None,
        },
        r matches Some((_, j)) ==> i < j <= s.len(),
{
    stats_block(s, i, true)
}

} // verus!
