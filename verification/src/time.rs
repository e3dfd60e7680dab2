//! The `snapshot_time` / `start_time` / `elapsed_time` header of stats blocks.

use crate::text::{
    CharClass, char_at, digits, is_char_at, lemma_scan, lit_at, match_lit, push_char, scan,
    scan_class, skip_ws, spec_decimal, spec_digits, u64_to_string, ws,
};
use crate::types::{StatsHeader, StatsHeaderView};
use vstd::prelude::*;

verus! {

/// `nsecs` zero-padded on the left to nine digits (`{nsecs:0>9}`).
pub open spec fn pad_nanos(d: Seq<char>) -> Seq<char> {
    if d.len() >= 9 {
        d
    } else {
        Seq::new((9 - d.len()) as nat, |k: int| '0') + d
    }
}

/// `<name>[:] <secs>.<spaces><nsecs><rest of line>`, read as
/// `<secs>.<nsecs padded to nine digits>`; the newline is not consumed.
/// Before 2.14.56 mdc `rpc_stats` padded `nsecs` with spaces.
pub open spec fn spec_time(s: Seq<char>, i: int, name: Seq<char>) -> Option<(Seq<char>, int)> {
    if !lit_at(s, i, name) {
        None
    } else {
        let a = i + name.len();
        let b = if char_at(s, a, ':') { a + 1 } else { a };
        match spec_digits(s, ws(s, b)) {
            None => None,
            Some((secs, d)) => {
                if !char_at(s, d, '.') {
                    None
                } else {
                    let e = scan(s, d + 1, CharClass::Space);
                    let f = scan(s, e, CharClass::Digit);
                    if f == e {
                        None
                    } else {
                        Some((
                            spec_decimal(secs as nat) + seq!['.'] + pad_nanos(s.subrange(e, f)),
                            scan(s, f, CharClass::NotNewline),
                        ))
                    }
                }
            },
        }
    }
}

pub fn time(s: &[char], i: usize, name: &str) -> (r: Option<(String, usize)>)
    requires
        i <= s@.len(),
    ensures
        match r {
            Some((t, j)) => spec_time(s@, i as int, name@) == Some((t@, j as int)),
            None => spec_time(s@, i as int, name@) is None,
        },
        r matches Some((_, j)) ==> i <= j <= s@.len(),
{
    let a = match match_lit(s, i, name) {
        Some(a) => a,
        None => return None,
    };
    let b = if is_char_at(s, a, ':') { a + 1 } else { a };
    let c = skip_ws(s, b);
    let (secs, d) = match digits(s, c) {
        Some(x) => x,
        None => return None,
    };
    if !is_char_at(s, d, '.') {
        return None;
    }
    let e = scan_class(s, d + 1, CharClass::Space);
    let f = scan_class(s, e, CharClass::Digit);
    if f == e {
        return None;
    }
    let g = scan_class(s, f, CharClass::NotNewline);
    let mut t = u64_to_string(secs);
    push_char(&mut t, '.');
    let ghost prefix = t@;
    let mut k: usize = f - e;
    while k < 9
        invariant
            f - e <= k,
            k <= 9 || k == f - e,
            t@ == prefix + Seq::new((k - (f - e)) as nat, |x: int| '0'),
        decreases 9 - k,
    {
        push_char(&mut t, '0');
        proof {
            assert(prefix + Seq::new((k + 1 - (f - e)) as nat, |x: int| '0') =~= (prefix + Seq::new(
                (k - (f - e)) as nat,
                |x: int| '0',
            )).push('0'));
        }
        k += 1;
    }
    let ghost padded = t@;
    let mut m = e;
    while m < f
        invariant
            e <= m <= f <= s@.len(),
            t@ == padded + s@.subrange(e as int, m as int),
        decreases f - m,
    {
        push_char(&mut t, s[m]);
        proof {
            assert(s@.subrange(e as int, m + 1) =~= s@.subrange(e as int, m as int).push(s@[m as int]));
        }
        m += 1;
    }
    proof {
        let digits = s@.subrange(e as int, f as int);
        if digits.len() >= 9 {
            assert(padded =~= prefix);
        } else {
            assert(padded =~= prefix + Seq::new((9 - digits.len()) as nat, |x: int| '0'));
        }
        assert(t@ =~= spec_decimal(secs as nat) + seq!['.'] + pad_nanos(digits));
    }
    Some((t, g))
}

/// The header of a stats block: `snapshot_time`, then `start_time` and
/// `elapsed_time` (2.14.52+), each on a line of its own. A `start_time` line
/// commits the parse to an `elapsed_time` line.
pub open spec fn spec_time_triple(s: Seq<char>, i: int) -> Option<(StatsHeaderView, int)> {
    match spec_time(s, i, "snapshot_time"@) {
        None => None,
        Some((snapshot, a)) => {
            if !char_at(s, a, '\n') {
                None
            } else {
                match spec_time(s, a + 1, "start_time"@) {
                    Some((start, b)) if char_at(s, b, '\n') => {
                        match spec_time(s, b + 1, "elapsed_time"@) {
                            Some((_, c)) if char_at(s, c, '\n') => Some((
                                StatsHeaderView { snapshot_time: snapshot, start_time: Some(start) },
                                c + 1,
                            )),
                            _ => None,
                        }
                    },
                    _ => Some((StatsHeaderView { snapshot_time: snapshot, start_time: None }, a + 1)),
                }
            }
        },
    }
}

/// A stats header takes its snapshot time from the `snapshot_time` line it
/// starts with, and its start time, when there is one, from the
/// `start_time` line right after it.
pub proof fn header_times_come_from_their_lines(s: Seq<char>, i: int)
    ensures
        spec_time_triple(s, i) matches Some((h, _)) ==> {
            &&& spec_time(s, i, "snapshot_time"@) matches Some((t, a))
            &&& t == h.snapshot_time
            &&& (h.start_time matches Some(st) ==> spec_time(s, a + 1, "start_time"@) matches Some((
                u,
                _,
            )) && u == st)
        },
{
}

pub fn time_triple(s: &[char], i: usize) -> (r: Option<(StatsHeader, usize)>)
    requires
        i <= s@.len(),
    ensures
        match r {
            Some((h, j)) => spec_time_triple(s@, i as int) == Some((h.deep_view(), j as int)),
            None => spec_time_triple(s@, i as int) is None,
        },
        r matches Some((_, j)) ==> i < j <= s@.len(),
{
    let (snapshot, a) = match time(s, i, "snapshot_time") {
        Some(x) => x,
        None => return None,
    };
    if !is_char_at(s, a, '\n') {
        return None;
    }
    proof {
        lemma_time_end(s@, i as int, "snapshot_time"@);
    }
    match time(s, a + 1, "start_time") {
        Some((start, b)) if is_char_at(s, b, '\n') => {
            proof {
                lemma_time_end(s@, a + 1, "start_time"@);
            }
            match time(s, b + 1, "elapsed_time") {
                Some((_, c)) if is_char_at(s, c, '\n') => {
                    proof {
                        lemma_time_end(s@, b + 1, "elapsed_time"@);
                    }
                    Some((StatsHeader { snapshot_time: snapshot, start_time: Some(start) }, c + 1))
                },
                _ => None,
            }
        },
        _ => Some((StatsHeader { snapshot_time: snapshot, start_time: None }, a + 1)),
    }
}

/// A time line ends within the input.
pub proof fn lemma_time_end(s: Seq<char>, i: int, name: Seq<char>)
    requires
        0 <= i <= s.len(),
        spec_time(s, i, name) is Some,
    ensures
        i <= spec_time(s, i, name).unwrap().1 <= s.len(),
{
    let a = i + name.len();
    let b = if char_at(s, a, ':') { a + 1 } else { a };
    lemma_scan(s, b, CharClass::Whitespace);
    let c = ws(s, b);
    lemma_scan(s, c, CharClass::Digit);
    let d = spec_digits(s, c).unwrap().1;
    lemma_scan(s, d + 1, CharClass::Space);
    let e = scan(s, d + 1, CharClass::Space);
    lemma_scan(s, e, CharClass::Digit);
    let f = scan(s, e, CharClass::Digit);
    lemma_scan(s, f, CharClass::NotNewline);
}

} // verus!
