//! `lctl get_param` output: a sequence of parameters, each a `<name>=` line
//! and its value.

use crate::exports;
use crate::llite;
use crate::mdc;
use crate::osc;
use crate::osc::{number_line, spec_number_line};
use crate::text::{
    CharClass, char_at, chars_of, is_char_at, param, scan, scan_class, spec_param,
    string_of,
};
use crate::types::{HostStats, HostStatsView, Record, RecordView};
use vstd::prelude::*;
use vstd::string::StringSliceAdditionalSpecFns;
use vstd::utf8::{decode_utf8, valid_utf8};

verus! {

broadcast use vstd::utf8::encode_utf8_decode_utf8;

/// Why a block of output yields no records.
#[derive(Debug, Clone, PartialEq, Eq)]
pub enum LustreCollectorError {
    /// The bytes are not UTF-8.
    Utf8,
    /// Nothing parses at this character position.
    Parse(usize),
}

/// `memused=`, `memused_max=` and `lnet_memused=` with a number, or
/// `health_check=` with the rest of its line.
pub open spec fn spec_host(s: Seq<char>, i: int) -> Option<(HostStatsView, int)> {
    match spec_param(s, i, "memused"@) {
        Some(a) => match spec_number_line(s, a) {
            Some((x, b)) => Some((HostStatsView::MemUsed(x), b)),
            None => None,
        },
        None => match spec_param(s, i, "memused_max"@) {
            Some(a) => match spec_number_line(s, a) {
                Some((x, b)) => Some((HostStatsView::MemUsedMax(x), b)),
                None => None,
            },
            None => match spec_param(s, i, "lnet_memused"@) {
                Some(a) => match spec_number_line(s, a) {
                    Some((x, b)) => Some((HostStatsView::LNetMemUsed(x), b)),
                    None => None,
                },
                None => match spec_param(s, i, "health_check"@) {
                    Some(a) => {
                        let b = scan(s, a, CharClass::NotNewline);
                        if char_at(s, b, '\n') {
                            Some((HostStatsView::HealthCheck(s.subrange(a, b)), b + 1))
                        } else {
                            None
                        }
                    },
                    None => None,
                },
            },
        },
    }
}

pub fn host(s: &[char], i: usize) -> (r: Option<(HostStats, usize)>)
    requires
        i <= s@.len(),
    ensures
        match r {
            Some((x, j)) => spec_host(s@, i as int) == Some((x.deep_view(), j as int)),
            None => spec_host(s@, i as int) is None,
        },
        r matches Some((_, j)) ==> i < j <= s.len(),
{
    if let Some(a) = param(s, i, "memused") {
        return match number_line(s, a) {
            Some((x, b)) => Some((HostStats::MemUsed(x), b)),
            None => None,
        };
    }
    if let Some(a) = param(s, i, "memused_max") {
        return match number_line(s, a) {
            Some((x, b)) => Some((HostStats::MemUsedMax(x), b)),
            None => None,
        };
    }
    if let Some(a) = param(s, i, "lnet_memused") {
        return match number_line(s, a) {
            Some((x, b)) => Some((HostStats::LNetMemUsed(x), b)),
            None => None,
        };
    }
    if let Some(a) = param(s, i, "health_check") {
        let b = scan_class(s, a, CharClass::NotNewline);
        if is_char_at(s, b, '\n') {
            return Some((HostStats::HealthCheck(string_of(s, a, b)), b + 1));
        }
        return None;
    }
    None
}

/// A parameter and its value: a host value, else an llite, osc, mdc or
/// exports one.
pub open spec fn spec_record(s: Seq<char>, i: int) -> Option<(RecordView, int)> {
    match spec_host(s, i) {
        Some((x, j)) => Some((RecordView::Host(x), j)),
        None => match llite::spec_llite(s, i) {
            Some((x, j)) => Some((RecordView::Target(x), j)),
            None => match osc::spec_osc(s, i) {
                Some((x, j)) => Some((RecordView::Controller(x), j)),
                None => match mdc::spec_mdc(s, i) {
                    Some((x, j)) => Some((RecordView::Controller(x), j)),
                    None => match exports::spec_exports(s, i) {
                        Some((x, j)) => Some((RecordView::Target(x), j)),
                        None => None,
                    },
                },
            },
        },
    }
}

pub fn record(s: &[char], i: usize) -> (r: Option<(Record, usize)>)
    requires
        i <= s@.len(),
    ensures
        match r {
            Some((x, j)) => spec_record(s@, i as int) == Some((x.deep_view(), j as int)),
            None => spec_record(s@, i as int) is None,
        },
        r matches Some((_, j)) ==> i < j <= s.len(),
{
    if let Some((x, j)) = host(s, i) {
        return Some((Record::Host(x), j));
    }
    if let Some((x, j)) = llite::parse(s, i) {
        return Some((Record::Target(x), j));
    }
    if let Some((x, j)) = osc::parse(s, i) {
        return Some((Record::Controller(x), j));
    }
    if let Some((x, j)) = mdc::parse(s, i) {
        return Some((Record::Controller(x), j));
    }
    if let Some((x, j)) = exports::exports(s, i) {
        return Some((Record::Target(x), j));
    }
    None
}

/// The records at `i`, up to the first position where none parses.
pub open spec fn spec_records(s: Seq<char>, i: int) -> (Seq<RecordView>, int)
    decreases s.len() - i,
{
    if 0 <= i <= s.len() {
        match spec_record(s, i) {
            Some((x, j)) if i < j <= s.len() => {
                let (rest, k) = spec_records(s, j);
                (seq![x] + rest, k)
            },
            _ => (Seq::empty(), i),
        }
    } else {
        (Seq::empty(), i)
    }
}

pub fn records(s: &[char], i: usize) -> (r: (Vec<Record>, usize))
    requires
        i <= s@.len(),
    ensures
        spec_records(s@, i as int) == (r.0.deep_view(), r.1 as int),
        i <= r.1 <= s.len(),
{
    let mut xs: Vec<Record> = Vec::new();
    let mut j = i;
    loop
        invariant
            i <= j <= s.len(),
            spec_records(s@, i as int) == (
                xs.deep_view() + spec_records(s@, j as int).0,
                spec_records(s@, j as int).1,
            ),
        decreases s@.len() - j,
    {
        match record(s, j) {
            Some((x, k)) => {
                let ghost before = xs.deep_view();
                let ghost xv = x.deep_view();
                xs.push(x);
                proof {
                    assert(xs.deep_view() =~= before.push(xv));
                    assert(before + spec_records(s@, j as int).0 =~= xs.deep_view()
                        + spec_records(s@, k as int).0);
                }
                j = k;
            },
            None => {
                proof {
                    assert(xs.deep_view() + spec_records(s@, j as int).0 =~= xs.deep_view());
                }
                return (xs, j);
            },
        }
    }
}

/// What the text of some `lctl get_param` output parses to: the records,
/// when they run to its end.
pub open spec fn spec_parse_text(s: Seq<char>) -> Result<Seq<RecordView>, LustreCollectorError> {
    let (xs, j) = spec_records(s, 0);
    if j == s.len() {
        Ok(xs)
    } else {
        Err(LustreCollectorError::Parse(j as usize))
    }
}

/// What a block of `lctl get_param` output parses to: an error for bytes
/// that are not UTF-8, else what its text parses to.
pub open spec fn spec_parse_lctl(bytes: Seq<u8>) -> Result<Seq<RecordView>, LustreCollectorError> {
    if !valid_utf8(bytes) {
        Err(LustreCollectorError::Utf8)
    } else {
        spec_parse_text(decode_utf8(bytes))
    }
}

/// `std::str::from_utf8`: the bytes as text when they are UTF-8.
#[verifier::external_body]
fn utf8_text(bytes: &[u8]) -> (r: Option<&str>)
    ensures
        r is Some <==> valid_utf8(bytes@),
        r matches Some(s) ==> s.spec_bytes() == bytes@,
{
    std::str::from_utf8(bytes).ok()
}

pub fn parse_lctl_text(text: &str) -> (r: Result<Vec<Record>, LustreCollectorError>)
    ensures
        match r {
            Ok(xs) => spec_parse_text(text@) == Ok::<Seq<RecordView>, LustreCollectorError>(
                xs.deep_view(),
            ),
            Err(e) => spec_parse_text(text@) == Err::<Seq<RecordView>, LustreCollectorError>(e),
        },
{
    let v = chars_of(text);
    let (xs, j) = records(v.as_slice(), 0);
    if j == v.len() {
        Ok(xs)
    } else {
        Err(LustreCollectorError::Parse(j))
    }
}

/// Parses one block of `lctl get_param` output (one parameter, or a
/// target's exports) into records.
pub fn parse_lctl_block(block: &[u8]) -> (r: Result<Vec<Record>, LustreCollectorError>)
    ensures
        match r {
            Ok(xs) => spec_parse_lctl(block@) == Ok::<Seq<RecordView>, LustreCollectorError>(
                xs.deep_view(),
            ),
            Err(e) => spec_parse_lctl(block@) == Err::<Seq<RecordView>, LustreCollectorError>(e),
        },
{
    match utf8_text(block) {
        None => Err(LustreCollectorError::Utf8),
        Some(text) => parse_lctl_text(text),
    }
}

/// Parses the whole of some `lctl get_param` output into records.
pub fn parse_lctl_output(output: &[u8]) -> (r: Result<Vec<Record>, LustreCollectorError>)
    ensures
        match r {
            Ok(xs) => spec_parse_lctl(output@) == Ok::<Seq<RecordView>, LustreCollectorError>(
                xs.deep_view(),
            ),
            Err(e) => spec_parse_lctl(output@) == Err::<Seq<RecordView>, LustreCollectorError>(e),
        },
{
    parse_lctl_block(output)
}

/// The parameters the parser reads, as `lctl get_param` patterns: the host
/// values, then llite, osc and mdc.
pub fn params() -> (r: Vec<String>)
    ensures
        r.deep_view() == seq!["memused"@, "memused_max"@, "lnet_memused"@, "health_check"@]
            + llite::spec_params() + osc::spec_params() + mdc::spec_params(),
{
    let mut r: Vec<String> = Vec::new();
    r.push("memused".to_owned());
    r.push("memused_max".to_owned());
    r.push("lnet_memused".to_owned());
    r.push("health_check".to_owned());
    let ghost host = r.deep_view();
    let mut l = llite::params();
    let mut o = osc::params();
    let mut m = mdc::params();
    let ghost lv = l.deep_view();
    let ghost ov = o.deep_view();
    let ghost mv = m.deep_view();
    r.append(&mut l);
    r.append(&mut o);
    r.append(&mut m);
    proof {
        assert(r.deep_view() =~= host + lv + ov + mv);
    }
    r
}


/// Whether reading records of `s` from `i` reaches position `p`: `p` is `i`,
/// or the record at `i` parses and the reading from its end reaches `p`.
pub open spec fn reaches(s: Seq<char>, i: int, p: int) -> bool
    decreases s.len() - i,
{
    if i == p {
        true
    } else if 0 <= i <= s.len() {
        match spec_record(s, i) {
            Some((_, j)) => if i < j <= s.len() {
                reaches(s, j, p)
            } else {
                false
            },
            None => false,
        }
    } else {
        false
    }
}

/// The records read from `i` that start before `e`.
pub open spec fn records_between(s: Seq<char>, i: int, e: int) -> Seq<RecordView>
    decreases s.len() - i,
{
    if i < e && 0 <= i <= s.len() {
        match spec_record(s, i) {
            Some((x, j)) => if i < j <= s.len() {
                seq![x] + records_between(s, j, e)
            } else {
                Seq::empty()
            },
            None => Seq::empty(),
        }
    } else {
        Seq::empty()
    }
}

/// A record parse result with its end moved back by `o`.
pub open spec fn shifted(r: Option<(RecordView, int)>, o: int) -> Option<(RecordView, int)> {
    match r {
        Some((x, j)) => Some((x, j - o)),
        None => None,
    }
}

pub proof fn lemma_reaches_forward(s: Seq<char>, i: int, p: int)
    requires
        0 <= i,
        reaches(s, i, p),
    ensures
        i <= p,
    decreases s.len() - i,
{
    if i != p {
        if let Some((_, j)) = spec_record(s, i) {
            lemma_reaches_forward(s, j, p);
        }
    }
}

/// The reading from `i` reaches where `spec_records` stops.
pub proof fn lemma_reaches_end(s: Seq<char>, i: int)
    requires
        0 <= i <= s.len(),
    ensures
        reaches(s, i, spec_records(s, i).1),
    decreases s.len() - i,
{
    if let Some((_, j)) = spec_record(s, i) {
        if i < j <= s.len() {
            lemma_reaches_end(s, j);
        }
    }
}

pub proof fn lemma_reaches_trans(s: Seq<char>, i: int, p: int, q: int)
    requires
        0 <= i,
        reaches(s, i, p),
        reaches(s, p, q),
    ensures
        reaches(s, i, q),
    decreases s.len() - i,
{
    if i != p {
        if let Some((_, j)) = spec_record(s, i) {
            lemma_reaches_forward(s, j, p);
            lemma_reaches_trans(s, j, p, q);
        }
    }
}

/// Of two positions the reading reaches, the later is reached from the earlier.
pub proof fn lemma_reaches_between(s: Seq<char>, i: int, p: int, q: int)
    requires
        0 <= i,
        reaches(s, i, p),
        reaches(s, i, q),
        p <= q,
    ensures
        reaches(s, p, q),
    decreases s.len() - i,
{
    if i != p {
        lemma_reaches_forward(s, i, p);
        if let Some((_, j)) = spec_record(s, i) {
            lemma_reaches_forward(s, j, p);
            lemma_reaches_between(s, j, p, q);
        }
    }
}

/// The records of `s[o..e]` read on their own, where `e` is reached from `i`
/// and every record read from `i` before `e` parses from `s[o..e]` as it
/// does from `s`: those records, up to `e`; and the reading of `s` from `i`
/// is they followed by the reading from `e`.
pub proof fn lemma_segment(s: Seq<char>, o: int, e: int, i: int)
    requires
        0 <= o <= i <= e <= s.len(),
        reaches(s, i, e),
        forall|p: int|
            #![trigger reaches(s, i, p)]
            reaches(s, i, p) && p < e ==> spec_record(s.subrange(o, e), p - o) == shifted(
                spec_record(s, p),
                o,
            ),
    ensures
        spec_records(s.subrange(o, e), i - o) == (records_between(s, i, e), e - o),
        spec_records(s, i) == (
            records_between(s, i, e) + spec_records(s, e).0,
            spec_records(s, e).1,
        ),
    decreases s.len() - i,
{
    let b = s.subrange(o, e);
    if i == e {
        assert(records_between(s, i, e) + spec_records(s, e).0 =~= spec_records(s, e).0);
    } else {
        let (x, j) = spec_record(s, i)->0;
        assert(reaches(s, i, i));
        assert(spec_record(b, i - o) == shifted(spec_record(s, i), o));
        lemma_reaches_forward(s, j, e);
        assert forall|p: int| #![trigger reaches(s, j, p)]
            reaches(s, j, p) && p < e implies spec_record(b, p - o) == shifted(
                spec_record(s, p),
                o,
            ) by {
            assert(reaches(s, i, p));
        }
        lemma_segment(s, o, e, j);
        assert(seq![x] + records_between(s, j, e) + spec_records(s, e).0 =~= seq![x] + (
        records_between(s, j, e) + spec_records(s, e).0));
    }
}

} // verus!
