//! `mdt.<target>.exports.<nid>.uuid=` and `obdfilter.<target>.exports.<nid>.uuid=`:
//! the UUIDs of the clients a server target exports to one NID.

use crate::osc::at_next_param;
use crate::text::{
    CharClass, char_at, device, is_char_at, lemma_scan, lit_at, match_lit, scan, scan_class,
    spec_device, string_of,
};
use crate::types::{ExportUuids, ExportUuidsView, Target, TargetStats, TargetStatsView, TargetVariant};
use vstd::prelude::*;

verus! {

/// The non-empty lines from `i` up to the next parameter or the end of the
/// input, and where they end; `None` at an empty or unterminated line
/// before that.
pub open spec fn spec_value_lines(s: Seq<char>, i: int) -> Option<(Seq<Seq<char>>, int)>
    decreases s.len() - i,
{
    if !(0 <= i <= s.len()) {
        None
    } else if at_next_param(s, i) {
        Some((Seq::empty(), i))
    } else {
        let a = scan(s, i, CharClass::NotNewline);
        proof {
            lemma_scan(s, i, CharClass::NotNewline);
        }
        if a > i && char_at(s, a, '\n') {
            match spec_value_lines(s, a + 1) {
                Some((rest, e)) => Some((seq![s.subrange(i, a)] + rest, e)),
                None => None,
            }
        } else {
            None
        }
    }
}

proof fn lemma_value_lines(s: Seq<char>, i: int)
    ensures
        spec_value_lines(s, i) matches Some((_, e)) ==> i <= e <= s.len(),
    decreases s.len() - i,
{
    if 0 <= i <= s.len() && !at_next_param(s, i) {
        lemma_scan(s, i, CharClass::NotNewline);
        let a = scan(s, i, CharClass::NotNewline);
        if a > i && char_at(s, a, '\n') {
            lemma_value_lines(s, a + 1);
        }
    }
}

pub fn value_lines(s: &[char], i: usize) -> (r: Option<(Vec<String>, usize)>)
    requires
        i <= s@.len(),
    ensures
        match r {
            Some((xs, j)) => spec_value_lines(s@, i as int) == Some((xs.deep_view(), j as int)),
            None => spec_value_lines(s@, i as int) is None,
        },
        r matches Some((_, j)) ==> i <= j <= s.len(),
{
    let mut xs: Vec<String> = Vec::new();
    let mut j = i;
    proof {
        lemma_value_lines(s@, i as int);
    }
    loop
        invariant
            i <= j <= s@.len(),
            forall|t: Seq<Seq<char>>, e: int|
                spec_value_lines(s@, j as int) == Some((t, e)) ==> spec_value_lines(s@, i as int) == Some(
                    (xs.deep_view() + t, e),
                ),
            spec_value_lines(s@, j as int) is None ==> spec_value_lines(s@, i as int) is None,
        decreases s@.len() - j,
    {
        let at_end = j == s.len() || is_char_at(s, scan_class(s, j, CharClass::NotNewlineOrEquals), '=');
        if at_end {
            proof {
                assert(xs.deep_view() + Seq::<Seq<char>>::empty() =~= xs.deep_view());
            }
            return Some((xs, j));
        }
        let a = scan_class(s, j, CharClass::NotNewline);
        if a > j && is_char_at(s, a, '\n') {
            let ghost before = xs.deep_view();
            let line = string_of(s, j, a);
            let ghost lv = line@;
            xs.push(line);
            proof {
                assert(xs.deep_view() =~= before.push(lv));
                assert forall|t: Seq<Seq<char>>, e: int|
                    spec_value_lines(s@, a + 1) == Some((t, e)) implies spec_value_lines(s@, i as int) == Some(
                    (xs.deep_view() + t, e),
                ) by {
                    assert(before + (seq![lv] + t) =~= xs.deep_view() + t);
                }
            }
            j = a + 1;
        } else {
            return None;
        }
    }
}

/// The kind of target a server device prefix names.
pub open spec fn server_kind(prefix: Seq<char>) -> TargetVariant {
    if prefix == "mdt"@ {
        TargetVariant::Mdt
    } else {
        TargetVariant::Ost
    }
}

/// `<prefix>.<target>.exports.<nid>.uuid=` and its lines: the target, the
/// NID (the rest of the header line before `.uuid=`, not empty) and the
/// UUIDs.
pub open spec fn spec_exports_of(s: Seq<char>, i: int, prefix: Seq<char>) -> Option<(ExportUuidsView, int)> {
    match spec_device(s, i, prefix) {
        Some((target, a)) => {
            if !lit_at(s, a, "exports."@) {
                None
            } else {
                let b = a + 8;
                let e = scan(s, b, CharClass::NotNewline);
                if char_at(s, e, '\n') && b < e - 6 && lit_at(s, e - 6, ".uuid="@) {
                    match spec_value_lines(s, e + 1) {
                        Some((uuids, f)) => Some(
                            (
                                ExportUuidsView {
                                    kind: server_kind(prefix),
                                    target,
                                    nid: s.subrange(b, e - 6),
                                    uuids,
                                },
                                f,
                            ),
                        ),
                        None => None,
                    }
                } else {
                    None
                }
            }
        },
        None => None,
    }
}

/// An `mdt` or `obdfilter` exports parameter.
pub open spec fn spec_exports(s: Seq<char>, i: int) -> Option<(TargetStatsView, int)> {
    match spec_exports_of(s, i, "mdt"@) {
        Some((x, j)) => Some((TargetStatsView::ExportUuids(x), j)),
        None => match spec_exports_of(s, i, "obdfilter"@) {
            Some((x, j)) => Some((TargetStatsView::ExportUuids(x), j)),
            None => None,
        },
    }
}

fn exports_of(s: &[char], i: usize, prefix: &str, kind: TargetVariant) -> (r: Option<(ExportUuids, usize)>)
    requires
        i <= s@.len(),
        kind == server_kind(prefix@),
    ensures
        match r {
            Some((x, j)) => spec_exports_of(s@, i as int, prefix@) == Some((x.deep_view(), j as int)),
            None => spec_exports_of(s@, i as int, prefix@) is None,
        },
        r matches Some((_, j)) ==> i < j <= s.len(),
{
    let (target, a) = match device(s, i, prefix) {
        Some(x) => x,
        None => return None,
    };
    let b = match match_lit(s, a, "exports.") {
        Some(b) => b,
        None => return None,
    };
    proof {
        reveal_strlit("exports.");
        reveal_strlit(".uuid=");
        lemma_scan(s@, b as int, CharClass::NotNewline);
    }
    let e = scan_class(s, b, CharClass::NotNewline);
    if !(is_char_at(s, e, '\n') && e >= 6 && b < e - 6) {
        return None;
    }
    match match_lit(s, e - 6, ".uuid=") {
        Some(_) => {},
        None => return None,
    }
    let nid = string_of(s, b, e - 6);
    match value_lines(s, e + 1) {
        Some((uuids, f)) => Some((ExportUuids { kind, target: Target(target), nid, uuids }, f)),
        None => None,
    }
}

pub fn exports(s: &[char], i: usize) -> (r: Option<(TargetStats, usize)>)
    requires
        i <= s@.len(),
    ensures
        match r {
            Some((x, j)) => spec_exports(s@, i as int) == Some((x.deep_view(), j as int)),
            None => spec_exports(s@, i as int) is None,
        },
        r matches Some((_, j)) ==> i < j <= s.len(),
{
    proof {
        reveal_strlit("mdt");
        reveal_strlit("obdfilter");
        assert("obdfilter"@ != "mdt"@) by {
            assert("obdfilter"@.len() != "mdt"@.len());
        }
    }
    if let Some((x, j)) = exports_of(s, i, "mdt", TargetVariant::Mdt) {
        return Some((TargetStats::ExportUuids(x), j));
    }
    match exports_of(s, i, "obdfilter", TargetVariant::Ost) {
        Some((x, j)) => Some((TargetStats::ExportUuids(x), j)),
        None => None,
    }
}

} // verus!
