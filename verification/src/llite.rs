//! Client (llite) parameters: `llite.<fsname-instance>.<param>`.

use crate::extents::{
    extents_stats, extents_stats_per_process, spec_extents_stats, spec_extents_stats_per_process,
};
use crate::key_value::{key_values, spec_key_values};
use crate::stats::{read_ahead_stats, spec_stats_block, stats};
use crate::text::{device, param, spec_device, spec_param};
use crate::types::{
    LliteStat, LliteStatView, LliteTargetStat, LliteTargetStatView, Param, Target, TargetStats,
    TargetStatsView,
};
use vstd::prelude::*;

verus! {

/// The parameters this parser reads, as `lctl get_param` patterns.
pub open spec fn spec_params() -> Seq<Seq<char>> {
    seq![
            "llite.*.stats"@,
            "llite.*.read_ahead_stats"@,
            "llite.*.extents_stats"@,
            "llite.*.extents_stats_per_process"@,
            "llite.*.statahead_stats"@,
            "llite.*.unstable_stats"@,
        ]
}

/// The parameters this parser reads, as `lctl get_param` patterns.
pub fn params() -> (r: Vec<String>)
    ensures
        r.deep_view() == spec_params(),
{
    let mut r: Vec<String> = Vec::new();
    r.push("llite.*.stats".to_owned());
    r.push("llite.*.read_ahead_stats".to_owned());
    r.push("llite.*.extents_stats".to_owned());
    r.push("llite.*.extents_stats_per_process".to_owned());
    r.push("llite.*.statahead_stats".to_owned());
    r.push("llite.*.unstable_stats".to_owned());
    proof {
        assert(r.deep_view() =~= spec_params());
    }
    r
}

/// `llite.<target>.<param>=` and the value: `stats`, `read_ahead_stats`,
/// `extents_stats_per_process`, `extents_stats`, `statahead_stats` or
/// `unstable_stats`, tried in that order; the first parameter whose name
/// matches decides, and its value must parse.
pub open spec fn spec_llite(s: Seq<char>, i: int) -> Option<(TargetStatsView, int)> {
    match spec_device(s, i, "llite"@) {
        None => None,
        Some((target, a)) => match spec_param(s, a, "stats"@) {
            Some(b) => match spec_stats_block(s, b, false) {
                Some(((header, stats), c)) => Some(
                    (
                        TargetStatsView::Llite(
                            LliteStatView { target, param: "stats"@, stats, header },
                        ),
                        c,
                    ),
                ),
                None => None,
            },
            None => match spec_param(s, a, "read_ahead_stats"@) {
                Some(b) => match spec_stats_block(s, b, true) {
                    Some(((header, stats), c)) => Some(
                        (
                            TargetStatsView::LliteReadAheadStats(
                                LliteStatView { target, param: "read_ahead_stats"@, stats, header },
                            ),
                            c,
                        ),
                    ),
                    None => None,
                },
                None => match spec_param(s, a, "extents_stats_per_process"@) {
                    Some(b) => match spec_extents_stats_per_process(s, b) {
                        Some((value, c)) => Some(
                            (
                                TargetStatsView::LliteExtentsStatsPerProcess(
                                    LliteTargetStatView {
                                        target,
                                        param: "extents_stats_per_process"@,
                                        value,
                                    },
                                ),
                                c,
                            ),
                        ),
                        None => None,
                    },
                    None => match spec_param(s, a, "extents_stats"@) {
                        Some(b) => match spec_extents_stats(s, b) {
                            Some((value, c)) => Some(
                                (
                                    TargetStatsView::LliteExtentsStats(
                                        LliteTargetStatView {
                                            target,
                                            param: "extents_stats"@,
                                            value,
                                        },
                                    ),
                                    c,
                                ),
                            ),
                            None => None,
                        },
                        None => match spec_param(s, a, "statahead_stats"@) {
                            Some(b) => match spec_key_values(s, b) {
                                Some((value, c)) => Some(
                                    (
                                        TargetStatsView::LliteStataheadStats(
                                            LliteTargetStatView {
                                                target,
                                                param: "statahead_stats"@,
                                                value,
                                            },
                                        ),
                                        c,
                                    ),
                                ),
                                None => None,
                            },
                            None => match spec_param(s, a, "unstable_stats"@) {
                                Some(b) => match spec_key_values(s, b) {
                                    Some((value, c)) => Some(
                                        (
                                            TargetStatsView::LliteUnstableStats(
                                                LliteTargetStatView {
                                                    target,
                                                    param: "unstable_stats"@,
                                                    value,
                                                },
                                            ),
                                            c,
                                        ),
                                    ),
                                    None => None,
                                },
                                None => None,
                            },
                        },
                    },
                },
            },
        },
    }
}

/// The llite parameter names are told apart.
proof fn lemma_llite_params_differ()
    ensures
        "stats"@ != "read_ahead_stats"@,
        "stats"@ != "extents_stats_per_process"@,
        "stats"@ != "extents_stats"@,
        "stats"@ != "statahead_stats"@,
        "stats"@ != "unstable_stats"@,
        "read_ahead_stats"@ != "extents_stats_per_process"@,
        "read_ahead_stats"@ != "extents_stats"@,
        "read_ahead_stats"@ != "statahead_stats"@,
        "read_ahead_stats"@ != "unstable_stats"@,
        "extents_stats_per_process"@ != "extents_stats"@,
        "extents_stats_per_process"@ != "statahead_stats"@,
        "extents_stats_per_process"@ != "unstable_stats"@,
        "extents_stats"@ != "statahead_stats"@,
        "extents_stats"@ != "unstable_stats"@,
        "statahead_stats"@ != "unstable_stats"@,
{
    reveal_strlit("stats");
    reveal_strlit("read_ahead_stats");
    reveal_strlit("extents_stats_per_process");
    reveal_strlit("extents_stats");
    reveal_strlit("statahead_stats");
    reveal_strlit("unstable_stats");
    assert("stats"@.len() != "read_ahead_stats"@.len());
    assert("stats"@.len() != "extents_stats_per_process"@.len());
    assert("stats"@.len() != "extents_stats"@.len());
    assert("stats"@.len() != "statahead_stats"@.len());
    assert("stats"@.len() != "unstable_stats"@.len());
    assert("read_ahead_stats"@.len() != "extents_stats_per_process"@.len());
    assert("read_ahead_stats"@.len() != "extents_stats"@.len());
    assert("read_ahead_stats"@.len() != "statahead_stats"@.len());
    assert("read_ahead_stats"@.len() != "unstable_stats"@.len());
    assert("extents_stats_per_process"@.len() != "extents_stats"@.len());
    assert("extents_stats_per_process"@.len() != "statahead_stats"@.len());
    assert("extents_stats_per_process"@.len() != "unstable_stats"@.len());
    assert("extents_stats"@.len() != "statahead_stats"@.len());
    assert("extents_stats"@.len() != "unstable_stats"@.len());
    assert("statahead_stats"@.len() != "unstable_stats"@.len());
}

/// The mount and the parameter name an llite record carries.
pub open spec fn llite_target_param(x: TargetStatsView) -> (Seq<char>, Seq<char>) {
    match x {
        TargetStatsView::Llite(v) => (v.target, v.param),
        TargetStatsView::LliteReadAheadStats(v) => (v.target, v.param),
        TargetStatsView::LliteExtentsStats(v) => (v.target, v.param),
        TargetStatsView::LliteExtentsStatsPerProcess(v) => (v.target, v.param),
        TargetStatsView::LliteStataheadStats(v) => (v.target, v.param),
        TargetStatsView::LliteUnstableStats(v) => (v.target, v.param),
        TargetStatsView::ExportUuids(v) => (v.target, Seq::empty()),
    }
}

/// An llite block is read as the kind of value its parameter names: the
/// record carries the mount and the parameter written in the block's header
/// (`llite.<mount>.<param>=`), and its variant is the one for that parameter.
pub proof fn llite_records_follow_their_param(s: Seq<char>, i: int)
    ensures
        spec_llite(s, i) matches Some((x, _)) ==> {
            &&& spec_device(s, i, "llite"@) matches Some((t, a)) && t == llite_target_param(x).0
                && spec_param(s, a, llite_target_param(x).1) is Some
            &&& (x is Llite <==> llite_target_param(x).1 == "stats"@)
            &&& (x is LliteReadAheadStats <==> llite_target_param(x).1 == "read_ahead_stats"@)
            &&& (x is LliteExtentsStatsPerProcess <==> llite_target_param(x).1 == "extents_stats_per_process"@)
            &&& (x is LliteExtentsStats <==> llite_target_param(x).1 == "extents_stats"@)
            &&& (x is LliteStataheadStats <==> llite_target_param(x).1 == "statahead_stats"@)
            &&& (x is LliteUnstableStats <==> llite_target_param(x).1 == "unstable_stats"@)
            &&& !(x is ExportUuids)
        },
{
    lemma_llite_params_differ();
}

pub fn parse(s: &[char], i: usize) -> (r: Option<(TargetStats, usize)>)
    requires
        i <= s@.len(),
    ensures
        match r {
            Some((x, j)) => spec_llite(s@, i as int) == Some((x.deep_view(), j as int)),
            None => spec_llite(s@, i as int) is None,
        },
        r matches Some((_, j)) ==> i < j <= s.len(),
{
    let (name, a) = match device(s, i, "llite") {
        Some(x) => x,
        None => return None,
    };
    if let Some(b) = param(s, a, "stats") {
        return match stats(s, b) {
            Some(((header, stats), c)) => Some(
                (
                    TargetStats::Llite(
                        LliteStat {
                            target: Target(name),
                            param: Param("stats".to_owned()),
                            stats,
                            header,
                        },
                    ),
                    c,
                ),
            ),
            None => None,
        };
    }
    if let Some(b) = param(s, a, "read_ahead_stats") {
        return match read_ahead_stats(s, b) {
            Some(((header, stats), c)) => Some(
                (
                    TargetStats::LliteReadAheadStats(
                        LliteStat {
                            target: Target(name),
                            param: Param("read_ahead_stats".to_owned()),
                            stats,
                            header,
                        },
                    ),
                    c,
                ),
            ),
            None => None,
        };
    }
    if let Some(b) = param(s, a, "extents_stats_per_process") {
        return match extents_stats_per_process(s, b) {
            Some((value, c)) => Some(
                (
                    TargetStats::LliteExtentsStatsPerProcess(
                        LliteTargetStat {
                            target: Target(name),
                            param: Param("extents_stats_per_process".to_owned()),
                            value,
                        },
                    ),
                    c,
                ),
            ),
            None => None,
        };
    }
    if let Some(b) = param(s, a, "extents_stats") {
        return match extents_stats(s, b) {
            Some((value, c)) => Some(
                (
                    TargetStats::LliteExtentsStats(
                        LliteTargetStat {
                            target: Target(name),
                            param: Param("extents_stats".to_owned()),
                            value,
                        },
                    ),
                    c,
                ),
            ),
            None => None,
        };
    }
    if let Some(b) = param(s, a, "statahead_stats") {
        return match key_values(s, b) {
            Some((value, c)) => Some(
                (
                    TargetStats::LliteStataheadStats(
                        LliteTargetStat {
                            target: Target(name),
                            param: Param("statahead_stats".to_owned()),
                            value,
                        },
                    ),
                    c,
                ),
            ),
            None => None,
        };
    }
    if let Some(b) = param(s, a, "unstable_stats") {
        return match key_values(s, b) {
            Some((value, c)) => Some(
                (
                    TargetStats::LliteUnstableStats(
                        LliteTargetStat {
                            target: Target(name),
                            param: Param("unstable_stats".to_owned()),
                            value,
                        },
                    ),
                    c,
                ),
            ),
            None => None,
        };
    }
    None
}

} // verus!
