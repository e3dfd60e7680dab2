//! `mdc.<controller>.{md_stats,stats,rpc_stats,mdc_stats}`.

use crate::lockless::{lockless_stats, spec_lockless_stats};
use crate::rpc_stats::{rpc_stats, spec_rpc_stats};
use crate::stats::{spec_stats_block, stats};
use crate::osc::{controller_kind, param_of};
use crate::text::{device, param, spec_device, spec_param};
use crate::types::{
    ControllerStats, ControllerStatsView, ControllerVariant, Param, StatsHeader, StatsHeaderView,
    Target, TimedControllerStat, TimedControllerStatView, controller_of,
};
use vstd::prelude::*;

verus! {

/// The parameters this parser reads, as `lctl get_param` patterns.
pub open spec fn spec_params() -> Seq<Seq<char>> {
    seq![
            "mdc.*.md_stats"@,
            "mdc.*.stats"@,
            "mdc.*.rpc_stats"@,
            "mdc.*.mdc_stats"@,
        ]
}

/// The parameters this parser reads, as `lctl get_param` patterns.
pub fn params() -> (r: Vec<String>)
    ensures
        r.deep_view() == spec_params(),
{
    let mut r: Vec<String> = Vec::new();
    r.push("mdc.*.md_stats".to_owned());
    r.push("mdc.*.stats".to_owned());
    r.push("mdc.*.rpc_stats".to_owned());
    r.push("mdc.*.mdc_stats".to_owned());
    proof {
        assert(r.deep_view() =~= spec_params());
    }
    r
}

pub open spec fn mdc_timed<V>(param: Seq<char>, controller: Seq<char>, value: V, header: StatsHeaderView) -> TimedControllerStatView<V> {
    TimedControllerStatView { kind: ControllerVariant::Mdc, param, controller, value, header }
}

/// `mdc.<controller>.<param>=` and the value: `md_stats`, `mdc_stats`,
/// `stats` or `rpc_stats`, tried in that order; the first parameter whose
/// name matches decides, and its value must parse.
pub open spec fn spec_mdc(s: Seq<char>, i: int) -> Option<(ControllerStatsView, int)> {
    match spec_device(s, i, "mdc"@) {
        None => None,
        Some((c, a)) => match spec_param(s, a, "md_stats"@) {
            Some(b) => match spec_stats_block(s, b, false) {
                Some(((h, x), e)) => Some((ControllerStatsView::MdStats(mdc_timed("md_stats"@, c, x, h)), e)),
                None => None,
            },
            None => match spec_param(s, a, "mdc_stats"@) {
                Some(b) => match spec_lockless_stats(s, b) {
                    Some(((h, x), e)) => Some(
                        (ControllerStatsView::LocklessStats(mdc_timed("mdc_stats"@, c, x, h)), e),
                    ),
                    None => None,
                },
                None => match spec_param(s, a, "stats"@) {
                    Some(b) => match spec_stats_block(s, b, false) {
                        Some(((h, x), e)) => Some((ControllerStatsView::Stats(mdc_timed("stats"@, c, x, h)), e)),
                        None => None,
                    },
                    None => match spec_param(s, a, "rpc_stats"@) {
                        Some(b) => match spec_rpc_stats(s, b) {
                            Some(((h, x), e)) => Some(
                                (ControllerStatsView::RpcStats(mdc_timed("rpc_stats"@, c, x, h)), e),
                            ),
                            None => None,
                        },
                        None => None,
                    },
                },
            },
        },
    }
}

/// The mdc parameter names are told apart.
proof fn lemma_mdc_params_differ()
    ensures
        "md_stats"@ != "mdc_stats"@,
        "md_stats"@ != "stats"@,
        "md_stats"@ != "rpc_stats"@,
        "mdc_stats"@ != "stats"@,
        "mdc_stats"@ != "rpc_stats"@,
        "stats"@ != "rpc_stats"@,
{
    reveal_strlit("md_stats");
    reveal_strlit("mdc_stats");
    reveal_strlit("stats");
    reveal_strlit("rpc_stats");
    assert("md_stats"@.len() != "mdc_stats"@.len());
    assert("md_stats"@.len() != "stats"@.len());
    assert("md_stats"@.len() != "rpc_stats"@.len());
    assert("mdc_stats"@.len() != "stats"@.len());
    assert("mdc_stats"@[0] != "rpc_stats"@[0]);
    assert("stats"@.len() != "rpc_stats"@.len());
}

/// An mdc block is read as the kind of value its parameter names: the record
/// carries the controller and the parameter written in the block's header
/// (`mdc.<controller>.<param>=`), and its variant is the one for that
/// parameter.
pub proof fn mdc_records_follow_their_param(s: Seq<char>, i: int)
    ensures
        spec_mdc(s, i) matches Some((x, _)) ==> {
            &&& spec_device(s, i, "mdc"@) matches Some((c, a)) && c == controller_of(x)
                && spec_param(s, a, param_of(x)) is Some
            &&& (x is MdStats <==> param_of(x) == "md_stats"@)
            &&& (x is LocklessStats <==> param_of(x) == "mdc_stats"@)
            &&& (x is Stats <==> param_of(x) == "stats"@)
            &&& (x is RpcStats <==> param_of(x) == "rpc_stats"@)
            &&& controller_kind(x) == ControllerVariant::Mdc
        },
{
    lemma_mdc_params_differ();
}

fn timed<T>(param: &str, controller: &String, value: T, header: StatsHeader) -> (r: TimedControllerStat<T>)
    ensures
        r.kind == ControllerVariant::Mdc,
        r.param.0@ == param@,
        r.controller.0@ == controller@,
        r.value == value,
        r.header == header,
{
    TimedControllerStat {
        kind: ControllerVariant::Mdc,
        param: Param(param.to_owned()),
        controller: Target(controller.clone()),
        value,
        header,
    }
}

pub fn parse(s: &[char], i: usize) -> (r: Option<(ControllerStats, usize)>)
    requires
        i <= s@.len(),
    ensures
        match r {
            Some((x, j)) => spec_mdc(s@, i as int) == Some((x.deep_view(), j as int)),
            None => spec_mdc(s@, i as int) is None,
        },
        r matches Some((_, j)) ==> i < j <= s.len(),
{
    let (c, a) = match device(s, i, "mdc") {
        Some(x) => x,
        None => return None,
    };
    if let Some(b) = param(s, a, "md_stats") {
        return match stats(s, b) {
            Some(((h, x), e)) => Some((ControllerStats::MdStats(timed("md_stats", &c, x, h)), e)),
            None => None,
        };
    }
    if let Some(b) = param(s, a, "mdc_stats") {
        return match lockless_stats(s, b) {
            Some(((h, x), e)) => Some((ControllerStats::LocklessStats(timed("mdc_stats", &c, x, h)), e)),
            None => None,
        };
    }
    if let Some(b) = param(s, a, "stats") {
        return match stats(s, b) {
            Some(((h, x), e)) => Some((ControllerStats::Stats(timed("stats", &c, x, h)), e)),
            None => None,
        };
    }
    if let Some(b) = param(s, a, "rpc_stats") {
        return match rpc_stats(s, b) {
            Some(((h, x), e)) => Some((ControllerStats::RpcStats(timed("rpc_stats", &c, x, h)), e)),
            None => None,
        };
    }
    None
}

} // verus!
