//! `osc.<controller>.<param>`.

use crate::io_latency::{io_latency_stats, spec_io_latency_stats};
use crate::key_value::{key_values, spec_key_values};
use crate::lockless::{lockless_stats, spec_lockless_stats};
use crate::rpc_stats::{rpc_stats, spec_rpc_stats};
use crate::stats::{region_is, spec_stats_block, stats};
use crate::text::{
    CharClass, char_at, chars_of, device, digits, is_char_at, lemma_scan, param, scan, scan_class,
    spec_device, spec_digits, spec_param, string_of,
};
use crate::types::{
    ControllerStat, ControllerStatView, ControllerState, ControllerStats, ControllerStatsView,
    ControllerVariant, OscState, Param, Target, TimedControllerStat, TimedControllerStatView,
    spec_state_name, controller_of,
};
use vstd::prelude::*;

verus! {

/// The parameters this parser reads, as `lctl get_param` patterns.
pub open spec fn spec_params() -> Seq<Seq<char>> {
    seq![
            "osc.*.state"@,
            "osc.*.stats"@,
            "osc.*.rpc_stats"@,
            "osc.*.io_latency_stats"@,
            "osc.*.osc_stats"@,
            "osc.*.unstable_stats"@,
            "osc.*.stats_compr"@,
            "osc.*.cur_grant_bytes"@,
            "osc.*.cur_dirty_bytes"@,
        ]
}

/// The parameters this parser reads, as `lctl get_param` patterns.
pub fn params() -> (r: Vec<String>)
    ensures
        r.deep_view() == spec_params(),
{
    let mut r: Vec<String> = Vec::new();
    r.push("osc.*.state".to_owned());
    r.push("osc.*.stats".to_owned());
    r.push("osc.*.rpc_stats".to_owned());
    r.push("osc.*.io_latency_stats".to_owned());
    r.push("osc.*.osc_stats".to_owned());
    r.push("osc.*.unstable_stats".to_owned());
    r.push("osc.*.stats_compr".to_owned());
    r.push("osc.*.cur_grant_bytes".to_owned());
    r.push("osc.*.cur_dirty_bytes".to_owned());
    proof {
        assert(r.deep_view() =~= spec_params());
    }
    r
}

/// Whether the line at `i` holds a `=` (the next parameter starts there),
/// or the input ends at `i`.
pub open spec fn at_next_param(s: Seq<char>, i: int) -> bool {
    i == s.len() || char_at(s, scan(s, i, CharClass::NotNewlineOrEquals), '=')
}

/// The end of the non-empty lines from `i` up to the next parameter or the
/// end of the input; `None` at an empty or unterminated line before that.
pub open spec fn spec_read_until_next_param(s: Seq<char>, i: int) -> Option<int>
    decreases s.len() - i,
{
    if !(0 <= i <= s.len()) {
        None
    } else if at_next_param(s, i) {
        Some(i)
    } else {
        let a = scan(s, i, CharClass::NotNewline);
        proof {
            lemma_scan(s, i, CharClass::NotNewline);
        }
        if a > i && char_at(s, a, '\n') {
            spec_read_until_next_param(s, a + 1)
        } else {
            None
        }
    }
}

pub fn read_until_next_param(s: &[char], i: usize) -> (r: Option<usize>)
    requires
        i <= s@.len(),
    ensures
        match r {
            Some(j) => spec_read_until_next_param(s@, i as int) == Some(j as int) && i <= j <= s.len(),
            None => spec_read_until_next_param(s@, i as int) is None,
        },
{
    let mut j = i;
    loop
        invariant
            i <= j <= s.len(),
            spec_read_until_next_param(s@, i as int) == spec_read_until_next_param(s@, j as int),
        decreases s@.len() - j,
    {
        if j == s.len() {
            return Some(j);
        }
        let e = scan_class(s, j, CharClass::NotNewlineOrEquals);
        if is_char_at(s, e, '=') {
            return Some(j);
        }
        let a = scan_class(s, j, CharClass::NotNewline);
        if a > j && is_char_at(s, a, '\n') {
            j = a + 1;
        } else {
            return None;
        }
    }
}

/// The string under `key` in a YAML document, when the text parses as YAML
/// and the value under that key is a string.
pub uninterp spec fn yaml_string_at(text: Seq<char>, key: Seq<char>) -> Option<Seq<char>>;

/// `yaml_serde::from_str` into a `yaml_serde::Value`, then `Value::get(key)`
/// and `Value::as_str`. The result is named, not stated: it is what
/// `yaml_serde` makes of the text.
#[verifier::external_body]
fn yaml_string(text: &str, key: &str) -> (r: Option<String>)
    ensures
        match r {
            Some(x) => yaml_string_at(text@, key@) == Some(x@),
            None => yaml_string_at(text@, key@) is None,
        },
{
    let value: yaml_serde::Value = yaml_serde::from_str(text).ok()?;
    let found = value.get(key)?.as_str()?;
    Some(found.to_owned())
}

/// The state the kernel prints as `name`.
pub open spec fn spec_state_from_name(name: Seq<char>) -> Option<ControllerState> {
    if name == "CLOSED"@ {
        Some(ControllerState::Closed)
    } else if name == "NEW"@ {
        Some(ControllerState::New)
    } else if name == "DISCONN"@ {
        Some(ControllerState::Disconn)
    } else if name == "CONNECTING"@ {
        Some(ControllerState::Connecting)
    } else if name == "REPLAY"@ {
        Some(ControllerState::Replay)
    } else if name == "REPLAY_LOCKS"@ {
        Some(ControllerState::ReplayLocks)
    } else if name == "REPLAY_WAIT"@ {
        Some(ControllerState::ReplayWait)
    } else if name == "RECOVER"@ {
        Some(ControllerState::Recover)
    } else if name == "FULL"@ {
        Some(ControllerState::Full)
    } else if name == "EVICTED"@ {
        Some(ControllerState::Evicted)
    } else if name == "IDLE"@ {
        Some(ControllerState::Idle)
    } else {
        None
    }
}

impl ControllerState {
    /// The state the kernel prints as `name`; `None` for any other text.
    pub fn from_name(name: &str) -> (r: Option<ControllerState>)
        ensures
            r == spec_state_from_name(name@),
    {
        let v = chars_of(name);
        let s = v.as_slice();
        let n = v.len();
        proof {
            assert(s@.subrange(0, n as int) =~= name@);
        }
        if region_is(s, 0, n, "CLOSED") {
            Some(ControllerState::Closed)
        } else if region_is(s, 0, n, "NEW") {
            Some(ControllerState::New)
        } else if region_is(s, 0, n, "DISCONN") {
            Some(ControllerState::Disconn)
        } else if region_is(s, 0, n, "CONNECTING") {
            Some(ControllerState::Connecting)
        } else if region_is(s, 0, n, "REPLAY") {
            Some(ControllerState::Replay)
        } else if region_is(s, 0, n, "REPLAY_LOCKS") {
            Some(ControllerState::ReplayLocks)
        } else if region_is(s, 0, n, "REPLAY_WAIT") {
            Some(ControllerState::ReplayWait)
        } else if region_is(s, 0, n, "RECOVER") {
            Some(ControllerState::Recover)
        } else if region_is(s, 0, n, "FULL") {
            Some(ControllerState::Full)
        } else if region_is(s, 0, n, "EVICTED") {
            Some(ControllerState::Evicted)
        } else if region_is(s, 0, n, "IDLE") {
            Some(ControllerState::Idle)
        } else {
            None
        }
    }
}

/// A state name read back gives the state that prints as that name, and a
/// name is read as a state only if that state prints as it.
pub proof fn state_names_read_back(x: ControllerState, name: Seq<char>)
    ensures
        spec_state_from_name(spec_state_name(x)) == Some(x),
        spec_state_from_name(name) == Some(x) ==> spec_state_name(x) == name,
{
    reveal_strlit("CLOSED");
    reveal_strlit("NEW");
    reveal_strlit("DISCONN");
    reveal_strlit("CONNECTING");
    reveal_strlit("REPLAY");
    reveal_strlit("REPLAY_LOCKS");
    reveal_strlit("REPLAY_WAIT");
    reveal_strlit("RECOVER");
    reveal_strlit("FULL");
    reveal_strlit("EVICTED");
    reveal_strlit("IDLE");
    let n = spec_state_name(x);
    match x {
        ControllerState::Closed => {
        },
        ControllerState::New => {
            assert(n.len() != "CLOSED"@.len());
        },
        ControllerState::Disconn => {
            assert(n.len() != "CLOSED"@.len());
            assert(n.len() != "NEW"@.len());
        },
        ControllerState::Connecting => {
            assert(n.len() != "CLOSED"@.len());
            assert(n.len() != "NEW"@.len());
            assert(n.len() != "DISCONN"@.len());
        },
        ControllerState::Replay => {
            assert(n[0] != "CLOSED"@[0]);
            assert(n.len() != "NEW"@.len());
            assert(n.len() != "DISCONN"@.len());
            assert(n.len() != "CONNECTING"@.len());
        },
        ControllerState::ReplayLocks => {
            assert(n.len() != "CLOSED"@.len());
            assert(n.len() != "NEW"@.len());
            assert(n.len() != "DISCONN"@.len());
            assert(n.len() != "CONNECTING"@.len());
            assert(n.len() != "REPLAY"@.len());
        },
        ControllerState::ReplayWait => {
            assert(n.len() != "CLOSED"@.len());
            assert(n.len() != "NEW"@.len());
            assert(n.len() != "DISCONN"@.len());
            assert(n.len() != "CONNECTING"@.len());
            assert(n.len() != "REPLAY"@.len());
            assert(n.len() != "REPLAY_LOCKS"@.len());
        },
        ControllerState::Recover => {
            assert(n.len() != "CLOSED"@.len());
            assert(n.len() != "NEW"@.len());
            assert(n[0] != "DISCONN"@[0]);
            assert(n.len() != "CONNECTING"@.len());
            assert(n.len() != "REPLAY"@.len());
            assert(n.len() != "REPLAY_LOCKS"@.len());
            assert(n.len() != "REPLAY_WAIT"@.len());
        },
        ControllerState::Full => {
            assert(n.len() != "CLOSED"@.len());
            assert(n.len() != "NEW"@.len());
            assert(n.len() != "DISCONN"@.len());
            assert(n.len() != "CONNECTING"@.len());
            assert(n.len() != "REPLAY"@.len());
            assert(n.len() != "REPLAY_LOCKS"@.len());
            assert(n.len() != "REPLAY_WAIT"@.len());
            assert(n.len() != "RECOVER"@.len());
        },
        ControllerState::Evicted => {
            assert(n.len() != "CLOSED"@.len());
            assert(n.len() != "NEW"@.len());
            assert(n[0] != "DISCONN"@[0]);
            assert(n.len() != "CONNECTING"@.len());
            assert(n.len() != "REPLAY"@.len());
            assert(n.len() != "REPLAY_LOCKS"@.len());
            assert(n.len() != "REPLAY_WAIT"@.len());
            assert(n[0] != "RECOVER"@[0]);
            assert(n.len() != "FULL"@.len());
        },
        ControllerState::Idle => {
            assert(n.len() != "CLOSED"@.len());
            assert(n.len() != "NEW"@.len());
            assert(n.len() != "DISCONN"@.len());
            assert(n.len() != "CONNECTING"@.len());
            assert(n.len() != "REPLAY"@.len());
            assert(n.len() != "REPLAY_LOCKS"@.len());
            assert(n.len() != "REPLAY_WAIT"@.len());
            assert(n.len() != "RECOVER"@.len());
            assert(n[0] != "FULL"@[0]);
            assert(n.len() != "EVICTED"@.len());
        },
    }
}

/// The state of an import from the `current_state` that `yaml_serde` read
/// from its `state` block.
pub open spec fn spec_osc_state_of(current_state: Option<Seq<char>>) -> Option<OscState> {
    match current_state {
        Some(name) => match spec_state_from_name(name) {
            Some(x) => Some(OscState { current_state: x }),
            None => None,
        },
        None => None,
    }
}

/// `OscState` from the `current_state` of a `state` block.
pub fn osc_state_of(current_state: Option<String>) -> (r: Option<OscState>)
    ensures
        r == spec_osc_state_of(match current_state {
            Some(x) => Some(x@),
            None => None,
        }),
{
    match current_state {
        Some(name) => match ControllerState::from_name(name.as_str()) {
            Some(x) => Some(OscState { current_state: x }),
            None => None,
        },
        None => None,
    }
}

/// `\n`, then the YAML of the `state` parameter up to the next parameter.
pub open spec fn spec_osc_state(s: Seq<char>, i: int) -> Option<(OscState, int)> {
    if !char_at(s, i, '\n') {
        None
    } else {
        match spec_read_until_next_param(s, i + 1) {
            Some(e) => match spec_osc_state_of(yaml_string_at(s.subrange(i + 1, e), "current_state"@)) {
                Some(x) => Some((x, e)),
                None => None,
            },
            None => None,
        }
    }
}

pub fn osc_state(s: &[char], i: usize) -> (r: Option<(OscState, usize)>)
    requires
        i <= s@.len(),
    ensures
        match r {
            Some((x, j)) => spec_osc_state(s@, i as int) == Some((x, j as int)),
            None => spec_osc_state(s@, i as int) is None,
        },
        r matches Some((_, j)) ==> i < j <= s.len(),
{
    if !is_char_at(s, i, '\n') {
        return None;
    }
    let e = match read_until_next_param(s, i + 1) {
        Some(e) => e,
        None => return None,
    };
    let text = string_of(s, i + 1, e);
    match osc_state_of(yaml_string(text.as_str(), "current_state")) {
        Some(x) => Some((x, e)),
        None => None,
    }
}

/// `<digits>\n`.
pub open spec fn spec_number_line(s: Seq<char>, i: int) -> Option<(u64, int)> {
    match spec_digits(s, i) {
        Some((v, j)) if char_at(s, j, '\n') => Some((v, j + 1)),
        _ => None,
    }
}

pub fn number_line(s: &[char], i: usize) -> (r: Option<(u64, usize)>)
    requires
        i <= s@.len(),
    ensures
        match r {
            Some((v, j)) => spec_number_line(s@, i as int) == Some((v, j as int)),
            None => spec_number_line(s@, i as int) is None,
        },
        r matches Some((_, j)) ==> i < j <= s.len(),
{
    match digits(s, i) {
        Some((v, j)) if is_char_at(s, j, '\n') => Some((v, j + 1)),
        _ => None,
    }
}

pub open spec fn osc_stat<V>(param: Seq<char>, controller: Seq<char>, value: V) -> ControllerStatView<V> {
    ControllerStatView { kind: ControllerVariant::Osc, param, controller, value }
}

pub open spec fn osc_timed<V>(
    param: Seq<char>,
    controller: Seq<char>,
    value: V,
    header: crate::types::StatsHeaderView,
) -> TimedControllerStatView<V> {
    TimedControllerStatView { kind: ControllerVariant::Osc, param, controller, value, header }
}

/// `osc.<controller>.<param>=` and the value: `state`, `stats_compr`,
/// `stats`, `rpc_stats`, `io_latency_stats`, `osc_stats`, `unstable_stats`,
/// `cur_grant_bytes` or `cur_dirty_bytes`, tried in that order; the first parameter whose name
/// matches decides, and its value must parse.
pub open spec fn spec_osc(s: Seq<char>, i: int) -> Option<(ControllerStatsView, int)> {
    match spec_device(s, i, "osc"@) {
        None => None,
        Some((c, a)) => match spec_param(s, a, "state"@) {
            Some(b) => match spec_osc_state(s, b) {
                Some((x, e)) => Some((ControllerStatsView::OscState(osc_stat("state"@, c, x)), e)),
                None => None,
            },
            None => match spec_param(s, a, "stats_compr"@) {
                Some(b) => match spec_key_values(s, b) {
                    Some((x, e)) => Some(
                        (ControllerStatsView::CompressionStats(osc_stat("stats_compr"@, c, x)), e),
                    ),
                    None => None,
                },
                None => match spec_param(s, a, "stats"@) {
                    Some(b) => match spec_stats_block(s, b, false) {
                        Some(((h, x), e)) => Some(
                            (ControllerStatsView::Stats(osc_timed("stats"@, c, x, h)), e),
                        ),
                        None => None,
                    },
                    None => match spec_param(s, a, "rpc_stats"@) {
                        Some(b) => match spec_rpc_stats(s, b) {
                            Some(((h, x), e)) => Some(
                                (ControllerStatsView::RpcStats(osc_timed("rpc_stats"@, c, x, h)), e),
                            ),
                            None => None,
                        },
                        None => match spec_param(s, a, "io_latency_stats"@) {
                            Some(b) => match spec_io_latency_stats(s, b) {
                                Some(((h, x), e)) => Some(
                                    (
                                        ControllerStatsView::IoLatencyStats(
                                            osc_timed("io_latency_stats"@, c, x, h),
                                        ),
                                        e,
                                    ),
                                ),
                                None => None,
                            },
                            None => match spec_param(s, a, "osc_stats"@) {
                                Some(b) => match spec_lockless_stats(s, b) {
                                    Some(((h, x), e)) => Some(
                                        (
                                            ControllerStatsView::LocklessStats(
                                                osc_timed("osc_stats"@, c, x, h),
                                            ),
                                            e,
                                        ),
                                    ),
                                    None => None,
                                },
                                None => match spec_param(s, a, "unstable_stats"@) {
                                    Some(b) => match spec_key_values(s, b) {
                                        Some((x, e)) => Some(
                                            (
                                                ControllerStatsView::UnstableStats(
                                                    osc_stat("unstable_stats"@, c, x),
                                                ),
                                                e,
                                            ),
                                        ),
                                        None => None,
                                    },
                                    None => match spec_param(s, a, "cur_grant_bytes"@) {
                                        Some(b) => match spec_number_line(s, b) {
                                            Some((x, e)) => Some(
                                                (
                                                    ControllerStatsView::CurGrantBytes(
                                                        osc_stat("cur_grant_bytes"@, c, x),
                                                    ),
                                                    e,
                                                ),
                                            ),
                                            None => None,
                                        },
                                        None => match spec_param(s, a, "cur_dirty_bytes"@) {
                                            Some(b) => match spec_number_line(s, b) {
                                                Some((x, e)) => Some(
                                                    (
                                                        ControllerStatsView::CurDirtyBytes(
                                                            osc_stat("cur_dirty_bytes"@, c, x),
                                                        ),
                                                        e,
                                                    ),
                                                ),
                                                None => None,
                                            },
                                            None => None,
                                        },
                                    },
                                },
                            },
                        },
                    },
                },
            },
        },
    }
}

/// The osc parameter names are told apart.
proof fn lemma_osc_params_differ()
    ensures
        "state"@ != "stats_compr"@,
        "state"@ != "stats"@,
        "state"@ != "rpc_stats"@,
        "state"@ != "io_latency_stats"@,
        "state"@ != "osc_stats"@,
        "state"@ != "unstable_stats"@,
        "state"@ != "cur_grant_bytes"@,
        "state"@ != "cur_dirty_bytes"@,
        "stats_compr"@ != "stats"@,
        "stats_compr"@ != "rpc_stats"@,
        "stats_compr"@ != "io_latency_stats"@,
        "stats_compr"@ != "osc_stats"@,
        "stats_compr"@ != "unstable_stats"@,
        "stats_compr"@ != "cur_grant_bytes"@,
        "stats_compr"@ != "cur_dirty_bytes"@,
        "stats"@ != "rpc_stats"@,
        "stats"@ != "io_latency_stats"@,
        "stats"@ != "osc_stats"@,
        "stats"@ != "unstable_stats"@,
        "stats"@ != "cur_grant_bytes"@,
        "stats"@ != "cur_dirty_bytes"@,
        "rpc_stats"@ != "io_latency_stats"@,
        "rpc_stats"@ != "osc_stats"@,
        "rpc_stats"@ != "unstable_stats"@,
        "rpc_stats"@ != "cur_grant_bytes"@,
        "rpc_stats"@ != "cur_dirty_bytes"@,
        "io_latency_stats"@ != "osc_stats"@,
        "io_latency_stats"@ != "unstable_stats"@,
        "io_latency_stats"@ != "cur_grant_bytes"@,
        "io_latency_stats"@ != "cur_dirty_bytes"@,
        "osc_stats"@ != "unstable_stats"@,
        "osc_stats"@ != "cur_grant_bytes"@,
        "osc_stats"@ != "cur_dirty_bytes"@,
        "unstable_stats"@ != "cur_grant_bytes"@,
        "unstable_stats"@ != "cur_dirty_bytes"@,
        "cur_grant_bytes"@ != "cur_dirty_bytes"@,
{
    reveal_strlit("state");
    reveal_strlit("stats_compr");
    reveal_strlit("stats");
    reveal_strlit("rpc_stats");
    reveal_strlit("io_latency_stats");
    reveal_strlit("osc_stats");
    reveal_strlit("unstable_stats");
    reveal_strlit("cur_grant_bytes");
    reveal_strlit("cur_dirty_bytes");
    assert("state"@.len() != "stats_compr"@.len());
    assert("state"@[4] != "stats"@[4]);
    assert("state"@.len() != "rpc_stats"@.len());
    assert("state"@.len() != "io_latency_stats"@.len());
    assert("state"@.len() != "osc_stats"@.len());
    assert("state"@.len() != "unstable_stats"@.len());
    assert("state"@.len() != "cur_grant_bytes"@.len());
    assert("state"@.len() != "cur_dirty_bytes"@.len());
    assert("stats_compr"@.len() != "stats"@.len());
    assert("stats_compr"@.len() != "rpc_stats"@.len());
    assert("stats_compr"@.len() != "io_latency_stats"@.len());
    assert("stats_compr"@.len() != "osc_stats"@.len());
    assert("stats_compr"@.len() != "unstable_stats"@.len());
    assert("stats_compr"@.len() != "cur_grant_bytes"@.len());
    assert("stats_compr"@.len() != "cur_dirty_bytes"@.len());
    assert("stats"@.len() != "rpc_stats"@.len());
    assert("stats"@.len() != "io_latency_stats"@.len());
    assert("stats"@.len() != "osc_stats"@.len());
    assert("stats"@.len() != "unstable_stats"@.len());
    assert("stats"@.len() != "cur_grant_bytes"@.len());
    assert("stats"@.len() != "cur_dirty_bytes"@.len());
    assert("rpc_stats"@.len() != "io_latency_stats"@.len());
    assert("rpc_stats"@[0] != "osc_stats"@[0]);
    assert("rpc_stats"@.len() != "unstable_stats"@.len());
    assert("rpc_stats"@.len() != "cur_grant_bytes"@.len());
    assert("rpc_stats"@.len() != "cur_dirty_bytes"@.len());
    assert("io_latency_stats"@.len() != "osc_stats"@.len());
    assert("io_latency_stats"@.len() != "unstable_stats"@.len());
    assert("io_latency_stats"@.len() != "cur_grant_bytes"@.len());
    assert("io_latency_stats"@.len() != "cur_dirty_bytes"@.len());
    assert("osc_stats"@.len() != "unstable_stats"@.len());
    assert("osc_stats"@.len() != "cur_grant_bytes"@.len());
    assert("osc_stats"@.len() != "cur_dirty_bytes"@.len());
    assert("unstable_stats"@.len() != "cur_grant_bytes"@.len());
    assert("unstable_stats"@.len() != "cur_dirty_bytes"@.len());
    assert("cur_grant_bytes"@[4] != "cur_dirty_bytes"@[4]);
}

/// The kind of controller a record is of.
pub open spec fn controller_kind(x: ControllerStatsView) -> ControllerVariant {
    match x {
        ControllerStatsView::OscState(s) => s.kind,
        ControllerStatsView::CompressionStats(s) => s.kind,
        ControllerStatsView::Stats(s) => s.kind,
        ControllerStatsView::RpcStats(s) => s.kind,
        ControllerStatsView::IoLatencyStats(s) => s.kind,
        ControllerStatsView::LocklessStats(s) => s.kind,
        ControllerStatsView::UnstableStats(s) => s.kind,
        ControllerStatsView::CurGrantBytes(s) => s.kind,
        ControllerStatsView::CurDirtyBytes(s) => s.kind,
        ControllerStatsView::MdStats(s) => s.kind,
    }
}

/// The parameter name a controller record carries.
pub open spec fn param_of(x: ControllerStatsView) -> Seq<char> {
    match x {
        ControllerStatsView::OscState(s) => s.param,
        ControllerStatsView::CompressionStats(s) => s.param,
        ControllerStatsView::Stats(s) => s.param,
        ControllerStatsView::RpcStats(s) => s.param,
        ControllerStatsView::IoLatencyStats(s) => s.param,
        ControllerStatsView::LocklessStats(s) => s.param,
        ControllerStatsView::UnstableStats(s) => s.param,
        ControllerStatsView::CurGrantBytes(s) => s.param,
        ControllerStatsView::CurDirtyBytes(s) => s.param,
        ControllerStatsView::MdStats(s) => s.param,
    }
}

/// An osc block is read as the kind of value its parameter names: the record
/// carries the controller and the parameter written in the block's header
/// (`osc.<controller>.<param>=`), and its variant is the one for that
/// parameter (`cur_dirty_bytes` gives `CurDirtyBytes`, `cur_grant_bytes`
/// gives `CurGrantBytes`, and so on).
pub proof fn osc_records_follow_their_param(s: Seq<char>, i: int)
    ensures
        spec_osc(s, i) matches Some((x, _)) ==> {
            &&& spec_device(s, i, "osc"@) matches Some((c, a)) && c == controller_of(x)
                && spec_param(s, a, param_of(x)) is Some
            &&& (x is OscState <==> param_of(x) == "state"@)
            &&& (x is CompressionStats <==> param_of(x) == "stats_compr"@)
            &&& (x is Stats <==> param_of(x) == "stats"@)
            &&& (x is RpcStats <==> param_of(x) == "rpc_stats"@)
            &&& (x is IoLatencyStats <==> param_of(x) == "io_latency_stats"@)
            &&& (x is LocklessStats <==> param_of(x) == "osc_stats"@)
            &&& (x is UnstableStats <==> param_of(x) == "unstable_stats"@)
            &&& (x is CurGrantBytes <==> param_of(x) == "cur_grant_bytes"@)
            &&& (x is CurDirtyBytes <==> param_of(x) == "cur_dirty_bytes"@)
            &&& !(x is MdStats)
            &&& controller_kind(x) == ControllerVariant::Osc
        },
{
    lemma_osc_params_differ();
}

fn stat<T>(param: &str, controller: &String, value: T) -> (r: ControllerStat<T>)
    ensures
        r.kind == ControllerVariant::Osc,
        r.param.0@ == param@,
        r.controller.0@ == controller@,
        r.value == value,
{
    ControllerStat {
        kind: ControllerVariant::Osc,
        param: Param(param.to_owned()),
        controller: Target(controller.clone()),
        value,
    }
}

fn timed<T>(param: &str, controller: &String, value: T, header: crate::types::StatsHeader) -> (r: TimedControllerStat<T>)
    ensures
        r.kind == ControllerVariant::Osc,
        r.param.0@ == param@,
        r.controller.0@ == controller@,
        r.value == value,
        r.header == header,
{
    TimedControllerStat {
        kind: ControllerVariant::Osc,
        param: Param(param.to_owned()),
        controller: Target(controller.clone()),
        value,
        header,
    }
}

pub fn parse(s: &[char], i: usize) -> (r: Option<(ControllerStats, usize)>)
    requires
        i <= s@.len(),
    ensures
        match r {
            Some((x, j)) => spec_osc(s@, i as int) == Some((x.deep_view(), j as int)),
            None => spec_osc(s@, i as int) is None,
        },
        r matches Some((_, j)) ==> i < j <= s.len(),
{
    let (c, a) = match device(s, i, "osc") {
        Some(x) => x,
        None => return None,
    };
    if let Some(b) = param(s, a, "state") {
        return match osc_state(s, b) {
            Some((x, e)) => Some((ControllerStats::OscState(stat("state", &c, x)), e)),
            None => None,
        };
    }
    if let Some(b) = param(s, a, "stats_compr") {
        return match key_values(s, b) {
            Some((x, e)) => Some((ControllerStats::CompressionStats(stat("stats_compr", &c, x)), e)),
            None => None,
        };
    }
    if let Some(b) = param(s, a, "stats") {
        return match stats(s, b) {
            Some(((h, x), e)) => Some((ControllerStats::Stats(timed("stats", &c, x, h)), e)),
            None => None,
        };
    }
    if let Some(b) = param(s, a, "rpc_stats") {
        return match rpc_stats(s, b) {
            Some(((h, x), e)) => Some((ControllerStats::RpcStats(timed("rpc_stats", &c, x, h)), e)),
            None => None,
        };
    }
    if let Some(b) = param(s, a, "io_latency_stats") {
        return match io_latency_stats(s, b) {
            Some(((h, x), e)) => Some(
                (ControllerStats::IoLatencyStats(timed("io_latency_stats", &c, x, h)), e),
            ),
            None => None,
        };
    }
    if let Some(b) = param(s, a, "osc_stats") {
        return match lockless_stats(s, b) {
            Some(((h, x), e)) => Some(
                (ControllerStats::LocklessStats(timed("osc_stats", &c, x, h)), e),
            ),
            None => None,
        };
    }
    if let Some(b) = param(s, a, "unstable_stats") {
        return match key_values(s, b) {
            Some((x, e)) => Some((ControllerStats::UnstableStats(stat("unstable_stats", &c, x)), e)),
            None => None,
        };
    }
    if let Some(b) = param(s, a, "cur_grant_bytes") {
        return match number_line(s, b) {
            Some((x, e)) => Some((ControllerStats::CurGrantBytes(stat("cur_grant_bytes", &c, x)), e)),
            None => None,
        };
    }
    if let Some(b) = param(s, a, "cur_dirty_bytes") {
        return match number_line(s, b) {
            Some((x, e)) => Some((ControllerStats::CurDirtyBytes(stat("cur_dirty_bytes", &c, x)), e)),
            None => None,
        };
    }
    None
}

} // verus!
