//! The osc and mdc families, and the OSCs' connection state.

use crate::client::{ClientLabels, ExtendedClientMetrics, LabelContainer, fs_name, labels_view, spec_fs_name};
use crate::client_target::{
    ClientTargetMetrics, ClientTargetView, build_compression_stats, build_cur_dirty_bytes,
    build_cur_grant_bytes, build_io_latency_stats, build_lockless_stats, build_md_stats,
    build_rpc_stats, build_stats, build_unstable_stats, empty_client_target,
    io_latency_keys_in_range, rpc_keys_in_range, spec_compression_stats, spec_io_latency_stats,
    spec_lockless_stats, spec_md_stats, spec_rpc_stats, spec_stats, spec_unstable_stats,
    target_labels,
};
use crate::family::{
    LabelsView, SignedGaugeFamily, added, inc_signed_gauge, new_signed_gauges, set_signed_gauge,
    signed_gauge_values, value_or_zero, wrapping_add_i64, wrapping_add,
};
use crate::histogram::HistogramEncoding;
use crate::strings::{contains_str, has_substring};
use crate::types::{
    ControllerStatView, BrwStats, KeyValue, LocklessStats, RpcStats, Stat, TimedControllerStat, ControllerStat, OscState, ControllerState, ControllerStats, ControllerStatsView, ControllerVariant, controller_of,
    spec_state_name,
};
use vstd::prelude::*;

verus! {

/// The client-side families: osc, mdc and the OSC states.
pub struct ControllerMetrics {
    pub labels: ClientLabels,
    pub osc_state: SignedGaugeFamily,
    pub osc: ClientTargetMetrics,
    pub mdc: ClientTargetMetrics,
}

/// What the families of [`ControllerMetrics`] hold.
pub struct ControllerView {
    pub labels: ClientLabels,
    pub osc_state: Map<LabelsView, i64>,
    pub osc: ClientTargetView,
    pub mdc: ClientTargetView,
}

impl ControllerMetrics {
    pub open spec fn view(&self) -> ControllerView {
        ControllerView {
            labels: self.labels,
            osc_state: signed_gauge_values(self.osc_state),
            osc: self.osc.view(),
            mdc: self.mdc.view(),
        }
    }

    /// The osc families are the osc ones, the mdc families the mdc ones,
    /// and both label as the whole does.
    pub open spec fn wf(&self) -> bool {
        &&& self.osc.wf()
        &&& self.mdc.wf()
        &&& self.osc.component == ControllerVariant::Osc
        &&& self.mdc.component == ControllerVariant::Mdc
        &&& self.osc.labels == self.labels
        &&& self.mdc.labels == self.labels
    }

    /// The families, without series.
    pub fn new(labels: ClientLabels, histograms: HistogramEncoding, extended: ExtendedClientMetrics) -> (r: ControllerMetrics)
        ensures
            r.wf(),
            r.view() == empty_controller(labels, histograms, extended),
    {
        ControllerMetrics {
            labels,
            osc_state: new_signed_gauges(),
            osc: ClientTargetMetrics::new(ControllerVariant::Osc, labels, histograms, extended),
            mdc: ClientTargetMetrics::new(ControllerVariant::Mdc, labels, histograms, extended),
        }
    }
}

impl Default for ControllerMetrics {
    fn default() -> (r: ControllerMetrics)
        ensures
            r.wf(),
            r.view() == empty_controller(
                ClientLabels::PerTarget,
                HistogramEncoding::BucketCounters,
                ExtendedClientMetrics::Off,
            ),
    {
        ControllerMetrics::new(
            ClientLabels::PerTarget,
            HistogramEncoding::BucketCounters,
            ExtendedClientMetrics::Off,
        )
    }
}

/// The client-side families before anything was counted.
pub open spec fn empty_controller(labels: ClientLabels, histograms: HistogramEncoding, extended: ExtendedClientMetrics) -> ControllerView {
    ControllerView {
        labels,
        osc_state: Map::empty(),
        osc: empty_client_target(ControllerVariant::Osc, labels, histograms, extended),
        mdc: empty_client_target(ControllerVariant::Mdc, labels, histograms, extended),
    }
}

/// The families of one side.
pub open spec fn side(v: ControllerView, kind: ControllerVariant) -> ClientTargetView {
    match kind {
        ControllerVariant::Osc => v.osc,
        ControllerVariant::Mdc => v.mdc,
    }
}

/// `v` with the families of one side replaced.
pub open spec fn with_side(v: ControllerView, kind: ControllerVariant, t: ClientTargetView) -> ControllerView {
    match kind {
        ControllerVariant::Osc => ControllerView { osc: t, ..v },
        ControllerVariant::Mdc => ControllerView { mdc: t, ..v },
    }
}

/// An MDS links its OST-facing osp devices under `osc.*` (`-osc-MDT<n>`);
/// their ptlrpc `stats` must not render as client families.
pub open spec fn spec_is_osp(controller: Seq<char>) -> bool {
    has_substring(controller, "-osc-MDT"@)
}

pub fn is_osp(controller: &str) -> (r: bool)
    ensures
        r == spec_is_osp(controller@),
{
    contains_str(controller, "-osc-MDT")
}

/// Whether an import in `state` is up.
pub open spec fn is_up(state: ControllerState) -> bool {
    state == ControllerState::Full || state == ControllerState::Idle
}

/// The families after one controller record: an osp device's records are
/// skipped but for its state; a state is a 0/1 gauge per controller, or a
/// count of OSCs per filesystem and state; the rest goes to its side.
pub open spec fn spec_controller_stats(v: ControllerView, x: ControllerStatsView) -> ControllerView {
    if !(x is OscState) && spec_is_osp(controller_of(x)) {
        v
    } else {
        match x {
            ControllerStatsView::OscState(s) => match v.labels {
                ClientLabels::PerTarget => ControllerView {
                    osc_state: v.osc_state.insert(
                        seq![
                            ("controller"@, s.controller),
                            ("current_state"@, spec_state_name(s.value.current_state)),
                        ],
                        if is_up(s.value.current_state) { 1i64 } else { 0i64 },
                    ),
                    ..v
                },
                ClientLabels::ByFilesystem => {
                    let k = seq![
                        ("fs"@, spec_fs_name(s.controller)),
                        ("current_state"@, spec_state_name(s.value.current_state)),
                    ];
                    ControllerView {
                        osc_state: v.osc_state.insert(k, wrapping_add_i64(value_or_zero(v.osc_state, k, 0i64), 1)),
                        ..v
                    }
                },
            },
            ControllerStatsView::Stats(s) => with_side(v, s.kind, spec_stats(side(v, s.kind), s)),
            ControllerStatsView::MdStats(s) => with_side(v, s.kind, spec_md_stats(side(v, s.kind), s)),
            ControllerStatsView::RpcStats(s) => with_side(v, s.kind, spec_rpc_stats(side(v, s.kind), s)),
            ControllerStatsView::IoLatencyStats(s) => with_side(
                v,
                s.kind,
                spec_io_latency_stats(side(v, s.kind), s),
            ),
            ControllerStatsView::LocklessStats(s) => with_side(
                v,
                s.kind,
                spec_lockless_stats(side(v, s.kind), s),
            ),
            ControllerStatsView::UnstableStats(s) => with_side(
                v,
                s.kind,
                spec_unstable_stats(side(v, s.kind), s),
            ),
            ControllerStatsView::CompressionStats(s) => with_side(
                v,
                s.kind,
                spec_compression_stats(side(v, s.kind), s),
            ),
            ControllerStatsView::CurGrantBytes(s) => with_side(
                v,
                s.kind,
                ClientTargetView {
                    cur_grant_bytes: added(
                        side(v, s.kind).cur_grant_bytes,
                        target_labels(side(v, s.kind), s.controller),
                        s.value,
                    ),
                    ..side(v, s.kind)
                },
            ),
            ControllerStatsView::CurDirtyBytes(s) => with_side(
                v,
                s.kind,
                ClientTargetView {
                    cur_dirty_bytes: added(
                        side(v, s.kind).cur_dirty_bytes,
                        target_labels(side(v, s.kind), s.controller),
                        s.value,
                    ),
                    ..side(v, s.kind)
                },
            ),
        }
    }
}

/// A `cur_grant_bytes` record adds its value to the grant gauge of its series
/// and a `cur_dirty_bytes` record to the dirty gauge (wrapping at 2^64); each
/// leaves the other gauge, and every other series, as it was. An osp
/// device's records change nothing.
pub proof fn grant_and_dirty_bytes_take_their_own_records(
    v: ControllerView,
    s: ControllerStatView<u64>,
    dirty: bool,
    k: LabelsView,
)
    ensures
        ({
            let x = if dirty {
                ControllerStatsView::CurDirtyBytes(s)
            } else {
                ControllerStatsView::CurGrantBytes(s)
            };
            let before = side(v, s.kind);
            let after = side(spec_controller_stats(v, x), s.kind);
            let hit = !spec_is_osp(s.controller) && k == target_labels(before, s.controller);
            &&& value_or_zero(after.cur_grant_bytes, k, 0) == if hit && !dirty {
                wrapping_add(value_or_zero(before.cur_grant_bytes, k, 0), s.value)
            } else {
                value_or_zero(before.cur_grant_bytes, k, 0)
            }
            &&& value_or_zero(after.cur_dirty_bytes, k, 0) == if hit && dirty {
                wrapping_add(value_or_zero(before.cur_dirty_bytes, k, 0), s.value)
            } else {
                value_or_zero(before.cur_dirty_bytes, k, 0)
            }
        }),
{
}

/// Whether every bucket key of a controller record is one its table turns
/// into a bound (the builders double the lower edges of the log2 tables).
pub open spec fn controller_keys_in_range(x: ControllerStatsView) -> bool {
    match x {
        ControllerStatsView::RpcStats(s) => rpc_keys_in_range(s.value),
        ControllerStatsView::IoLatencyStats(s) => io_latency_keys_in_range(s.value),
        _ => true,
    }
}

impl ControllerMetrics {
    /// The families of one side, to be written.
    fn side_mut(&mut self, kind: ControllerVariant) -> (r: &mut ClientTargetMetrics)
        ensures
            *r == match kind {
                ControllerVariant::Osc => old(self).osc,
                ControllerVariant::Mdc => old(self).mdc,
            },
            final(self).labels == old(self).labels,
            final(self).osc_state == old(self).osc_state,
            match kind {
                ControllerVariant::Osc => final(self).osc == *final(r) && final(self).mdc == old(self).mdc,
                ControllerVariant::Mdc => final(self).mdc == *final(r) && final(self).osc == old(self).osc,
            },
    {
        match kind {
            ControllerVariant::Osc => &mut self.osc,
            ControllerVariant::Mdc => &mut self.mdc,
        }
    }

    fn osc_state(&mut self, labels: &LabelContainer, state: ControllerState)
        requires
            old(self).wf(),
        ensures
            final(self).wf(),
            final(self).view() == (ControllerView {
                osc_state: match old(self).labels {
                    ClientLabels::PerTarget => old(self).view().osc_state.insert(
                        labels_view(labels@),
                        if is_up(state) { 1i64 } else { 0i64 },
                    ),
                    ClientLabels::ByFilesystem => old(self).view().osc_state.insert(
                        labels_view(labels@),
                        wrapping_add_i64(value_or_zero(old(self).view().osc_state, labels_view(labels@), 0i64), 1),
                    ),
                },
                ..old(self).view()
            }),
    {
        match self.labels {
            ClientLabels::PerTarget => {
                let value: i64 = match state {
                    ControllerState::Full | ControllerState::Idle => 1,
                    _ => 0,
                };
                set_signed_gauge(&mut self.osc_state, labels, value);
            },
            ClientLabels::ByFilesystem => inc_signed_gauge(&mut self.osc_state, labels),
        }
    }

    fn build_osc_state(&mut self, s: &ControllerStat<OscState>)
        requires
            old(self).wf(),
        ensures
            final(self).wf(),
            final(self).view() == spec_controller_stats(
                old(self).view(),
                ControllerStatsView::OscState(s.deep_view()),
            ),
    {
        let labels: LabelContainer = match self.labels {
            ClientLabels::PerTarget => vec![
                ("controller", s.controller.0.clone()),
                ("current_state", s.value.current_state.name().to_owned()),
            ],
            ClientLabels::ByFilesystem => vec![
                ("fs", fs_name(s.controller.0.as_str()).to_owned()),
                ("current_state", s.value.current_state.name().to_owned()),
            ],
        };
        proof {
            assert(labels_view(labels@) =~= match self.labels {
                ClientLabels::PerTarget => seq![
                    ("controller"@, s.controller.0@),
                    ("current_state"@, spec_state_name(s.value.current_state)),
                ],
                ClientLabels::ByFilesystem => seq![
                    ("fs"@, spec_fs_name(s.controller.0@)),
                    ("current_state"@, spec_state_name(s.value.current_state)),
                ],
            });
        }
        self.osc_state(&labels, s.value.current_state);
    }

    fn side_stats(&mut self, s: &TimedControllerStat<Vec<Stat>>)
        requires
            old(self).wf(),
        ensures
            final(self).wf(),
            final(self).view() == with_side(old(self).view(), s.kind, spec_stats(side(old(self).view(), s.kind), s.deep_view())),
    {
        build_stats(s, self.side_mut(s.kind));
    }

    fn side_md_stats(&mut self, s: &TimedControllerStat<Vec<Stat>>)
        requires
            old(self).wf(),
        ensures
            final(self).wf(),
            final(self).view() == with_side(old(self).view(), s.kind, spec_md_stats(side(old(self).view(), s.kind), s.deep_view())),
    {
        build_md_stats(s, self.side_mut(s.kind));
    }

    fn side_rpc_stats(&mut self, s: &TimedControllerStat<RpcStats>)
        requires
            old(self).wf(),
            rpc_keys_in_range(s.value.deep_view()),
        ensures
            final(self).wf(),
            final(self).view() == with_side(old(self).view(), s.kind, spec_rpc_stats(side(old(self).view(), s.kind), s.deep_view())),
    {
        build_rpc_stats(s, self.side_mut(s.kind));
    }

    fn side_io_latency_stats(&mut self, s: &TimedControllerStat<Vec<BrwStats>>)
        requires
            old(self).wf(),
            io_latency_keys_in_range(s.value.deep_view()),
        ensures
            final(self).wf(),
            final(self).view() == with_side(old(self).view(), s.kind, spec_io_latency_stats(side(old(self).view(), s.kind), s.deep_view())),
    {
        build_io_latency_stats(s, self.side_mut(s.kind));
    }

    fn side_lockless_stats(&mut self, s: &TimedControllerStat<LocklessStats>)
        requires
            old(self).wf(),
        ensures
            final(self).wf(),
            final(self).view() == with_side(old(self).view(), s.kind, spec_lockless_stats(side(old(self).view(), s.kind), s.deep_view())),
    {
        build_lockless_stats(s, self.side_mut(s.kind));
    }

    fn side_unstable_stats(&mut self, s: &ControllerStat<Vec<KeyValue>>)
        requires
            old(self).wf(),
        ensures
            final(self).wf(),
            final(self).view() == with_side(old(self).view(), s.kind, spec_unstable_stats(side(old(self).view(), s.kind), s.deep_view())),
    {
        build_unstable_stats(s, self.side_mut(s.kind));
    }

    fn side_compression_stats(&mut self, s: &ControllerStat<Vec<KeyValue>>)
        requires
            old(self).wf(),
        ensures
            final(self).wf(),
            final(self).view() == with_side(old(self).view(), s.kind, spec_compression_stats(side(old(self).view(), s.kind), s.deep_view())),
    {
        build_compression_stats(s, self.side_mut(s.kind));
    }

    fn side_cur_grant_bytes(&mut self, s: &ControllerStat<u64>)
        requires
            old(self).wf(),
        ensures
            final(self).wf(),
            final(self).view() == with_side(
                old(self).view(),
                s.kind,
                ClientTargetView {
                    cur_grant_bytes: added(
                        side(old(self).view(), s.kind).cur_grant_bytes,
                        target_labels(side(old(self).view(), s.kind), s.controller.0@),
                        s.value,
                    ),
                    ..side(old(self).view(), s.kind)
                },
            ),
    {
        build_cur_grant_bytes(s, self.side_mut(s.kind));
    }

    fn side_cur_dirty_bytes(&mut self, s: &ControllerStat<u64>)
        requires
            old(self).wf(),
        ensures
            final(self).wf(),
            final(self).view() == with_side(
                old(self).view(),
                s.kind,
                ClientTargetView {
                    cur_dirty_bytes: added(
                        side(old(self).view(), s.kind).cur_dirty_bytes,
                        target_labels(side(old(self).view(), s.kind), s.controller.0@),
                        s.value,
                    ),
                    ..side(old(self).view(), s.kind)
                },
            ),
    {
        build_cur_dirty_bytes(s, self.side_mut(s.kind));
    }

    #[verifier::spinoff_prover]
    #[verifier::rlimit(30)]
    fn build_side(&mut self, x: &ControllerStats)
        requires
            old(self).wf(),
            controller_keys_in_range(x.deep_view()),
            !(x.deep_view() is OscState),
            !spec_is_osp(controller_of(x.deep_view())),
        ensures
            final(self).wf(),
            final(self).view() == spec_controller_stats(old(self).view(), x.deep_view()),
    {
        match x {
            ControllerStats::OscState(_) => {},
            ControllerStats::Stats(s) => self.side_stats(s),
            ControllerStats::MdStats(s) => self.side_md_stats(s),
            ControllerStats::RpcStats(s) => self.side_rpc_stats(s),
            ControllerStats::IoLatencyStats(s) => self.side_io_latency_stats(s),
            ControllerStats::LocklessStats(s) => self.side_lockless_stats(s),
            ControllerStats::UnstableStats(s) => self.side_unstable_stats(s),
            ControllerStats::CompressionStats(s) => self.side_compression_stats(s),
            ControllerStats::CurGrantBytes(s) => self.side_cur_grant_bytes(s),
            ControllerStats::CurDirtyBytes(s) => self.side_cur_dirty_bytes(s),
        }
    }

    /// Counts one controller record.
    pub fn build(&mut self, x: &ControllerStats)
        requires
            old(self).wf(),
            controller_keys_in_range(x.deep_view()),
        ensures
            final(self).wf(),
            final(self).view() == spec_controller_stats(old(self).view(), x.deep_view()),
    {
        let name = x.controller();
        match x {
            ControllerStats::OscState(s) => self.build_osc_state(s),
            _ => {
                if !is_osp(name.0.as_str()) {
                    self.build_side(x);
                }
            },
        }
    }
}

/// The record of an OSC's `state` parameter.
pub open spec fn state_record(controller: Seq<char>, state: ControllerState) -> ControllerStatsView {
    ControllerStatsView::OscState(
        ControllerStatView {
            kind: ControllerVariant::Osc,
            param: "state"@,
            controller,
            value: OscState { current_state: state },
        },
    )
}

/// The families after the `state` records of `(controller, state)` events
/// were counted one after the other.
pub open spec fn states_counted(v: ControllerView, es: Seq<(Seq<char>, ControllerState)>) -> ControllerView
    decreases es.len(),
{
    if es.len() == 0 {
        v
    } else {
        spec_controller_stats(states_counted(v, es.drop_last()), state_record(es.last().0, es.last().1))
    }
}

/// How many events are of an OSC of filesystem `fs` in a state printed as `name`.
pub open spec fn state_count(es: Seq<(Seq<char>, ControllerState)>, fs: Seq<char>, name: Seq<char>) -> nat
    decreases es.len(),
{
    if es.len() == 0 {
        0
    } else {
        state_count(es.drop_last(), fs, name) + if spec_fs_name(es.last().0) == fs && spec_state_name(
            es.last().1,
        ) == name {
            1nat
        } else {
            0nat
        }
    }
}

/// The series of `lustre_osc_state` per filesystem and state.
pub open spec fn fs_state_key(fs: Seq<char>, name: Seq<char>) -> LabelsView {
    seq![("fs"@, fs), ("current_state"@, name)]
}

/// The series of `lustre_osc_state` per controller and state.
pub open spec fn controller_state_key(controller: Seq<char>, name: Seq<char>) -> LabelsView {
    seq![("controller"@, controller), ("current_state"@, name)]
}

proof fn lemma_states_keep_labels(v: ControllerView, es: Seq<(Seq<char>, ControllerState)>)
    ensures
        states_counted(v, es).labels == v.labels,
    decreases es.len(),
{
    if es.len() > 0 {
        lemma_states_keep_labels(v, es.drop_last());
    }
}

proof fn lemma_state_count_bound(es: Seq<(Seq<char>, ControllerState)>, fs: Seq<char>, name: Seq<char>)
    ensures
        state_count(es, fs, name) <= es.len(),
        state_count(es, fs, name) == 0 <==> !exists|i: int|
            0 <= i < es.len() && spec_fs_name(#[trigger] es[i].0) == fs && spec_state_name(es[i].1) == name,
    decreases es.len(),
{
    if es.len() > 0 {
        let p = es.drop_last();
        lemma_state_count_bound(p, fs, name);
        if exists|i: int| 0 <= i < p.len() && spec_fs_name(#[trigger] p[i].0) == fs && spec_state_name(p[i].1) == name {
            let i = choose|i: int| 0 <= i < p.len() && spec_fs_name(#[trigger] p[i].0) == fs && spec_state_name(p[i].1) == name;
            assert(es[i] == p[i]);
        }
        if exists|i: int| 0 <= i < es.len() && spec_fs_name(#[trigger] es[i].0) == fs && spec_state_name(es[i].1) == name {
            let i = choose|i: int| 0 <= i < es.len() && spec_fs_name(#[trigger] es[i].0) == fs && spec_state_name(es[i].1) == name;
            if i < es.len() - 1 {
                assert(p[i] == es[i]);
            }
        }
    }
}

/// With [`ClientLabels::ByFilesystem`], `lustre_osc_state` counts the OSCs:
/// the series of a filesystem and a state holds how many `state` records of
/// the filesystem's OSCs showed that state, and there is no series where
/// there were none, as long as the count fits the gauge.
pub proof fn osc_states_are_counted_per_filesystem(
    v: ControllerView,
    es: Seq<(Seq<char>, ControllerState)>,
    fs: Seq<char>,
    name: Seq<char>,
)
    requires
        v.labels == ClientLabels::ByFilesystem,
        !v.osc_state.contains_key(fs_state_key(fs, name)),
        state_count(es, fs, name) <= i64::MAX,
    ensures
        states_counted(v, es).osc_state.contains_key(fs_state_key(fs, name)) <==> state_count(es, fs, name) > 0,
        state_count(es, fs, name) > 0 ==> states_counted(v, es).osc_state[fs_state_key(fs, name)]
            == state_count(es, fs, name),
    decreases es.len(),
{
    let k = fs_state_key(fs, name);
    if es.len() > 0 {
        let p = es.drop_last();
        let e = es.last();
        lemma_state_count_bound(p, fs, name);
        osc_states_are_counted_per_filesystem(v, p, fs, name);
        lemma_states_keep_labels(v, p);
        let w = states_counted(v, p);
        let ke = fs_state_key(spec_fs_name(e.0), spec_state_name(e.1));
        if spec_fs_name(e.0) == fs && spec_state_name(e.1) == name {
            assert(ke =~= k);
        } else {
            assert(ke != k) by {
                if spec_fs_name(e.0) != fs {
                    assert(ke[0].1 != k[0].1);
                } else {
                    assert(ke[1].1 != k[1].1);
                }
            }
        }
    }
}

/// The state names tell the states apart.
pub proof fn state_names_differ(a: ControllerState, b: ControllerState)
    ensures
        spec_state_name(a) == spec_state_name(b) ==> a == b,
{
    reveal_strlit("CLOSED");
    reveal_strlit("NEW");
    reveal_strlit("DISCONN");
    reveal_strlit("CONNECTING");
    reveal_strlit("REPLAY");
    reveal_strlit("REPLAY_LOCKS");
    reveal_strlit("REPLAY_WAIT");
    reveal_strlit("RECOVER");
    reveal_strlit("FULL");
    reveal_strlit("EVICTED");
    reveal_strlit("IDLE");
    if spec_state_name(a) == spec_state_name(b) {
        assert(spec_state_name(a).len() == spec_state_name(b).len());
        assert(spec_state_name(a)[0] == spec_state_name(b)[0]);
        if spec_state_name(a).len() == 12 || spec_state_name(a).len() == 11 {
            assert(spec_state_name(a)[7] == spec_state_name(b)[7]);
        }
    }
}

/// With [`ClientLabels::PerTarget`], `lustre_osc_state` has one series per
/// controller and state seen, which is 1 for `FULL` and `IDLE` and 0 for any
/// other state.
pub proof fn osc_states_are_flags_per_controller(
    v: ControllerView,
    es: Seq<(Seq<char>, ControllerState)>,
    controller: Seq<char>,
    state: ControllerState,
)
    requires
        v.labels == ClientLabels::PerTarget,
        !v.osc_state.contains_key(controller_state_key(controller, spec_state_name(state))),
    ensures
        states_counted(v, es).osc_state.contains_key(controller_state_key(controller, spec_state_name(state)))
            <==> exists|i: int| 0 <= i < es.len() && #[trigger] es[i] == (controller, state),
        states_counted(v, es).osc_state.contains_key(controller_state_key(controller, spec_state_name(state)))
            ==> states_counted(v, es).osc_state[controller_state_key(controller, spec_state_name(state))] == if is_up(
            state,
        ) {
            1i64
        } else {
            0i64
        },
    decreases es.len(),
{
    let k = controller_state_key(controller, spec_state_name(state));
    if es.len() > 0 {
        let p = es.drop_last();
        let e = es.last();
        osc_states_are_flags_per_controller(v, p, controller, state);
        lemma_states_keep_labels(v, p);
        let ke = controller_state_key(e.0, spec_state_name(e.1));
        if e == (controller, state) {
            assert(ke =~= k);
            assert(es[es.len() - 1] == e);
        } else {
            assert(ke != k) by {
                if e.0 != controller {
                    assert(ke[0].1 != k[0].1);
                } else {
                    state_names_differ(e.1, state);
                    assert(ke[1].1 != k[1].1);
                }
            }
            assert forall|i: int| 0 <= i < es.len() && #[trigger] es[i] == (controller, state) implies 0 <= i < p.len()
                && p[i] == (controller, state) by {
                assert(i != es.len() - 1);
            }
        }
        assert forall|i: int| 0 <= i < p.len() && #[trigger] p[i] == (controller, state) implies (0 <= i < es.len()
            && es[i] == (controller, state)) by {
            assert(es[i] == p[i]);
        }
    }
}

} // verus!
