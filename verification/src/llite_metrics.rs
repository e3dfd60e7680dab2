//! `llite.<mount>.*`: the client mount's own families, one series per mount.

use crate::client::{
    ClientLabels, LabelContainer, fs_name, labels, labels_view, observe_rw, observed_rw,
    set_start_time, spec_client_labels, spec_fs_name, with, with_start_time, wrapped,
    lemma_wrapping_add_wrapped,
};
use crate::client_target::op_labels;
use crate::family::{
    CounterFamily, GaugeFamily, LabelsView, added, counter_values, gauge_values, inc_counter,
    new_counters, new_gauges, set_gauge, value_or_zero,
};
use crate::strings::{replace_char, spec_replace_char, str_eq};
use crate::text::{spec_decimal, u64_to_string};
use crate::types::{
    ExtentsBucket, KeyValue, KeyValueView, LliteStat, LliteStatView, LliteTargetStat,
    LliteTargetStatView, ProcessExtents, ProcessExtentsView, RwStats, RwStatsView, StatView,
};
use vstd::prelude::*;

verus! {

/// The llite families.
pub struct LliteMetrics {
    pub client_stats: CounterFamily,
    pub client_stats_start_time: GaugeFamily,
    pub read_bytes_total: CounterFamily,
    pub write_bytes_total: CounterFamily,
    pub read_ahead_stats_total: CounterFamily,
    pub statahead_stats_total: CounterFamily,
    pub extents_total: CounterFamily,
    pub extents_per_process_total: CounterFamily,
    pub unstable_pages: GaugeFamily,
    pub unstable_check: GaugeFamily,
}

/// What the llite families hold.
pub struct LliteView {
    pub client_stats: Map<LabelsView, u64>,
    pub client_stats_start_time: Map<LabelsView, u64>,
    pub read_bytes: Map<LabelsView, u64>,
    pub write_bytes: Map<LabelsView, u64>,
    pub read_ahead_stats: Map<LabelsView, u64>,
    pub statahead_stats: Map<LabelsView, u64>,
    pub extents: Map<LabelsView, u64>,
    pub extents_per_process: Map<LabelsView, u64>,
    pub unstable_pages: Map<LabelsView, u64>,
    pub unstable_check: Map<LabelsView, u64>,
}

/// The llite families before anything was counted.
pub open spec fn empty_llite() -> LliteView {
    LliteView {
        client_stats: Map::empty(),
        client_stats_start_time: Map::empty(),
        read_bytes: Map::empty(),
        write_bytes: Map::empty(),
        read_ahead_stats: Map::empty(),
        statahead_stats: Map::empty(),
        extents: Map::empty(),
        extents_per_process: Map::empty(),
        unstable_pages: Map::empty(),
        unstable_check: Map::empty(),
    }
}

impl LliteMetrics {
    pub open spec fn view(&self) -> LliteView {
        LliteView {
            client_stats: counter_values(self.client_stats),
            client_stats_start_time: gauge_values(self.client_stats_start_time),
            read_bytes: counter_values(self.read_bytes_total),
            write_bytes: counter_values(self.write_bytes_total),
            read_ahead_stats: counter_values(self.read_ahead_stats_total),
            statahead_stats: counter_values(self.statahead_stats_total),
            extents: counter_values(self.extents_total),
            extents_per_process: counter_values(self.extents_per_process_total),
            unstable_pages: gauge_values(self.unstable_pages),
            unstable_check: gauge_values(self.unstable_check),
        }
    }

    /// The families, without series.
    pub fn new() -> (r: LliteMetrics)
        ensures
            r.view() == empty_llite(),
    {
        LliteMetrics {
            client_stats: new_counters(),
            client_stats_start_time: new_gauges(),
            read_bytes_total: new_counters(),
            write_bytes_total: new_counters(),
            read_ahead_stats_total: new_counters(),
            statahead_stats_total: new_counters(),
            extents_total: new_counters(),
            extents_per_process_total: new_counters(),
            unstable_pages: new_gauges(),
            unstable_check: new_gauges(),
        }
    }
}

impl Default for LliteMetrics {
    fn default() -> (r: LliteMetrics)
        ensures
            r.view() == empty_llite(),
    {
        LliteMetrics::new()
    }
}

/// The labels of a mount's series.
pub open spec fn mount_labels(target: Seq<char>) -> LabelsView {
    spec_client_labels(ClientLabels::PerTarget, target)
}

/// The series of a `lustre_client_stats` operation: `fs`, `operation`, `target`.
pub open spec fn client_stat_labels(target: Seq<char>, name: Seq<char>) -> LabelsView {
    seq![("fs"@, spec_fs_name(target)), ("operation"@, name), ("target"@, target)]
}

/// The families after one `llite.*.stats` line.
pub open spec fn llite_stat_step(v: LliteView, target: Seq<char>, s: StatView) -> LliteView {
    let l = mount_labels(target);
    LliteView {
        client_stats: added(v.client_stats, client_stat_labels(target, s.name), s.samples),
        read_bytes: if s.name == "read_bytes"@ && s.sum is Some {
            added(v.read_bytes, l, s.sum.unwrap())
        } else {
            v.read_bytes
        },
        write_bytes: if s.name == "write_bytes"@ && s.sum is Some {
            added(v.write_bytes, l, s.sum.unwrap())
        } else {
            v.write_bytes
        },
        ..v
    }
}

pub open spec fn llite_stats_fold(v: LliteView, target: Seq<char>, ss: Seq<StatView>) -> LliteView
    decreases ss.len(),
{
    if ss.len() == 0 {
        v
    } else {
        llite_stat_step(llite_stats_fold(v, target, ss.drop_last()), target, ss.last())
    }
}

/// `llite.*.stats`: the block's start time, then each line.
pub open spec fn spec_llite_stats(v: LliteView, x: LliteStatView) -> LliteView {
    llite_stats_fold(
        LliteView {
            client_stats_start_time: with_start_time(v.client_stats_start_time, mount_labels(x.target), x.header),
            ..v
        },
        x.target,
        x.stats,
    )
}

pub fn build_llite_stats(x: &LliteStat, metrics: &mut LliteMetrics)
    ensures
        final(metrics).view() == spec_llite_stats(old(metrics).view(), x.deep_view()),
{
    let target = x.target.0.as_str();
    let target_labels = labels(target);
    let ghost t = x.target.0@;
    set_start_time(&mut metrics.client_stats_start_time, &target_labels, &x.header);
    let ghost v1 = metrics.view();
    let mut i: usize = 0;
    while i < x.stats.len()
        invariant
            i <= x.stats@.len(),
            t == x.target.0@,
            t == target@,
            labels_view(target_labels@) == mount_labels(t),
            metrics.view() == llite_stats_fold(v1, t, x.stats.deep_view().take(i as int)),
        decreases x.stats.len() - i,
    {
        let stat = &x.stats[i];
        let ghost before = metrics.view();
        proof {
            assert(x.stats.deep_view()[i as int] == stat.deep_view());
        }
        let series: LabelContainer = vec![
            ("fs", fs_name(target).to_owned()),
            ("operation", stat.name.clone()),
            ("target", target.to_owned()),
        ];
        proof {
            assert(labels_view(series@) =~= client_stat_labels(t, stat.name@));
        }
        inc_counter(&mut metrics.client_stats, &series, stat.samples);
        match stat.sum {
            Some(sum) => {
                if str_eq(stat.name.as_str(), "read_bytes") {
                    inc_counter(&mut metrics.read_bytes_total, &target_labels, sum);
                } else if str_eq(stat.name.as_str(), "write_bytes") {
                    inc_counter(&mut metrics.write_bytes_total, &target_labels, sum);
                }
            },
            None => {},
        }
        proof {
            reveal_strlit("read_bytes");
            reveal_strlit("write_bytes");
            assert("read_bytes"@[0] != "write_bytes"@[0]);
            assert(metrics.view() == llite_stat_step(before, t, stat.deep_view()));
            assert(x.stats.deep_view().take(i + 1).drop_last() =~= x.stats.deep_view().take(i as int));
        }
        i += 1;
    }
    proof {
        assert(x.stats.deep_view().take(x.stats@.len() as int) =~= x.stats.deep_view());
    }
}

/// The total of the sums of the stats lines named `name` that carry one.
pub open spec fn named_sum(ss: Seq<StatView>, name: Seq<char>) -> nat
    decreases ss.len(),
{
    if ss.len() == 0 {
        0
    } else {
        named_sum(ss.drop_last(), name) + if ss.last().name == name && ss.last().sum is Some {
            ss.last().sum.unwrap() as nat
        } else {
            0
        }
    }
}

proof fn lemma_bytes_fold(v: LliteView, t: Seq<char>, ss: Seq<StatView>, k: LabelsView)
    ensures
        value_or_zero(llite_stats_fold(v, t, ss).read_bytes, k, 0) == if k == mount_labels(t) {
            wrapped(value_or_zero(v.read_bytes, k, 0) + named_sum(ss, "read_bytes"@))
        } else {
            value_or_zero(v.read_bytes, k, 0)
        },
        value_or_zero(llite_stats_fold(v, t, ss).write_bytes, k, 0) == if k == mount_labels(t) {
            wrapped(value_or_zero(v.write_bytes, k, 0) + named_sum(ss, "write_bytes"@))
        } else {
            value_or_zero(v.write_bytes, k, 0)
        },
    decreases ss.len(),
{
    let m: int = 0x1_0000_0000_0000_0000;
    if ss.len() == 0 {
        let a = value_or_zero(v.read_bytes, k, 0);
        let b = value_or_zero(v.write_bytes, k, 0);
        assert(a as int % m == a) by (nonlinear_arith)
            requires
                0 <= a < m,
        ;
        assert(b as int % m == b) by (nonlinear_arith)
            requires
                0 <= b < m,
        ;
    } else {
        let d = ss.drop_last();
        let e = ss.last();
        lemma_bytes_fold(v, t, d, k);
        let p = llite_stats_fold(v, t, d);
        if k == mount_labels(t) {
            if e.name == "read_bytes"@ && e.sum is Some {
                lemma_wrapping_add_wrapped(
                    value_or_zero(v.read_bytes, k, 0) + named_sum(d, "read_bytes"@),
                    e.sum.unwrap(),
                );
            }
            if e.name == "write_bytes"@ && e.sum is Some {
                lemma_wrapping_add_wrapped(
                    value_or_zero(v.write_bytes, k, 0) + named_sum(d, "write_bytes"@),
                    e.sum.unwrap(),
                );
            }
        }
    }
}

/// After an `llite.*.stats` record, the mount's read-bytes counter has grown
/// by exactly the sums of the lines named `read_bytes`, and its write-bytes
/// counter by those of the lines named `write_bytes` (modulo 2^64, as the
/// counters wrap); no other series of the two families changes.
pub proof fn llite_bytes_count_their_own_lines(v: LliteView, x: LliteStatView, k: LabelsView)
    ensures
        value_or_zero(spec_llite_stats(v, x).read_bytes, k, 0) == if k == mount_labels(x.target) {
            wrapped(value_or_zero(v.read_bytes, k, 0) + named_sum(x.stats, "read_bytes"@))
        } else {
            value_or_zero(v.read_bytes, k, 0)
        },
        value_or_zero(spec_llite_stats(v, x).write_bytes, k, 0) == if k == mount_labels(
            x.target,
        ) {
            wrapped(value_or_zero(v.write_bytes, k, 0) + named_sum(x.stats, "write_bytes"@))
        } else {
            value_or_zero(v.write_bytes, k, 0)
        },
{
    let v1 = LliteView {
        client_stats_start_time: with_start_time(
            v.client_stats_start_time,
            mount_labels(x.target),
            x.header,
        ),
        ..v
    };
    lemma_bytes_fold(v1, x.target, x.stats, k);
}

/// The counters after each line's samples were counted under its operation.
pub open spec fn ops_counted(m: Map<LabelsView, u64>, l: LabelsView, ss: Seq<StatView>) -> Map<LabelsView, u64>
    decreases ss.len(),
{
    if ss.len() == 0 {
        m
    } else {
        added(ops_counted(m, l, ss.drop_last()), op_labels(l, ss.last().name), ss.last().samples)
    }
}

pub fn build_read_ahead_stats(x: &LliteStat, metrics: &mut LliteMetrics)
    ensures
        final(metrics).view() == (LliteView {
            read_ahead_stats: ops_counted(
                old(metrics).view().read_ahead_stats,
                mount_labels(x.target.0@),
                x.stats.deep_view(),
            ),
            ..old(metrics).view()
        }),
{
    let target_labels = labels(x.target.0.as_str());
    let ghost l = labels_view(target_labels@);
    let ghost m0 = counter_values(metrics.read_ahead_stats_total);
    let mut i: usize = 0;
    while i < x.stats.len()
        invariant
            i <= x.stats@.len(),
            l == labels_view(target_labels@),
            counter_values(metrics.read_ahead_stats_total) == ops_counted(m0, l, x.stats.deep_view().take(i as int)),
            metrics.view() == (LliteView {
                read_ahead_stats: counter_values(metrics.read_ahead_stats_total),
                ..old(metrics).view()
            }),
        decreases x.stats.len() - i,
    {
        let stat = &x.stats[i];
        let op = with(&target_labels, "operation", stat.name.clone());
        inc_counter(&mut metrics.read_ahead_stats_total, &op, stat.samples);
        proof {
            assert(x.stats.deep_view().take(i + 1).drop_last() =~= x.stats.deep_view().take(i as int));
        }
        i += 1;
    }
    proof {
        assert(x.stats.deep_view().take(x.stats@.len() as int) =~= x.stats.deep_view());
    }
}

/// The counters after each value was counted under its name, spaces turned
/// into underscores: the kernel mixes `statahead total` and `hit_total`.
pub open spec fn statahead_counted(m: Map<LabelsView, u64>, l: LabelsView, kvs: Seq<KeyValueView>) -> Map<
    LabelsView,
    u64,
>
    decreases kvs.len(),
{
    if kvs.len() == 0 {
        m
    } else {
        added(
            statahead_counted(m, l, kvs.drop_last()),
            op_labels(l, spec_replace_char(kvs.last().name, ' ', '_')),
            kvs.last().value,
        )
    }
}

/// The kernel mixes `statahead total` and `hit_total`.
pub fn build_statahead_stats(x: &LliteTargetStat<Vec<KeyValue>>, metrics: &mut LliteMetrics)
    ensures
        final(metrics).view() == (LliteView {
            statahead_stats: statahead_counted(
                old(metrics).view().statahead_stats,
                mount_labels(x.target.0@),
                x.value.deep_view(),
            ),
            ..old(metrics).view()
        }),
{
    let target_labels = labels(x.target.0.as_str());
    let ghost l = labels_view(target_labels@);
    let ghost m0 = counter_values(metrics.statahead_stats_total);
    let mut i: usize = 0;
    while i < x.value.len()
        invariant
            i <= x.value@.len(),
            l == labels_view(target_labels@),
            counter_values(metrics.statahead_stats_total) == statahead_counted(
                m0,
                l,
                x.value.deep_view().take(i as int),
            ),
            metrics.view() == (LliteView {
                statahead_stats: counter_values(metrics.statahead_stats_total),
                ..old(metrics).view()
            }),
        decreases x.value.len() - i,
    {
        let kv = &x.value[i];
        let op = with(&target_labels, "operation", replace_char(kv.name.as_str(), ' ', '_'));
        inc_counter(&mut metrics.statahead_stats_total, &op, kv.value);
        proof {
            assert(x.value.deep_view().take(i + 1).drop_last() =~= x.value.deep_view().take(i as int));
        }
        i += 1;
    }
    proof {
        assert(x.value.deep_view().take(x.value@.len() as int) =~= x.value.deep_view());
    }
}

/// The families after one `unstable_stats` value: `unstable_pages` and
/// `unstable_check` are gauges; `unstable_mb`, derived from
/// `unstable_pages`, and any other value are skipped.
pub open spec fn llite_unstable_step(v: LliteView, l: LabelsView, kv: KeyValueView) -> LliteView {
    if kv.name == "unstable_pages"@ {
        LliteView { unstable_pages: v.unstable_pages.insert(l, kv.value), ..v }
    } else if kv.name == "unstable_check"@ {
        LliteView { unstable_check: v.unstable_check.insert(l, kv.value), ..v }
    } else {
        v
    }
}

pub open spec fn llite_unstable_fold(v: LliteView, l: LabelsView, kvs: Seq<KeyValueView>) -> LliteView
    decreases kvs.len(),
{
    if kvs.len() == 0 {
        v
    } else {
        llite_unstable_step(llite_unstable_fold(v, l, kvs.drop_last()), l, kvs.last())
    }
}

pub fn build_unstable_stats(x: &LliteTargetStat<Vec<KeyValue>>, metrics: &mut LliteMetrics)
    ensures
        final(metrics).view() == llite_unstable_fold(old(metrics).view(), mount_labels(x.target.0@), x.value.deep_view()),
{
    let target_labels = labels(x.target.0.as_str());
    let ghost l = labels_view(target_labels@);
    let mut i: usize = 0;
    while i < x.value.len()
        invariant
            i <= x.value@.len(),
            l == labels_view(target_labels@),
            metrics.view() == llite_unstable_fold(old(metrics).view(), l, x.value.deep_view().take(i as int)),
        decreases x.value.len() - i,
    {
        let kv = &x.value[i];
        if str_eq(kv.name.as_str(), "unstable_pages") {
            set_gauge(&mut metrics.unstable_pages, &target_labels, kv.value);
        } else if str_eq(kv.name.as_str(), "unstable_check") {
            set_gauge(&mut metrics.unstable_check, &target_labels, kv.value);
        }
        proof {
            assert(x.value.deep_view().take(i + 1).drop_last() =~= x.value.deep_view().take(i as int));
        }
        i += 1;
    }
    proof {
        assert(x.value.deep_view().take(x.value@.len() as int) =~= x.value.deep_view());
    }
}

/// The `(lower bound, read calls, write calls)` of each row.
pub open spec fn spec_extents(buckets: Seq<ExtentsBucket>) -> Seq<(u64, u64, u64)> {
    buckets.map_values(|b: ExtentsBucket| (b.lower_bytes, b.read_calls, b.write_calls))
}

/// The `(lower bound, read calls, write calls)` of each row.
pub fn extents(buckets: &[ExtentsBucket]) -> (r: Vec<(u64, u64, u64)>)
    ensures
        r@ == spec_extents(buckets@),
{
    let mut r: Vec<(u64, u64, u64)> = Vec::new();
    let mut i: usize = 0;
    while i < buckets.len()
        invariant
            i <= buckets@.len(),
            r@ == spec_extents(buckets@.take(i as int)),
        decreases buckets.len() - i,
    {
        let b = buckets[i];
        r.push((b.lower_bytes, b.read_calls, b.write_calls));
        proof {
            assert(spec_extents(buckets@.take(i + 1)) =~= spec_extents(buckets@.take(i as int)).push(
                (b.lower_bytes, b.read_calls, b.write_calls),
            ));
        }
        i += 1;
    }
    proof {
        assert(buckets@.take(buckets@.len() as int) =~= buckets@);
    }
    r
}

/// `extents_stats`, when it is switched on: one counter per size and
/// direction.
pub open spec fn spec_extents_stats(v: LliteView, x: LliteTargetStatView<RwStatsView<Seq<ExtentsBucket>>>) -> LliteView {
    match x.value {
        RwStatsView::Enabled { value, .. } => LliteView {
            extents: observed_rw(v.extents, mount_labels(x.target), spec_extents(value)),
            ..v
        },
        RwStatsView::Disabled => v,
    }
}

pub fn build_extents_stats(x: &LliteTargetStat<RwStats<Vec<ExtentsBucket>>>, metrics: &mut LliteMetrics)
    ensures
        final(metrics).view() == spec_extents_stats(old(metrics).view(), x.deep_view()),
{
    match &x.value {
        RwStats::Enabled { value, .. } => {
            proof {
                assert(value.deep_view() =~= value@);
            }
            let rows = extents(value.as_slice());
            observe_rw(&mut metrics.extents_total, &labels(x.target.0.as_str()), rows.as_slice());
        },
        RwStats::Disabled => {},
    }
}

/// The counters after each process's rows were counted under its `pid`.
pub open spec fn processes_counted(m: Map<LabelsView, u64>, l: LabelsView, ps: Seq<ProcessExtentsView>) -> Map<
    LabelsView,
    u64,
>
    decreases ps.len(),
{
    if ps.len() == 0 {
        m
    } else {
        observed_rw(
            processes_counted(m, l, ps.drop_last()),
            l.push(("pid"@, spec_decimal(ps.last().pid as nat))),
            spec_extents(ps.last().buckets),
        )
    }
}

/// `extents_stats_per_process`, when it is switched on: every `pid` is a
/// new series.
pub open spec fn spec_extents_stats_per_process(
    v: LliteView,
    x: LliteTargetStatView<RwStatsView<Seq<ProcessExtentsView>>>,
) -> LliteView {
    match x.value {
        RwStatsView::Enabled { value, .. } => LliteView {
            extents_per_process: processes_counted(v.extents_per_process, mount_labels(x.target), value),
            ..v
        },
        RwStatsView::Disabled => v,
    }
}

pub fn build_extents_stats_per_process(
    x: &LliteTargetStat<RwStats<Vec<ProcessExtents>>>,
    metrics: &mut LliteMetrics,
)
    ensures
        final(metrics).view() == spec_extents_stats_per_process(old(metrics).view(), x.deep_view()),
{
    match &x.value {
        RwStats::Enabled { value, .. } => {
            let target_labels = labels(x.target.0.as_str());
            let ghost l = labels_view(target_labels@);
            let ghost m0 = counter_values(metrics.extents_per_process_total);
            let mut i: usize = 0;
            while i < value.len()
                invariant
                    i <= value@.len(),
                    l == labels_view(target_labels@),
                    counter_values(metrics.extents_per_process_total) == processes_counted(
                        m0,
                        l,
                        value.deep_view().take(i as int),
                    ),
                    metrics.view() == (LliteView {
                        extents_per_process: counter_values(metrics.extents_per_process_total),
                        ..old(metrics).view()
                    }),
                decreases value.len() - i,
            {
                let process = &value[i];
                proof {
                    assert(value.deep_view()[i as int] == process.deep_view());
                    assert(process.buckets.deep_view() =~= process.buckets@);
                }
                let series = with(&target_labels, "pid", u64_to_string(process.pid));
                let rows = extents(process.buckets.as_slice());
                observe_rw(&mut metrics.extents_per_process_total, &series, rows.as_slice());
                proof {
                    assert(value.deep_view().take(i + 1).drop_last() =~= value.deep_view().take(i as int));
                }
                i += 1;
            }
            proof {
                assert(value.deep_view().take(value@.len() as int) =~= value.deep_view());
            }
        },
        RwStats::Disabled => {},
    }
}

} // verus!
