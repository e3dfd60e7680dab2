//! `osc.<target>.*` and `mdc.<target>.*`: the same families for both,
//! named `lustre_client_<osc|mdc>_*`, plus the ones only one side prints.

use crate::client::{
    added_all, added_events_sum, extreme_of, lemma_added_all_concat, lemma_merged_events_concat,
    merged_events, merged_events_keep_extremes, spec_start_seconds, sums_to, ClientLabels, ExtendedClientMetrics, LabelContainer, labels_view, merge_max, merge_min,
    merged, set_start_time, spec_client_labels, with, with_start_time, wrapped,
    lemma_wrapping_add_wrapped,
};
use crate::family::{
    CounterFamily, GaugeFamily, LabelsView, added, counter_values, gauge_values, inc_counter,
    inc_gauge, new_counters, new_gauges, value_or_zero, wrapping_add,
};
use crate::histogram::{
    Bucket, Bucketed, BucketedView, HistogramEncoding, Table, bucketed_observed,
    bucketed_observed_rw, empty_bucketed, spec_bucket, spec_scaled,
};
use crate::strings::{
    spec_split, spec_starts_with, spec_strip_prefix, split_char, starts_with, str_eq, strip_prefix,
};
use crate::types::{
    BrwStats, BrwStatsBucket, BrwStatsView, ControllerStat, ControllerStatView, ControllerVariant,
    CountBucket, KeyValue, KeyValueView, LocklessStats, RpcStats, RpcStatsView, Stat, StatView,
    TimedControllerStat, TimedControllerStatView,
};
use vstd::prelude::*;

verus! {

/// The families of one of osc and mdc.
pub struct ClientTargetMetrics {
    pub component: ControllerVariant,
    pub labels: ClientLabels,
    pub extended: ExtendedClientMetrics,
    pub stats_total: CounterFamily,
    pub stats_start_time: GaugeFamily,
    pub stats_time_min: GaugeFamily,
    pub stats_time_max: GaugeFamily,
    pub stats_time_sum: CounterFamily,
    pub rpc_read_in_flight: GaugeFamily,
    pub rpc_write_in_flight: GaugeFamily,
    pub rpc_pending_write_pages: GaugeFamily,
    pub rpc_pending_read_pages: GaugeFamily,
    pub rpc_pages_per_rpc_total: Bucketed,
    pub rpc_bytes_per_rpc_total: Bucketed,
    pub rpc_rpcs_in_flight_total: Bucketed,
    pub rpc_offset_total: Bucketed,
    pub lockless_read_bytes_total: CounterFamily,
    pub lockless_write_bytes_total: CounterFamily,
    pub lockless_truncates_total: CounterFamily,
    // osc only
    pub read_bytes_total: CounterFamily,
    pub write_bytes_total: CounterFamily,
    pub rpc_dio_in_flight: GaugeFamily,
    pub rpc_latency_total: Bucketed,
    pub io_latency_total: Bucketed,
    pub unstable_pages: GaugeFamily,
    pub compress_write_pages: CounterFamily,
    pub compress_write_chunks: CounterFamily,
    pub compress_write_bytes: CounterFamily,
    pub compress_read_pages: CounterFamily,
    pub compress_read_chunks: CounterFamily,
    pub compress_read_bytes: CounterFamily,
    pub cur_grant_bytes: GaugeFamily,
    pub cur_dirty_bytes: GaugeFamily,
    // mdc only
    pub md_stats_requests_total: CounterFamily,
    pub rpc_modify_in_flight: GaugeFamily,
    pub rpc_modify_rpcs_in_flight_total: Bucketed,
}

/// What the families of [`ClientTargetMetrics`] hold.
pub struct ClientTargetView {
    pub component: ControllerVariant,
    pub labels: ClientLabels,
    pub extended: ExtendedClientMetrics,
    pub stats_total: Map<LabelsView, u64>,
    pub stats_start_time: Map<LabelsView, u64>,
    pub stats_time_min: Map<LabelsView, u64>,
    pub stats_time_max: Map<LabelsView, u64>,
    pub stats_time_sum: Map<LabelsView, u64>,
    pub rpc_read_in_flight: Map<LabelsView, u64>,
    pub rpc_write_in_flight: Map<LabelsView, u64>,
    pub rpc_pending_write_pages: Map<LabelsView, u64>,
    pub rpc_pending_read_pages: Map<LabelsView, u64>,
    pub rpc_pages_per_rpc: BucketedView,
    pub rpc_bytes_per_rpc: BucketedView,
    pub rpc_rpcs_in_flight: BucketedView,
    pub rpc_offset: BucketedView,
    pub lockless_read_bytes: Map<LabelsView, u64>,
    pub lockless_write_bytes: Map<LabelsView, u64>,
    pub lockless_truncates: Map<LabelsView, u64>,
    pub read_bytes: Map<LabelsView, u64>,
    pub write_bytes: Map<LabelsView, u64>,
    pub rpc_dio_in_flight: Map<LabelsView, u64>,
    pub rpc_latency: BucketedView,
    pub io_latency: BucketedView,
    pub unstable_pages: Map<LabelsView, u64>,
    pub compress_write_pages: Map<LabelsView, u64>,
    pub compress_write_chunks: Map<LabelsView, u64>,
    pub compress_write_bytes: Map<LabelsView, u64>,
    pub compress_read_pages: Map<LabelsView, u64>,
    pub compress_read_chunks: Map<LabelsView, u64>,
    pub compress_read_bytes: Map<LabelsView, u64>,
    pub cur_grant_bytes: Map<LabelsView, u64>,
    pub cur_dirty_bytes: Map<LabelsView, u64>,
    pub md_stats_requests: Map<LabelsView, u64>,
    pub rpc_modify_in_flight: Map<LabelsView, u64>,
    pub rpc_modify_rpcs_in_flight: BucketedView,
}

/// The families of `component` before anything was counted.
pub open spec fn empty_client_target(
    component: ControllerVariant,
    labels: ClientLabels,
    histograms: HistogramEncoding,
    extended: ExtendedClientMetrics,
) -> ClientTargetView {
    ClientTargetView {
        component,
        labels,
        extended,
        stats_total: Map::empty(),
        stats_start_time: Map::empty(),
        stats_time_min: Map::empty(),
        stats_time_max: Map::empty(),
        stats_time_sum: Map::empty(),
        rpc_read_in_flight: Map::empty(),
        rpc_write_in_flight: Map::empty(),
        rpc_pending_write_pages: Map::empty(),
        rpc_pending_read_pages: Map::empty(),
        rpc_pages_per_rpc: empty_bucketed(histograms),
        rpc_bytes_per_rpc: empty_bucketed(histograms),
        rpc_rpcs_in_flight: empty_bucketed(histograms),
        rpc_offset: empty_bucketed(histograms),
        lockless_read_bytes: Map::empty(),
        lockless_write_bytes: Map::empty(),
        lockless_truncates: Map::empty(),
        read_bytes: Map::empty(),
        write_bytes: Map::empty(),
        rpc_dio_in_flight: Map::empty(),
        rpc_latency: empty_bucketed(histograms),
        io_latency: empty_bucketed(histograms),
        unstable_pages: Map::empty(),
        compress_write_pages: Map::empty(),
        compress_write_chunks: Map::empty(),
        compress_write_bytes: Map::empty(),
        compress_read_pages: Map::empty(),
        compress_read_chunks: Map::empty(),
        compress_read_bytes: Map::empty(),
        cur_grant_bytes: Map::empty(),
        cur_dirty_bytes: Map::empty(),
        md_stats_requests: Map::empty(),
        rpc_modify_in_flight: Map::empty(),
        rpc_modify_rpcs_in_flight: empty_bucketed(histograms),
    }
}

/// Whether two views are of the same side, labelled and extended alike.
pub open spec fn same_kind(a: ClientTargetView, b: ClientTargetView) -> bool {
    a.component == b.component && a.labels == b.labels && a.extended == b.extended
}

/// The labels of the series of `controller`.
pub open spec fn target_labels(v: ClientTargetView, controller: Seq<char>) -> LabelsView {
    spec_client_labels(v.labels, controller)
}

/// `l` with the operation appended.
pub open spec fn op_labels(l: LabelsView, name: Seq<char>) -> LabelsView {
    l.push(("operation"@, name))
}

/// The counters after each stat's samples were counted under its operation.
pub open spec fn samples_counted(m: Map<LabelsView, u64>, l: LabelsView, stats: Seq<StatView>) -> Map<
    LabelsView,
    u64,
>
    decreases stats.len(),
{
    if stats.len() == 0 {
        m
    } else {
        added(samples_counted(m, l, stats.drop_last()), op_labels(l, stats.last().name), stats.last().samples)
    }
}

/// `md_stats`: one request counter per operation.
#[verifier::opaque]
pub open spec fn spec_md_stats(v: ClientTargetView, x: TimedControllerStatView<Seq<StatView>>) -> ClientTargetView {
    ClientTargetView {
        md_stats_requests: samples_counted(v.md_stats_requests, target_labels(v, x.controller), x.value),
        ..v
    }
}

/// The lockless byte counters, and the truncates where they are printed.
#[verifier::opaque]
pub open spec fn spec_lockless_stats(v: ClientTargetView, x: TimedControllerStatView<LocklessStats>) -> ClientTargetView {
    let l = target_labels(v, x.controller);
    ClientTargetView {
        lockless_read_bytes: added(v.lockless_read_bytes, l, x.value.read_bytes),
        lockless_write_bytes: added(v.lockless_write_bytes, l, x.value.write_bytes),
        lockless_truncates: match x.value.truncates {
            Some(t) => added(v.lockless_truncates, l, t),
            None => v.lockless_truncates,
        },
        ..v
    }
}

/// `unstable_stats` after one value: `unstable_pages` is kept, the rest is not.
pub open spec fn unstable_step(v: ClientTargetView, l: LabelsView, kv: KeyValueView) -> ClientTargetView {
    if kv.name == "unstable_pages"@ {
        ClientTargetView { unstable_pages: added(v.unstable_pages, l, kv.value), ..v }
    } else {
        v
    }
}

pub open spec fn unstable_fold(v: ClientTargetView, l: LabelsView, kvs: Seq<KeyValueView>) -> ClientTargetView
    decreases kvs.len(),
{
    if kvs.len() == 0 {
        v
    } else {
        unstable_step(unstable_fold(v, l, kvs.drop_last()), l, kvs.last())
    }
}

#[verifier::opaque]
pub open spec fn spec_unstable_stats(v: ClientTargetView, x: ControllerStatView<Seq<KeyValueView>>) -> ClientTargetView {
    unstable_fold(v, target_labels(v, x.controller), x.value)
}

impl ClientTargetMetrics {
    pub open spec fn view(&self) -> ClientTargetView {
        ClientTargetView {
            component: self.component,
            labels: self.labels,
            extended: self.extended,
            stats_total: counter_values(self.stats_total),
            stats_start_time: gauge_values(self.stats_start_time),
            stats_time_min: gauge_values(self.stats_time_min),
            stats_time_max: gauge_values(self.stats_time_max),
            stats_time_sum: counter_values(self.stats_time_sum),
            rpc_read_in_flight: gauge_values(self.rpc_read_in_flight),
            rpc_write_in_flight: gauge_values(self.rpc_write_in_flight),
            rpc_pending_write_pages: gauge_values(self.rpc_pending_write_pages),
            rpc_pending_read_pages: gauge_values(self.rpc_pending_read_pages),
            rpc_pages_per_rpc: self.rpc_pages_per_rpc_total.view(),
            rpc_bytes_per_rpc: self.rpc_bytes_per_rpc_total.view(),
            rpc_rpcs_in_flight: self.rpc_rpcs_in_flight_total.view(),
            rpc_offset: self.rpc_offset_total.view(),
            lockless_read_bytes: counter_values(self.lockless_read_bytes_total),
            lockless_write_bytes: counter_values(self.lockless_write_bytes_total),
            lockless_truncates: counter_values(self.lockless_truncates_total),
            read_bytes: counter_values(self.read_bytes_total),
            write_bytes: counter_values(self.write_bytes_total),
            rpc_dio_in_flight: gauge_values(self.rpc_dio_in_flight),
            rpc_latency: self.rpc_latency_total.view(),
            io_latency: self.io_latency_total.view(),
            unstable_pages: gauge_values(self.unstable_pages),
            compress_write_pages: counter_values(self.compress_write_pages),
            compress_write_chunks: counter_values(self.compress_write_chunks),
            compress_write_bytes: counter_values(self.compress_write_bytes),
            compress_read_pages: counter_values(self.compress_read_pages),
            compress_read_chunks: counter_values(self.compress_read_chunks),
            compress_read_bytes: counter_values(self.compress_read_bytes),
            cur_grant_bytes: gauge_values(self.cur_grant_bytes),
            cur_dirty_bytes: gauge_values(self.cur_dirty_bytes),
            md_stats_requests: counter_values(self.md_stats_requests_total),
            rpc_modify_in_flight: gauge_values(self.rpc_modify_in_flight),
            rpc_modify_rpcs_in_flight: self.rpc_modify_rpcs_in_flight_total.view(),
        }
    }

    /// The histogram families keep one series per label set.
    pub open spec fn wf(&self) -> bool {
        &&& self.rpc_pages_per_rpc_total.wf()
        &&& self.rpc_bytes_per_rpc_total.wf()
        &&& self.rpc_rpcs_in_flight_total.wf()
        &&& self.rpc_offset_total.wf()
        &&& self.rpc_latency_total.wf()
        &&& self.io_latency_total.wf()
        &&& self.rpc_modify_rpcs_in_flight_total.wf()
    }

    /// The families of `component`, without series.
    pub fn new(
        component: ControllerVariant,
        labels: ClientLabels,
        histograms: HistogramEncoding,
        extended: ExtendedClientMetrics,
    ) -> (r: ClientTargetMetrics)
        ensures
            r.wf(),
            r.view() == empty_client_target(component, labels, histograms, extended),
    {
        let r = ClientTargetMetrics {
            component,
            labels,
            extended,
            stats_total: new_counters(),
            stats_start_time: new_gauges(),
            stats_time_min: new_gauges(),
            stats_time_max: new_gauges(),
            stats_time_sum: new_counters(),
            rpc_read_in_flight: new_gauges(),
            rpc_write_in_flight: new_gauges(),
            rpc_pending_write_pages: new_gauges(),
            rpc_pending_read_pages: new_gauges(),
            rpc_pages_per_rpc_total: Bucketed::new(histograms),
            rpc_bytes_per_rpc_total: Bucketed::new(histograms),
            rpc_rpcs_in_flight_total: Bucketed::new(histograms),
            rpc_offset_total: Bucketed::new(histograms),
            lockless_read_bytes_total: new_counters(),
            lockless_write_bytes_total: new_counters(),
            lockless_truncates_total: new_counters(),
            read_bytes_total: new_counters(),
            write_bytes_total: new_counters(),
            rpc_dio_in_flight: new_gauges(),
            rpc_latency_total: Bucketed::new(histograms),
            io_latency_total: Bucketed::new(histograms),
            unstable_pages: new_gauges(),
            compress_write_pages: new_counters(),
            compress_write_chunks: new_counters(),
            compress_write_bytes: new_counters(),
            compress_read_pages: new_counters(),
            compress_read_chunks: new_counters(),
            compress_read_bytes: new_counters(),
            cur_grant_bytes: new_gauges(),
            cur_dirty_bytes: new_gauges(),
            md_stats_requests_total: new_counters(),
            rpc_modify_in_flight: new_gauges(),
            rpc_modify_rpcs_in_flight_total: Bucketed::new(histograms),
        };
        r
    }
}

/// The labels of the series of `controller` under `mode`.
fn series_labels(mode: ClientLabels, controller: &String) -> (xs: LabelContainer)
    ensures
        labels_view(xs@) == spec_client_labels(mode, controller@),
{
    mode.labels(controller.as_str())
}

pub fn build_md_stats(x: &TimedControllerStat<Vec<Stat>>, metrics: &mut ClientTargetMetrics)
    requires
        old(metrics).wf(),
    ensures
        final(metrics).wf(),
        same_kind(final(metrics).view(), old(metrics).view()),
        final(metrics).view() == spec_md_stats(old(metrics).view(), x.deep_view()),
{
    proof {
        reveal(spec_md_stats);
    }
    let labels = series_labels(metrics.labels, &x.controller.0);
    let ghost l = labels_view(labels@);
    let ghost m0 = counter_values(metrics.md_stats_requests_total);
    let mut i: usize = 0;
    while i < x.value.len()
        invariant
            i <= x.value@.len(),
            l == labels_view(labels@),
            counter_values(metrics.md_stats_requests_total) == samples_counted(
                m0,
                l,
                x.value.deep_view().take(i as int),
            ),
            metrics.view() == (ClientTargetView {
                md_stats_requests: counter_values(metrics.md_stats_requests_total),
                ..old(metrics).view()
            }),
            metrics.wf(),
            same_kind(metrics.view(), old(metrics).view()),
        decreases x.value.len() - i,
    {
        let stat = &x.value[i];
        let op = with(&labels, "operation", stat.name.clone());
        inc_counter(&mut metrics.md_stats_requests_total, &op, stat.samples);
        proof {
            assert(x.value.deep_view().take(i + 1).drop_last() =~= x.value.deep_view().take(i as int));
        }
        i += 1;
    }
    proof {
        assert(x.value.deep_view().take(x.value@.len() as int) =~= x.value.deep_view());
    }
}

pub fn build_lockless_stats(x: &TimedControllerStat<LocklessStats>, metrics: &mut ClientTargetMetrics)
    requires
        old(metrics).wf(),
    ensures
        final(metrics).wf(),
        same_kind(final(metrics).view(), old(metrics).view()),
        final(metrics).view() == spec_lockless_stats(old(metrics).view(), x.deep_view()),
{
    proof {
        reveal(spec_lockless_stats);
    }
    let labels = series_labels(metrics.labels, &x.controller.0);
    inc_counter(&mut metrics.lockless_read_bytes_total, &labels, x.value.read_bytes);
    inc_counter(&mut metrics.lockless_write_bytes_total, &labels, x.value.write_bytes);
    match x.value.truncates {
        Some(truncates) => inc_counter(&mut metrics.lockless_truncates_total, &labels, truncates),
        None => {},
    }
}

pub fn build_unstable_stats(x: &ControllerStat<Vec<KeyValue>>, metrics: &mut ClientTargetMetrics)
    requires
        old(metrics).wf(),
    ensures
        final(metrics).wf(),
        same_kind(final(metrics).view(), old(metrics).view()),
        final(metrics).view() == spec_unstable_stats(old(metrics).view(), x.deep_view()),
{
    proof {
        reveal(spec_unstable_stats);
    }
    let labels = series_labels(metrics.labels, &x.controller.0);
    let ghost l = labels_view(labels@);
    let mut i: usize = 0;
    while i < x.value.len()
        invariant
            i <= x.value@.len(),
            l == labels_view(labels@),
            l == target_labels(old(metrics).view(), x.controller.0@),
            metrics.view() == unstable_fold(old(metrics).view(), l, x.value.deep_view().take(i as int)),
            metrics.wf(),
            same_kind(metrics.view(), old(metrics).view()),
        decreases x.value.len() - i,
    {
        let kv = &x.value[i];
        // unstable_mb is derived from unstable_pages.
        if str_eq(kv.name.as_str(), "unstable_pages") {
            inc_gauge(&mut metrics.unstable_pages, &labels, kv.value);
        }
        proof {
            assert(x.value.deep_view().take(i + 1).drop_last() =~= x.value.deep_view().take(i as int));
        }
        i += 1;
    }
    proof {
        assert(x.value.deep_view().take(x.value@.len() as int) =~= x.value.deep_view());
    }
}

pub fn build_cur_grant_bytes(x: &ControllerStat<u64>, metrics: &mut ClientTargetMetrics)
    requires
        old(metrics).wf(),
    ensures
        final(metrics).wf(),
        same_kind(final(metrics).view(), old(metrics).view()),
        final(metrics).view() == (ClientTargetView {
            cur_grant_bytes: added(
                old(metrics).view().cur_grant_bytes,
                target_labels(old(metrics).view(), x.controller.0@),
                x.value,
            ),
            ..old(metrics).view()
        }),
{
    let labels = series_labels(metrics.labels, &x.controller.0);
    inc_gauge(&mut metrics.cur_grant_bytes, &labels, x.value);
}

pub fn build_cur_dirty_bytes(x: &ControllerStat<u64>, metrics: &mut ClientTargetMetrics)
    requires
        old(metrics).wf(),
    ensures
        final(metrics).wf(),
        same_kind(final(metrics).view(), old(metrics).view()),
        final(metrics).view() == (ClientTargetView {
            cur_dirty_bytes: added(
                old(metrics).view().cur_dirty_bytes,
                target_labels(old(metrics).view(), x.controller.0@),
                x.value,
            ),
            ..old(metrics).view()
        }),
{
    let labels = series_labels(metrics.labels, &x.controller.0);
    inc_gauge(&mut metrics.cur_dirty_bytes, &labels, x.value);
}

/// Whether a stat's times are in microseconds.
pub open spec fn is_timed(s: StatView) -> bool {
    spec_starts_with(s.units, "usec"@)
}

/// The families after one `stats` line: its samples; its times when they
/// are microseconds; and `read_bytes` and `write_bytes` also feed the byte
/// counters.
pub open spec fn stat_step(v: ClientTargetView, l: LabelsView, s: StatView) -> ClientTargetView {
    let op = op_labels(l, s.name);
    ClientTargetView {
        stats_total: added(v.stats_total, op, s.samples),
        stats_time_min: if is_timed(s) && s.min is Some {
            merged(v.stats_time_min, op, s.min.unwrap(), true)
        } else {
            v.stats_time_min
        },
        stats_time_max: if is_timed(s) && s.max is Some {
            merged(v.stats_time_max, op, s.max.unwrap(), false)
        } else {
            v.stats_time_max
        },
        stats_time_sum: if is_timed(s) && s.sum is Some {
            added(v.stats_time_sum, op, s.sum.unwrap())
        } else {
            v.stats_time_sum
        },
        read_bytes: if s.name == "read_bytes"@ && s.sum is Some {
            added(v.read_bytes, l, s.sum.unwrap())
        } else {
            v.read_bytes
        },
        write_bytes: if s.name == "write_bytes"@ && s.sum is Some {
            added(v.write_bytes, l, s.sum.unwrap())
        } else {
            v.write_bytes
        },
        ..v
    }
}

pub open spec fn stats_fold(v: ClientTargetView, l: LabelsView, ss: Seq<StatView>) -> ClientTargetView
    decreases ss.len(),
{
    if ss.len() == 0 {
        v
    } else {
        stat_step(stats_fold(v, l, ss.drop_last()), l, ss.last())
    }
}

/// `stats`: the block's start time, then each line.
#[verifier::opaque]
pub open spec fn spec_stats(v: ClientTargetView, x: TimedControllerStatView<Seq<StatView>>) -> ClientTargetView {
    let l = target_labels(v, x.controller);
    stats_fold(
        ClientTargetView { stats_start_time: with_start_time(v.stats_start_time, l, x.header), ..v },
        l,
        x.value,
    )
}

/// `read_bytes` and `write_bytes` also feed the byte counters.
pub fn build_stats(x: &TimedControllerStat<Vec<Stat>>, metrics: &mut ClientTargetMetrics)
    requires
        old(metrics).wf(),
    ensures
        final(metrics).wf(),
        same_kind(final(metrics).view(), old(metrics).view()),
        final(metrics).view() == spec_stats(old(metrics).view(), x.deep_view()),
{
    proof {
        reveal(spec_stats);
    }
    let labels = series_labels(metrics.labels, &x.controller.0);
    let ghost l = labels_view(labels@);
    set_start_time(&mut metrics.stats_start_time, &labels, &x.header);
    let ghost v1 = metrics.view();
    let mut i: usize = 0;
    while i < x.value.len()
        invariant
            i <= x.value@.len(),
            l == labels_view(labels@),
            metrics.view() == stats_fold(v1, l, x.value.deep_view().take(i as int)),
            metrics.wf(),
            same_kind(metrics.view(), old(metrics).view()),
        decreases x.value.len() - i,
    {
        let stat = &x.value[i];
        let ghost before = metrics.view();
        proof {
            assert(x.value.deep_view()[i as int] == stat.deep_view());
        }
        let op = with(&labels, "operation", stat.name.clone());
        inc_counter(&mut metrics.stats_total, &op, stat.samples);
        if starts_with(stat.units.as_str(), "usec") {
            match stat.min {
                Some(min) => merge_min(&mut metrics.stats_time_min, &op, min),
                None => {},
            }
            match stat.max {
                Some(max) => merge_max(&mut metrics.stats_time_max, &op, max),
                None => {},
            }
            match stat.sum {
                Some(sum) => inc_counter(&mut metrics.stats_time_sum, &op, sum),
                None => {},
            }
        }
        match stat.sum {
            Some(sum) => {
                if str_eq(stat.name.as_str(), "read_bytes") {
                    inc_counter(&mut metrics.read_bytes_total, &labels, sum);
                } else if str_eq(stat.name.as_str(), "write_bytes") {
                    inc_counter(&mut metrics.write_bytes_total, &labels, sum);
                }
            },
            None => {},
        }
        proof {
            reveal_strlit("read_bytes");
            reveal_strlit("write_bytes");
            assert("read_bytes"@[0] != "write_bytes"@[0]);
            assert(metrics.view() == stat_step(before, l, stat.deep_view()));
            assert(x.value.deep_view().take(i + 1).drop_last() =~= x.value.deep_view().take(i as int));
        }
        i += 1;
    }
    proof {
        assert(x.value.deep_view().take(x.value@.len() as int) =~= x.value.deep_view());
    }
}

/// The families after one `rpc_stats` value line.
pub open spec fn rpc_scalar_step(v: ClientTargetView, l: LabelsView, kv: KeyValueView) -> ClientTargetView {
    if kv.name == "modify_RPCs_in_flight"@ {
        ClientTargetView { rpc_modify_in_flight: added(v.rpc_modify_in_flight, l, kv.value), ..v }
    } else if kv.name == "read RPCs in flight"@ {
        ClientTargetView { rpc_read_in_flight: added(v.rpc_read_in_flight, l, kv.value), ..v }
    } else if kv.name == "write RPCs in flight"@ {
        ClientTargetView { rpc_write_in_flight: added(v.rpc_write_in_flight, l, kv.value), ..v }
    } else if kv.name == "DIO RPCs in flight"@ {
        ClientTargetView { rpc_dio_in_flight: added(v.rpc_dio_in_flight, l, kv.value), ..v }
    } else if kv.name == "pending write pages"@ {
        ClientTargetView { rpc_pending_write_pages: added(v.rpc_pending_write_pages, l, kv.value), ..v }
    } else if kv.name == "pending read pages"@ {
        ClientTargetView { rpc_pending_read_pages: added(v.rpc_pending_read_pages, l, kv.value), ..v }
    } else {
        v
    }
}

pub open spec fn rpc_scalars_fold(v: ClientTargetView, l: LabelsView, kvs: Seq<KeyValueView>) -> ClientTargetView
    decreases kvs.len(),
{
    if kvs.len() == 0 {
        v
    } else {
        rpc_scalar_step(rpc_scalars_fold(v, l, kvs.drop_last()), l, kvs.last())
    }
}

/// The names of the `rpc_stats` value lines are told apart.
proof fn lemma_scalar_names_differ()
    ensures
        "modify_RPCs_in_flight"@ != "read RPCs in flight"@,
        "modify_RPCs_in_flight"@ != "write RPCs in flight"@,
        "modify_RPCs_in_flight"@ != "DIO RPCs in flight"@,
        "modify_RPCs_in_flight"@ != "pending write pages"@,
        "modify_RPCs_in_flight"@ != "pending read pages"@,
        "read RPCs in flight"@ != "write RPCs in flight"@,
        "read RPCs in flight"@ != "DIO RPCs in flight"@,
        "read RPCs in flight"@ != "pending write pages"@,
        "read RPCs in flight"@ != "pending read pages"@,
        "write RPCs in flight"@ != "DIO RPCs in flight"@,
        "write RPCs in flight"@ != "pending write pages"@,
        "write RPCs in flight"@ != "pending read pages"@,
        "DIO RPCs in flight"@ != "pending write pages"@,
        "DIO RPCs in flight"@ != "pending read pages"@,
        "pending write pages"@ != "pending read pages"@,
{
    reveal_strlit("modify_RPCs_in_flight");
    reveal_strlit("read RPCs in flight");
    reveal_strlit("write RPCs in flight");
    reveal_strlit("DIO RPCs in flight");
    reveal_strlit("pending write pages");
    reveal_strlit("pending read pages");
    assert("modify_RPCs_in_flight"@.len() != "read RPCs in flight"@.len());
    assert("modify_RPCs_in_flight"@.len() != "write RPCs in flight"@.len());
    assert("modify_RPCs_in_flight"@.len() != "DIO RPCs in flight"@.len());
    assert("modify_RPCs_in_flight"@.len() != "pending write pages"@.len());
    assert("modify_RPCs_in_flight"@.len() != "pending read pages"@.len());
    assert("read RPCs in flight"@.len() != "write RPCs in flight"@.len());
    assert("read RPCs in flight"@.len() != "DIO RPCs in flight"@.len());
    assert("read RPCs in flight"@[0] != "pending write pages"@[0]);
    assert("read RPCs in flight"@.len() != "pending read pages"@.len());
    assert("write RPCs in flight"@.len() != "DIO RPCs in flight"@.len());
    assert("write RPCs in flight"@.len() != "pending write pages"@.len());
    assert("write RPCs in flight"@.len() != "pending read pages"@.len());
    assert("DIO RPCs in flight"@.len() != "pending write pages"@.len());
    assert("DIO RPCs in flight"@[0] != "pending read pages"@[0]);
    assert("pending write pages"@.len() != "pending read pages"@.len());
}

/// The total of the values of the `rpc_stats` value lines named `name`.
pub open spec fn scalar_sum(kvs: Seq<KeyValueView>, name: Seq<char>) -> nat
    decreases kvs.len(),
{
    if kvs.len() == 0 {
        0
    } else {
        scalar_sum(kvs.drop_last(), name) + if kvs.last().name == name {
            kvs.last().value as nat
        } else {
            0
        }
    }
}

proof fn lemma_scalars_fold(v: ClientTargetView, l: LabelsView, kvs: Seq<KeyValueView>, k: LabelsView)
    ensures
        value_or_zero(rpc_scalars_fold(v, l, kvs).rpc_modify_in_flight, k, 0) == if k == l {
            wrapped(value_or_zero(v.rpc_modify_in_flight, k, 0) + scalar_sum(kvs, "modify_RPCs_in_flight"@))
        } else {
            value_or_zero(v.rpc_modify_in_flight, k, 0)
        },
        value_or_zero(rpc_scalars_fold(v, l, kvs).rpc_read_in_flight, k, 0) == if k == l {
            wrapped(value_or_zero(v.rpc_read_in_flight, k, 0) + scalar_sum(kvs, "read RPCs in flight"@))
        } else {
            value_or_zero(v.rpc_read_in_flight, k, 0)
        },
        value_or_zero(rpc_scalars_fold(v, l, kvs).rpc_write_in_flight, k, 0) == if k == l {
            wrapped(value_or_zero(v.rpc_write_in_flight, k, 0) + scalar_sum(kvs, "write RPCs in flight"@))
        } else {
            value_or_zero(v.rpc_write_in_flight, k, 0)
        },
        value_or_zero(rpc_scalars_fold(v, l, kvs).rpc_dio_in_flight, k, 0) == if k == l {
            wrapped(value_or_zero(v.rpc_dio_in_flight, k, 0) + scalar_sum(kvs, "DIO RPCs in flight"@))
        } else {
            value_or_zero(v.rpc_dio_in_flight, k, 0)
        },
        value_or_zero(rpc_scalars_fold(v, l, kvs).rpc_pending_write_pages, k, 0) == if k == l {
            wrapped(value_or_zero(v.rpc_pending_write_pages, k, 0) + scalar_sum(kvs, "pending write pages"@))
        } else {
            value_or_zero(v.rpc_pending_write_pages, k, 0)
        },
        value_or_zero(rpc_scalars_fold(v, l, kvs).rpc_pending_read_pages, k, 0) == if k == l {
            wrapped(value_or_zero(v.rpc_pending_read_pages, k, 0) + scalar_sum(kvs, "pending read pages"@))
        } else {
            value_or_zero(v.rpc_pending_read_pages, k, 0)
        },
    decreases kvs.len(),
{
    let m: int = 0x1_0000_0000_0000_0000;
    if kvs.len() == 0 {
        let a = value_or_zero(v.rpc_modify_in_flight, k, 0);
        assert(a as int % m == a) by (nonlinear_arith)
            requires
                0 <= a < m,
        ;
        let a = value_or_zero(v.rpc_read_in_flight, k, 0);
        assert(a as int % m == a) by (nonlinear_arith)
            requires
                0 <= a < m,
        ;
        let a = value_or_zero(v.rpc_write_in_flight, k, 0);
        assert(a as int % m == a) by (nonlinear_arith)
            requires
                0 <= a < m,
        ;
        let a = value_or_zero(v.rpc_dio_in_flight, k, 0);
        assert(a as int % m == a) by (nonlinear_arith)
            requires
                0 <= a < m,
        ;
        let a = value_or_zero(v.rpc_pending_write_pages, k, 0);
        assert(a as int % m == a) by (nonlinear_arith)
            requires
                0 <= a < m,
        ;
        let a = value_or_zero(v.rpc_pending_read_pages, k, 0);
        assert(a as int % m == a) by (nonlinear_arith)
            requires
                0 <= a < m,
        ;
    } else {
        let d = kvs.drop_last();
        let e = kvs.last();
        lemma_scalars_fold(v, l, d, k);
        lemma_scalar_names_differ();
        if k == l {
            if e.name == "modify_RPCs_in_flight"@ {
                lemma_wrapping_add_wrapped(value_or_zero(v.rpc_modify_in_flight, k, 0) + scalar_sum(d, "modify_RPCs_in_flight"@), e.value);
            }
            if e.name == "read RPCs in flight"@ {
                lemma_wrapping_add_wrapped(value_or_zero(v.rpc_read_in_flight, k, 0) + scalar_sum(d, "read RPCs in flight"@), e.value);
            }
            if e.name == "write RPCs in flight"@ {
                lemma_wrapping_add_wrapped(value_or_zero(v.rpc_write_in_flight, k, 0) + scalar_sum(d, "write RPCs in flight"@), e.value);
            }
            if e.name == "DIO RPCs in flight"@ {
                lemma_wrapping_add_wrapped(value_or_zero(v.rpc_dio_in_flight, k, 0) + scalar_sum(d, "DIO RPCs in flight"@), e.value);
            }
            if e.name == "pending write pages"@ {
                lemma_wrapping_add_wrapped(value_or_zero(v.rpc_pending_write_pages, k, 0) + scalar_sum(d, "pending write pages"@), e.value);
            }
            if e.name == "pending read pages"@ {
                lemma_wrapping_add_wrapped(value_or_zero(v.rpc_pending_read_pages, k, 0) + scalar_sum(d, "pending read pages"@), e.value);
            }
        }
    }
}

proof fn lemma_histograms_keep_scalars(v: ClientTargetView, l: LabelsView, hs: Seq<BrwStatsView>)
    ensures
        rpc_histograms_fold(v, l, hs).rpc_modify_in_flight == v.rpc_modify_in_flight,
        rpc_histograms_fold(v, l, hs).rpc_read_in_flight == v.rpc_read_in_flight,
        rpc_histograms_fold(v, l, hs).rpc_write_in_flight == v.rpc_write_in_flight,
        rpc_histograms_fold(v, l, hs).rpc_dio_in_flight == v.rpc_dio_in_flight,
        rpc_histograms_fold(v, l, hs).rpc_pending_write_pages == v.rpc_pending_write_pages,
        rpc_histograms_fold(v, l, hs).rpc_pending_read_pages == v.rpc_pending_read_pages,
    decreases hs.len(),
{
    if hs.len() > 0 {
        lemma_histograms_keep_scalars(v, l, hs.drop_last());
    }
}

/// After an `rpc_stats` record, each gauge fed by a value line grows, in the
/// record's series, by exactly the values of the lines of its own name
/// (`pending write pages` feeds `rpc_pending_write_pages`, `pending read
/// pages` feeds `rpc_pending_read_pages`, and so on; modulo 2^64, as the
/// gauges wrap); no other series of these gauges changes.
pub proof fn rpc_gauges_count_their_own_lines(
    v: ClientTargetView,
    x: TimedControllerStatView<RpcStatsView>,
    k: LabelsView,
)
    ensures
        value_or_zero(spec_rpc_stats(v, x).rpc_modify_in_flight, k, 0) == if k == target_labels(v, x.controller) {
            wrapped(value_or_zero(v.rpc_modify_in_flight, k, 0) + scalar_sum(x.value.scalars, "modify_RPCs_in_flight"@))
        } else {
            value_or_zero(v.rpc_modify_in_flight, k, 0)
        },
        value_or_zero(spec_rpc_stats(v, x).rpc_read_in_flight, k, 0) == if k == target_labels(v, x.controller) {
            wrapped(value_or_zero(v.rpc_read_in_flight, k, 0) + scalar_sum(x.value.scalars, "read RPCs in flight"@))
        } else {
            value_or_zero(v.rpc_read_in_flight, k, 0)
        },
        value_or_zero(spec_rpc_stats(v, x).rpc_write_in_flight, k, 0) == if k == target_labels(v, x.controller) {
            wrapped(value_or_zero(v.rpc_write_in_flight, k, 0) + scalar_sum(x.value.scalars, "write RPCs in flight"@))
        } else {
            value_or_zero(v.rpc_write_in_flight, k, 0)
        },
        value_or_zero(spec_rpc_stats(v, x).rpc_dio_in_flight, k, 0) == if k == target_labels(v, x.controller) {
            wrapped(value_or_zero(v.rpc_dio_in_flight, k, 0) + scalar_sum(x.value.scalars, "DIO RPCs in flight"@))
        } else {
            value_or_zero(v.rpc_dio_in_flight, k, 0)
        },
        value_or_zero(spec_rpc_stats(v, x).rpc_pending_write_pages, k, 0) == if k == target_labels(v, x.controller) {
            wrapped(value_or_zero(v.rpc_pending_write_pages, k, 0) + scalar_sum(x.value.scalars, "pending write pages"@))
        } else {
            value_or_zero(v.rpc_pending_write_pages, k, 0)
        },
        value_or_zero(spec_rpc_stats(v, x).rpc_pending_read_pages, k, 0) == if k == target_labels(v, x.controller) {
            wrapped(value_or_zero(v.rpc_pending_read_pages, k, 0) + scalar_sum(x.value.scalars, "pending read pages"@))
        } else {
            value_or_zero(v.rpc_pending_read_pages, k, 0)
        },
{
    reveal(spec_rpc_stats);
    let l = target_labels(v, x.controller);
    let v1 = rpc_scalars_fold(v, l, x.value.scalars);
    lemma_scalars_fold(v, l, x.value.scalars, k);
    let v2 = match x.value.modify_rpcs_in_flight {
        Some(bs) => ClientTargetView {
            rpc_modify_rpcs_in_flight: bucketed_observed(v1.rpc_modify_rpcs_in_flight, l, modify_rows(bs)),
            ..v1
        },
        None => v1,
    };
    lemma_histograms_keep_scalars(v2, l, x.value.histograms);
}

/// After an `osc_stats` or `mdc_stats` record, the lockless read-bytes
/// counter of its series grows by the record's read bytes, the write-bytes
/// counter by its write bytes and the truncate counter by its truncates (when
/// given), each wrapping at 2^64; no other series of these counters changes.
pub proof fn lockless_counters_take_their_own_values(
    v: ClientTargetView,
    x: TimedControllerStatView<LocklessStats>,
    k: LabelsView,
)
    ensures
        ({
            let l = target_labels(v, x.controller);
            let w = spec_lockless_stats(v, x);
            &&& value_or_zero(w.lockless_read_bytes, k, 0) == if k == l {
                wrapping_add(value_or_zero(v.lockless_read_bytes, k, 0), x.value.read_bytes)
            } else {
                value_or_zero(v.lockless_read_bytes, k, 0)
            }
            &&& value_or_zero(w.lockless_write_bytes, k, 0) == if k == l {
                wrapping_add(value_or_zero(v.lockless_write_bytes, k, 0), x.value.write_bytes)
            } else {
                value_or_zero(v.lockless_write_bytes, k, 0)
            }
            &&& value_or_zero(w.lockless_truncates, k, 0) == if k == l && x.value.truncates is Some {
                wrapping_add(value_or_zero(v.lockless_truncates, k, 0), x.value.truncates.unwrap())
            } else {
                value_or_zero(v.lockless_truncates, k, 0)
            }
        }),
{
    reveal(spec_lockless_stats);
}

proof fn lemma_unstable_fold(v: ClientTargetView, l: LabelsView, kvs: Seq<KeyValueView>, k: LabelsView)
    ensures
        value_or_zero(unstable_fold(v, l, kvs).unstable_pages, k, 0) == if k == l {
            wrapped(value_or_zero(v.unstable_pages, k, 0) + scalar_sum(kvs, "unstable_pages"@))
        } else {
            value_or_zero(v.unstable_pages, k, 0)
        },
    decreases kvs.len(),
{
    let m: int = 0x1_0000_0000_0000_0000;
    if kvs.len() == 0 {
        let a = value_or_zero(v.unstable_pages, k, 0);
        assert(a as int % m == a) by (nonlinear_arith)
            requires
                0 <= a < m,
        ;
    } else {
        let d = kvs.drop_last();
        lemma_unstable_fold(v, l, d, k);
        if k == l && kvs.last().name == "unstable_pages"@ {
            lemma_wrapping_add_wrapped(
                value_or_zero(v.unstable_pages, k, 0) + scalar_sum(d, "unstable_pages"@),
                kvs.last().value,
            );
        }
    }
}

/// After an `unstable_stats` record, the unstable-pages gauge of its series
/// grows by exactly the values of the lines named `unstable_pages` (modulo
/// 2^64); no other series of the gauge changes.
pub proof fn unstable_pages_take_their_own_lines(
    v: ClientTargetView,
    x: ControllerStatView<Seq<KeyValueView>>,
    k: LabelsView,
)
    ensures
        value_or_zero(spec_unstable_stats(v, x).unstable_pages, k, 0) == if k == target_labels(
            v,
            x.controller,
        ) {
            wrapped(value_or_zero(v.unstable_pages, k, 0) + scalar_sum(x.value, "unstable_pages"@))
        } else {
            value_or_zero(v.unstable_pages, k, 0)
        },
{
    reveal(spec_unstable_stats);
    lemma_unstable_fold(v, target_labels(v, x.controller), x.value, k);
}

/// The rows of `modify_RPCs_in_flight`, as buckets of the linear table.
pub open spec fn modify_rows(bs: Seq<CountBucket>) -> Seq<(Bucket, u64)> {
    bs.map_values(|b: CountBucket| (spec_bucket(Table::RpcsInFlight, b.key), b.count))
}

/// The rows of a read/write table, as buckets of `table`.
pub open spec fn table_rows(table: Table, bs: Seq<BrwStatsBucket>) -> Seq<(Bucket, u64, u64)> {
    bs.map_values(|b: BrwStatsBucket| (spec_bucket(table, b.name), b.read, b.write))
}

/// The rows of a read/write table, as buckets of `table` scaled by `factor`.
pub open spec fn scaled_rows(table: Table, factor: u64, bs: Seq<BrwStatsBucket>) -> Seq<(Bucket, u64, u64)> {
    bs.map_values(|b: BrwStatsBucket| (spec_scaled(spec_bucket(table, b.name), factor), b.read, b.write))
}

/// The table a `rpc_stats` histogram name stands for.
pub open spec fn rpc_table(name: Seq<char>) -> Option<Table> {
    if name == "pages per rpc"@ {
        Some(Table::PagesPerRpc)
    } else if name == "rpcs in flight"@ {
        Some(Table::RpcsInFlight)
    } else if name == "offset"@ {
        Some(Table::Offset)
    } else if name == "RPC latency (us)"@ {
        Some(Table::Latency)
    } else {
        None
    }
}

/// The families after one `rpc_stats` histogram; pages per RPC are also
/// counted in bytes when that is asked for.
pub open spec fn rpc_histogram_step(v: ClientTargetView, l: LabelsView, h: BrwStatsView) -> ClientTargetView {
    match rpc_table(h.name) {
        Some(Table::PagesPerRpc) => {
            let v1 = ClientTargetView {
                rpc_pages_per_rpc: bucketed_observed_rw(
                    v.rpc_pages_per_rpc,
                    l,
                    table_rows(Table::PagesPerRpc, h.buckets),
                ),
                ..v
            };
            match v.extended {
                ExtendedClientMetrics::On { page_size } => ClientTargetView {
                    rpc_bytes_per_rpc: bucketed_observed_rw(
                        v1.rpc_bytes_per_rpc,
                        l,
                        scaled_rows(Table::PagesPerRpc, page_size, h.buckets),
                    ),
                    ..v1
                },
                ExtendedClientMetrics::Off => v1,
            }
        },
        Some(Table::RpcsInFlight) => ClientTargetView {
            rpc_rpcs_in_flight: bucketed_observed_rw(
                v.rpc_rpcs_in_flight,
                l,
                table_rows(Table::RpcsInFlight, h.buckets),
            ),
            ..v
        },
        Some(Table::Offset) => ClientTargetView {
            rpc_offset: bucketed_observed_rw(v.rpc_offset, l, table_rows(Table::Offset, h.buckets)),
            ..v
        },
        Some(Table::Latency) => ClientTargetView {
            rpc_latency: bucketed_observed_rw(v.rpc_latency, l, table_rows(Table::Latency, h.buckets)),
            ..v
        },
        None => v,
    }
}

pub open spec fn rpc_histograms_fold(v: ClientTargetView, l: LabelsView, hs: Seq<BrwStatsView>) -> ClientTargetView
    decreases hs.len(),
{
    if hs.len() == 0 {
        v
    } else {
        rpc_histogram_step(rpc_histograms_fold(v, l, hs.drop_last()), l, hs.last())
    }
}

/// The `rpc_stats` table headings are told apart.
proof fn lemma_table_names_differ()
    ensures
        "pages per rpc"@ != "rpcs in flight"@,
        "pages per rpc"@ != "offset"@,
        "pages per rpc"@ != "RPC latency (us)"@,
        "rpcs in flight"@ != "offset"@,
        "rpcs in flight"@ != "RPC latency (us)"@,
        "offset"@ != "RPC latency (us)"@,
{
    reveal_strlit("pages per rpc");
    reveal_strlit("rpcs in flight");
    reveal_strlit("offset");
    reveal_strlit("RPC latency (us)");
    assert("pages per rpc"@.len() != "rpcs in flight"@.len());
    assert("pages per rpc"@.len() != "offset"@.len());
    assert("pages per rpc"@.len() != "RPC latency (us)"@.len());
    assert("rpcs in flight"@.len() != "offset"@.len());
    assert("rpcs in flight"@.len() != "RPC latency (us)"@.len());
    assert("offset"@.len() != "RPC latency (us)"@.len());
}

/// `b` after the rows of each table of `hs` headed `name` were observed in
/// series `l`, read as rows of `table`.
pub open spec fn observed_named(
    b: BucketedView,
    l: LabelsView,
    hs: Seq<BrwStatsView>,
    name: Seq<char>,
    table: Table,
) -> BucketedView
    decreases hs.len(),
{
    if hs.len() == 0 {
        b
    } else {
        let p = observed_named(b, l, hs.drop_last(), name, table);
        if hs.last().name == name {
            bucketed_observed_rw(p, l, table_rows(table, hs.last().buckets))
        } else {
            p
        }
    }
}

/// Each `rpc_stats` histogram family is fed by the tables of its own heading
/// only, read as rows of its own table: `pages per rpc` feeds pages per RPC,
/// `rpcs in flight` RPCs in flight, `offset` the offsets and
/// `RPC latency (us)` the latencies; a table of any other heading feeds none.
pub proof fn rpc_histograms_take_their_own_tables(v: ClientTargetView, l: LabelsView, hs: Seq<BrwStatsView>)
    ensures
        rpc_histograms_fold(v, l, hs).rpc_pages_per_rpc == observed_named(v.rpc_pages_per_rpc, l, hs, "pages per rpc"@, Table::PagesPerRpc),
        rpc_histograms_fold(v, l, hs).rpc_rpcs_in_flight == observed_named(v.rpc_rpcs_in_flight, l, hs, "rpcs in flight"@, Table::RpcsInFlight),
        rpc_histograms_fold(v, l, hs).rpc_offset == observed_named(v.rpc_offset, l, hs, "offset"@, Table::Offset),
        rpc_histograms_fold(v, l, hs).rpc_latency == observed_named(v.rpc_latency, l, hs, "RPC latency (us)"@, Table::Latency),
    decreases hs.len(),
{
    if hs.len() > 0 {
        rpc_histograms_take_their_own_tables(v, l, hs.drop_last());
        lemma_table_names_differ();
    }
}

/// `rpc_stats`: the value lines, the modify RPCs in flight, the histograms.
#[verifier::opaque]
pub open spec fn spec_rpc_stats(v: ClientTargetView, x: TimedControllerStatView<RpcStatsView>) -> ClientTargetView {
    let l = target_labels(v, x.controller);
    let v1 = rpc_scalars_fold(v, l, x.value.scalars);
    let v2 = match x.value.modify_rpcs_in_flight {
        Some(bs) => ClientTargetView {
            rpc_modify_rpcs_in_flight: bucketed_observed(v1.rpc_modify_rpcs_in_flight, l, modify_rows(bs)),
            ..v1
        },
        None => v1,
    };
    rpc_histograms_fold(v2, l, x.value.histograms)
}

/// Every key of `bs` is one that `table` turns into a bound.
pub open spec fn rows_in_range(table: Table, bs: Seq<BrwStatsBucket>) -> bool {
    forall|j: int| 0 <= j < bs.len() ==> crate::histogram::key_in_range(table, #[trigger] bs[j].name)
}

/// Every key of an `rpc_stats` table is one that its table turns into a
/// bound: the offset and latency keys are lower edges, doubled.
pub open spec fn rpc_keys_in_range(x: RpcStatsView) -> bool {
    forall|i: int|
        0 <= i < x.histograms.len() ==> match rpc_table(#[trigger] x.histograms[i].name) {
            Some(t) => rows_in_range(t, x.histograms[i].buckets),
            None => true,
        }
}

/// The buckets of a read/write table.
fn rows_of(table: Table, buckets: &Vec<BrwStatsBucket>) -> (rows: Vec<(Bucket, u64, u64)>)
    requires
        rows_in_range(table, buckets@),
    ensures
        rows@ == table_rows(table, buckets@),
{
    let mut rows: Vec<(Bucket, u64, u64)> = Vec::new();
    let mut i: usize = 0;
    while i < buckets.len()
        invariant
            i <= buckets@.len(),
            rows_in_range(table, buckets@),
            rows@ == table_rows(table, buckets@.take(i as int)),
        decreases buckets.len() - i,
    {
        let b = buckets[i];
        rows.push((table.bucket(b.name), b.read, b.write));
        proof {
            assert(table_rows(table, buckets@.take(i + 1)) =~= table_rows(table, buckets@.take(i as int)).push(
                (spec_bucket(table, b.name), b.read, b.write),
            ));
        }
        i += 1;
    }
    proof {
        assert(buckets@.take(buckets@.len() as int) =~= buckets@);
    }
    rows
}

/// The buckets of a read/write table, scaled by `factor`.
fn scaled_rows_of(table: Table, factor: u64, buckets: &Vec<BrwStatsBucket>) -> (rows: Vec<(Bucket, u64, u64)>)
    requires
        rows_in_range(table, buckets@),
    ensures
        rows@ == scaled_rows(table, factor, buckets@),
{
    let mut rows: Vec<(Bucket, u64, u64)> = Vec::new();
    let mut i: usize = 0;
    while i < buckets.len()
        invariant
            i <= buckets@.len(),
            rows_in_range(table, buckets@),
            rows@ == scaled_rows(table, factor, buckets@.take(i as int)),
        decreases buckets.len() - i,
    {
        let b = buckets[i];
        rows.push((table.bucket(b.name).scaled(factor), b.read, b.write));
        proof {
            assert(scaled_rows(table, factor, buckets@.take(i + 1)) =~= scaled_rows(
                table,
                factor,
                buckets@.take(i as int),
            ).push((spec_scaled(spec_bucket(table, b.name), factor), b.read, b.write)));
        }
        i += 1;
    }
    proof {
        assert(buckets@.take(buckets@.len() as int) =~= buckets@);
    }
    rows
}

/// The table an `rpc_stats` histogram name stands for.
pub fn table_of(name: &String) -> (r: Option<Table>)
    ensures
        r == rpc_table(name@),
{
    if str_eq(name.as_str(), "pages per rpc") {
        Some(Table::PagesPerRpc)
    } else if str_eq(name.as_str(), "rpcs in flight") {
        Some(Table::RpcsInFlight)
    } else if str_eq(name.as_str(), "offset") {
        Some(Table::Offset)
    } else if str_eq(name.as_str(), "RPC latency (us)") {
        Some(Table::Latency)
    } else {
        None
    }
}

fn build_rpc_histogram(h: &BrwStats, labels: &LabelContainer, metrics: &mut ClientTargetMetrics)
    requires
        old(metrics).wf(),
        match rpc_table(h.name@) {
            Some(t) => rows_in_range(t, h.buckets@),
            None => true,
        },
    ensures
        final(metrics).wf(),
        final(metrics).view() == rpc_histogram_step(old(metrics).view(), labels_view(labels@), h.deep_view()),
{
    proof {
        assert(h.buckets.deep_view() =~= h.buckets@);
    }
    match table_of(&h.name) {
        Some(Table::PagesPerRpc) => {
            let rows = rows_of(Table::PagesPerRpc, &h.buckets);
            metrics.rpc_pages_per_rpc_total.observe_rw(labels, rows.as_slice());
            match metrics.extended {
                ExtendedClientMetrics::On { page_size } => {
                    let bytes = scaled_rows_of(Table::PagesPerRpc, page_size, &h.buckets);
                    metrics.rpc_bytes_per_rpc_total.observe_rw(labels, bytes.as_slice());
                },
                ExtendedClientMetrics::Off => {},
            }
        },
        Some(Table::RpcsInFlight) => {
            let rows = rows_of(Table::RpcsInFlight, &h.buckets);
            metrics.rpc_rpcs_in_flight_total.observe_rw(labels, rows.as_slice());
        },
        Some(Table::Offset) => {
            let rows = rows_of(Table::Offset, &h.buckets);
            metrics.rpc_offset_total.observe_rw(labels, rows.as_slice());
        },
        Some(Table::Latency) => {
            let rows = rows_of(Table::Latency, &h.buckets);
            metrics.rpc_latency_total.observe_rw(labels, rows.as_slice());
        },
        None => {},
    }
}

fn build_rpc_scalar(kv: &KeyValue, labels: &LabelContainer, metrics: &mut ClientTargetMetrics)
    requires
        old(metrics).wf(),
    ensures
        final(metrics).wf(),
        final(metrics).view() == rpc_scalar_step(old(metrics).view(), labels_view(labels@), kv.deep_view()),
{
    let name = kv.name.as_str();
    if str_eq(name, "modify_RPCs_in_flight") {
        inc_gauge(&mut metrics.rpc_modify_in_flight, labels, kv.value);
    } else if str_eq(name, "read RPCs in flight") {
        inc_gauge(&mut metrics.rpc_read_in_flight, labels, kv.value);
    } else if str_eq(name, "write RPCs in flight") {
        inc_gauge(&mut metrics.rpc_write_in_flight, labels, kv.value);
    } else if str_eq(name, "DIO RPCs in flight") {
        inc_gauge(&mut metrics.rpc_dio_in_flight, labels, kv.value);
    } else if str_eq(name, "pending write pages") {
        inc_gauge(&mut metrics.rpc_pending_write_pages, labels, kv.value);
    } else if str_eq(name, "pending read pages") {
        inc_gauge(&mut metrics.rpc_pending_read_pages, labels, kv.value);
    }
}

#[verifier::spinoff_prover]
#[verifier::rlimit(40)]
pub fn build_rpc_stats(x: &TimedControllerStat<RpcStats>, metrics: &mut ClientTargetMetrics)
    requires
        old(metrics).wf(),
        rpc_keys_in_range(x.value.deep_view()),
    ensures
        final(metrics).wf(),
        same_kind(final(metrics).view(), old(metrics).view()),
        final(metrics).view() == spec_rpc_stats(old(metrics).view(), x.deep_view()),
{
    proof {
        reveal(spec_rpc_stats);
    }
    let labels = series_labels(metrics.labels, &x.controller.0);
    let ghost l = labels_view(labels@);
    let ghost v0 = metrics.view();
    let mut i: usize = 0;
    while i < x.value.scalars.len()
        invariant
            i <= x.value.scalars@.len(),
            l == labels_view(labels@),
            metrics.view() == rpc_scalars_fold(v0, l, x.value.scalars.deep_view().take(i as int)),
            metrics.wf(),
            same_kind(metrics.view(), old(metrics).view()),
        decreases x.value.scalars.len() - i,
    {
        build_rpc_scalar(&x.value.scalars[i], &labels, metrics);
        proof {
            assert(x.value.scalars.deep_view().take(i + 1).drop_last() =~= x.value.scalars.deep_view().take(
                i as int,
            ));
        }
        i += 1;
    }
    proof {
        assert(x.value.scalars.deep_view().take(x.value.scalars@.len() as int) =~= x.value.scalars.deep_view());
    }
    match &x.value.modify_rpcs_in_flight {
        Some(buckets) => {
            let mut rows: Vec<(Bucket, u64)> = Vec::new();
            let mut j: usize = 0;
            while j < buckets.len()
                invariant
                    j <= buckets@.len(),
                    rows@ == modify_rows(buckets@.take(j as int)),
                decreases buckets.len() - j,
            {
                let b = buckets[j];
                rows.push((Table::RpcsInFlight.bucket(b.key), b.count));
                proof {
                    assert(modify_rows(buckets@.take(j + 1)) =~= modify_rows(buckets@.take(j as int)).push(
                        (spec_bucket(Table::RpcsInFlight, b.key), b.count),
                    ));
                }
                j += 1;
            }
            proof {
                assert(buckets@.take(buckets@.len() as int) =~= buckets@);
                assert(buckets.deep_view() =~= buckets@);
            }
            metrics.rpc_modify_rpcs_in_flight_total.observe(&labels, rows.as_slice());
        },
        None => {},
    }
    let ghost v2 = metrics.view();
    let mut k: usize = 0;
    while k < x.value.histograms.len()
        invariant
            k <= x.value.histograms@.len(),
            l == labels_view(labels@),
            rpc_keys_in_range(x.value.deep_view()),
            metrics.view() == rpc_histograms_fold(v2, l, x.value.histograms.deep_view().take(k as int)),
            metrics.wf(),
            same_kind(metrics.view(), old(metrics).view()),
        decreases x.value.histograms.len() - k,
    {
        proof {
            let hv = x.value.deep_view().histograms[k as int];
            assert(hv == x.value.histograms@[k as int].deep_view());
            assert(x.value.histograms@[k as int].buckets.deep_view() =~= x.value.histograms@[k as int].buckets@);
            assert(match rpc_table(hv.name) {
                Some(t) => rows_in_range(t, hv.buckets),
                None => true,
            });
        }
        build_rpc_histogram(&x.value.histograms[k], &labels, metrics);
        proof {
            assert(x.value.histograms.deep_view().take(k + 1).drop_last() =~= x.value.histograms.deep_view().take(
                k as int,
            ));
        }
        k += 1;
    }
    proof {
        assert(x.value.histograms.deep_view().take(x.value.histograms@.len() as int) =~= x.value.histograms.deep_view());
    }
}

/// The families after one entry of `io_latency_stats`: the collector groups
/// the kernel's `rd_<size>` and `wr_<size>` lines into one `io_time_<size>`
/// entry; any other name is skipped.
pub open spec fn io_latency_step(v: ClientTargetView, l: LabelsView, e: BrwStatsView) -> ClientTargetView {
    match spec_strip_prefix(e.name, "io_time_"@) {
        Some(opsize) => ClientTargetView {
            io_latency: bucketed_observed_rw(
                v.io_latency,
                l.push(("opsize"@, opsize)),
                table_rows(Table::Latency, e.buckets),
            ),
            ..v
        },
        None => v,
    }
}

pub open spec fn io_latency_fold(v: ClientTargetView, l: LabelsView, es: Seq<BrwStatsView>) -> ClientTargetView
    decreases es.len(),
{
    if es.len() == 0 {
        v
    } else {
        io_latency_step(io_latency_fold(v, l, es.drop_last()), l, es.last())
    }
}

#[verifier::opaque]
pub open spec fn spec_io_latency_stats(v: ClientTargetView, x: TimedControllerStatView<Seq<BrwStatsView>>) -> ClientTargetView {
    io_latency_fold(v, target_labels(v, x.controller), x.value)
}

/// Every latency key of an `io_time_` entry is one that the latency table
/// turns into a bound.
pub open spec fn io_latency_keys_in_range(es: Seq<BrwStatsView>) -> bool {
    forall|i: int|
        0 <= i < es.len() && (#[trigger] spec_strip_prefix(es[i].name, "io_time_"@)) is Some
            ==> rows_in_range(Table::Latency, es[i].buckets)
}

pub fn build_io_latency_stats(x: &TimedControllerStat<Vec<BrwStats>>, metrics: &mut ClientTargetMetrics)
    requires
        old(metrics).wf(),
        io_latency_keys_in_range(x.value.deep_view()),
    ensures
        final(metrics).wf(),
        same_kind(final(metrics).view(), old(metrics).view()),
        final(metrics).view() == spec_io_latency_stats(old(metrics).view(), x.deep_view()),
{
    proof {
        reveal(spec_io_latency_stats);
    }
    let labels = series_labels(metrics.labels, &x.controller.0);
    let ghost l = labels_view(labels@);
    let ghost v0 = metrics.view();
    let mut i: usize = 0;
    while i < x.value.len()
        invariant
            i <= x.value@.len(),
            l == labels_view(labels@),
            io_latency_keys_in_range(x.value.deep_view()),
            metrics.view() == io_latency_fold(v0, l, x.value.deep_view().take(i as int)),
            metrics.wf(),
            same_kind(metrics.view(), old(metrics).view()),
        decreases x.value.len() - i,
    {
        let entry = &x.value[i];
        let ghost ev = entry.deep_view();
        proof {
            assert(x.value.deep_view()[i as int] == ev);
            assert(entry.buckets.deep_view() =~= entry.buckets@);
        }
        match strip_prefix(entry.name.as_str(), "io_time_") {
            Some(opsize) => {
                proof {
                    assert(spec_strip_prefix(x.value.deep_view()[i as int].name, "io_time_"@) is Some);
                }
                let series = with(&labels, "opsize", opsize);
                let rows = rows_of(Table::Latency, &entry.buckets);
                metrics.io_latency_total.observe_rw(&series, rows.as_slice());
            },
            None => {},
        }
        proof {
            assert(x.value.deep_view().take(i + 1).drop_last() =~= x.value.deep_view().take(i as int));
        }
        i += 1;
    }
    proof {
        assert(x.value.deep_view().take(x.value@.len() as int) =~= x.value.deep_view());
    }
}

/// The families after one `stats_compr` value: its key is
/// `<read|write>_<pages|chunks|bytes>_<type>`, and the type is kept as a
/// label; any other key is skipped.
pub open spec fn compression_step(v: ClientTargetView, l: LabelsView, kv: KeyValueView) -> ClientTargetView {
    let p = spec_split(kv.name, '_');
    if p.len() != 3 {
        v
    } else {
        let t = l.push(("type"@, p[2]));
        if p[0] == "write"@ && p[1] == "pages"@ {
            ClientTargetView { compress_write_pages: added(v.compress_write_pages, t, kv.value), ..v }
        } else if p[0] == "write"@ && p[1] == "chunks"@ {
            ClientTargetView { compress_write_chunks: added(v.compress_write_chunks, t, kv.value), ..v }
        } else if p[0] == "write"@ && p[1] == "bytes"@ {
            ClientTargetView { compress_write_bytes: added(v.compress_write_bytes, t, kv.value), ..v }
        } else if p[0] == "read"@ && p[1] == "pages"@ {
            ClientTargetView { compress_read_pages: added(v.compress_read_pages, t, kv.value), ..v }
        } else if p[0] == "read"@ && p[1] == "chunks"@ {
            ClientTargetView { compress_read_chunks: added(v.compress_read_chunks, t, kv.value), ..v }
        } else if p[0] == "read"@ && p[1] == "bytes"@ {
            ClientTargetView { compress_read_bytes: added(v.compress_read_bytes, t, kv.value), ..v }
        } else {
            v
        }
    }
}

pub open spec fn compression_fold(v: ClientTargetView, l: LabelsView, kvs: Seq<KeyValueView>) -> ClientTargetView
    decreases kvs.len(),
{
    if kvs.len() == 0 {
        v
    } else {
        compression_step(compression_fold(v, l, kvs.drop_last()), l, kvs.last())
    }
}

#[verifier::opaque]
pub open spec fn spec_compression_stats(v: ClientTargetView, x: ControllerStatView<Seq<KeyValueView>>) -> ClientTargetView {
    compression_fold(v, target_labels(v, x.controller), x.value)
}

fn build_compression_value(kv: &KeyValue, labels: &LabelContainer, metrics: &mut ClientTargetMetrics)
    requires
        old(metrics).wf(),
    ensures
        final(metrics).wf(),
        final(metrics).view() == compression_step(old(metrics).view(), labels_view(labels@), kv.deep_view()),
{
    let parts = split_char(kv.name.as_str(), '_');
    proof {
        assert(parts.deep_view().len() == parts@.len());
    }
    if parts.len() != 3 {
        return;
    }
    proof {
        assert(parts.deep_view()[0] == parts@[0]@);
        assert(parts.deep_view()[1] == parts@[1]@);
        assert(parts.deep_view()[2] == parts@[2]@);
    }
    let dir = parts[0].as_str();
    let unit = parts[1].as_str();
    let series = with(labels, "type", parts[2].clone());
    if str_eq(dir, "write") && str_eq(unit, "pages") {
        inc_counter(&mut metrics.compress_write_pages, &series, kv.value);
    } else if str_eq(dir, "write") && str_eq(unit, "chunks") {
        inc_counter(&mut metrics.compress_write_chunks, &series, kv.value);
    } else if str_eq(dir, "write") && str_eq(unit, "bytes") {
        inc_counter(&mut metrics.compress_write_bytes, &series, kv.value);
    } else if str_eq(dir, "read") && str_eq(unit, "pages") {
        inc_counter(&mut metrics.compress_read_pages, &series, kv.value);
    } else if str_eq(dir, "read") && str_eq(unit, "chunks") {
        inc_counter(&mut metrics.compress_read_chunks, &series, kv.value);
    } else if str_eq(dir, "read") && str_eq(unit, "bytes") {
        inc_counter(&mut metrics.compress_read_bytes, &series, kv.value);
    }
}

/// DDN builds. Keys are `<read|write>_<pages|chunks|bytes>_<type>`.
pub fn build_compression_stats(x: &ControllerStat<Vec<KeyValue>>, metrics: &mut ClientTargetMetrics)
    requires
        old(metrics).wf(),
    ensures
        final(metrics).wf(),
        same_kind(final(metrics).view(), old(metrics).view()),
        final(metrics).view() == spec_compression_stats(old(metrics).view(), x.deep_view()),
{
    proof {
        reveal(spec_compression_stats);
    }
    let labels = series_labels(metrics.labels, &x.controller.0);
    let ghost l = labels_view(labels@);
    let ghost v0 = metrics.view();
    let mut i: usize = 0;
    while i < x.value.len()
        invariant
            i <= x.value@.len(),
            l == labels_view(labels@),
            metrics.view() == compression_fold(v0, l, x.value.deep_view().take(i as int)),
            metrics.wf(),
            same_kind(metrics.view(), old(metrics).view()),
        decreases x.value.len() - i,
    {
        build_compression_value(&x.value[i], &labels, metrics);
        proof {
            assert(x.value.deep_view().take(i + 1).drop_last() =~= x.value.deep_view().take(i as int));
        }
        i += 1;
    }
    proof {
        assert(x.value.deep_view().take(x.value@.len() as int) =~= x.value.deep_view());
    }
}

/// A value of a `stats` line that a family keeps.
#[derive(Clone, Copy, Debug, PartialEq, Eq, Structural)]
pub enum StatPart {
    /// The samples, under the operation.
    Samples,
    /// The minimum of a line in microseconds, under the operation.
    TimedMin,
    /// The maximum of a line in microseconds, under the operation.
    TimedMax,
    /// The sum of a line in microseconds, under the operation.
    TimedSum,
    /// The sum of `read_bytes`, under the target.
    ReadBytes,
    /// The sum of `write_bytes`, under the target.
    WriteBytes,
}

/// The `(series, value)` that one `stats` line gives a family, if any.
pub open spec fn part_event(l: LabelsView, s: StatView, part: StatPart) -> Option<(LabelsView, u64)> {
    let op = op_labels(l, s.name);
    match part {
        StatPart::Samples => Some((op, s.samples)),
        StatPart::TimedMin => if is_timed(s) && s.min is Some {
            Some((op, s.min.unwrap()))
        } else {
            None
        },
        StatPart::TimedMax => if is_timed(s) && s.max is Some {
            Some((op, s.max.unwrap()))
        } else {
            None
        },
        StatPart::TimedSum => if is_timed(s) && s.sum is Some {
            Some((op, s.sum.unwrap()))
        } else {
            None
        },
        StatPart::ReadBytes => if s.name == "read_bytes"@ && s.sum is Some {
            Some((l, s.sum.unwrap()))
        } else {
            None
        },
        StatPart::WriteBytes => if s.name == "write_bytes"@ && s.sum is Some {
            Some((l, s.sum.unwrap()))
        } else {
            None
        },
    }
}

/// The events that the lines give a family, in order.
pub open spec fn part_events(l: LabelsView, ss: Seq<StatView>, part: StatPart) -> Seq<(LabelsView, u64)>
    decreases ss.len(),
{
    if ss.len() == 0 {
        Seq::empty()
    } else {
        let p = part_events(l, ss.drop_last(), part);
        match part_event(l, ss.last(), part) {
            Some(e) => p.push(e),
            None => p,
        }
    }
}

proof fn lemma_stats_fold_parts(v: ClientTargetView, l: LabelsView, ss: Seq<StatView>)
    ensures
        stats_fold(v, l, ss).stats_total == added_all(v.stats_total, part_events(l, ss, StatPart::Samples)),
        stats_fold(v, l, ss).stats_time_min == merged_events(
            v.stats_time_min,
            part_events(l, ss, StatPart::TimedMin),
            true,
        ),
        stats_fold(v, l, ss).stats_time_max == merged_events(
            v.stats_time_max,
            part_events(l, ss, StatPart::TimedMax),
            false,
        ),
        stats_fold(v, l, ss).stats_time_sum == added_all(v.stats_time_sum, part_events(l, ss, StatPart::TimedSum)),
        stats_fold(v, l, ss).read_bytes == added_all(v.read_bytes, part_events(l, ss, StatPart::ReadBytes)),
        stats_fold(v, l, ss).write_bytes == added_all(v.write_bytes, part_events(l, ss, StatPart::WriteBytes)),
        stats_fold(v, l, ss).stats_start_time == v.stats_start_time,
        same_kind(stats_fold(v, l, ss), v),
    decreases ss.len(),
{
    if ss.len() > 0 {
        let q = ss.drop_last();
        lemma_stats_fold_parts(v, l, q);
        let s = ss.last();
        assert forall|part: StatPart| #[trigger] part_event(l, s, part) is Some implies part_events(
            l,
            ss,
            part,
        ).drop_last() == part_events(l, q, part) && part_events(l, ss, part).last() == part_event(
            l,
            s,
            part,
        ).unwrap() by {
            assert(part_events(l, q, part).push(part_event(l, s, part).unwrap()).drop_last() =~= part_events(
                l,
                q,
                part,
            ));
        }
        assert(part_event(l, s, StatPart::Samples) is Some);
        if part_event(l, s, StatPart::TimedMin) is Some {
            assert(part_events(l, ss, StatPart::TimedMin).len() > 0);
        }
        if part_event(l, s, StatPart::TimedMax) is Some {
            assert(part_events(l, ss, StatPart::TimedMax).len() > 0);
        }
        if part_event(l, s, StatPart::TimedSum) is Some {
            assert(part_events(l, ss, StatPart::TimedSum).len() > 0);
        }
        if part_event(l, s, StatPart::ReadBytes) is Some {
            assert(part_events(l, ss, StatPart::ReadBytes).len() > 0);
        }
        if part_event(l, s, StatPart::WriteBytes) is Some {
            assert(part_events(l, ss, StatPart::WriteBytes).len() > 0);
        }
    }
}

/// The families after `stats` records were counted one after the other.
pub open spec fn stats_records(v: ClientTargetView, xs: Seq<TimedControllerStatView<Seq<StatView>>>) -> ClientTargetView
    decreases xs.len(),
{
    if xs.len() == 0 {
        v
    } else {
        spec_stats(stats_records(v, xs.drop_last()), xs.last())
    }
}

/// The events that the lines of the records give a family, in order, each
/// record's under the series of its target in `mode`.
pub open spec fn records_part_events(
    mode: ClientLabels,
    xs: Seq<TimedControllerStatView<Seq<StatView>>>,
    part: StatPart,
) -> Seq<(LabelsView, u64)>
    decreases xs.len(),
{
    if xs.len() == 0 {
        Seq::empty()
    } else {
        records_part_events(mode, xs.drop_last(), part) + part_events(
            spec_client_labels(mode, xs.last().controller),
            xs.last().value,
            part,
        )
    }
}

/// The start times of the records, in whole seconds, each under the series
/// of its target in `mode`.
pub open spec fn start_events(mode: ClientLabels, xs: Seq<TimedControllerStatView<Seq<StatView>>>) -> Seq<
    (LabelsView, u64),
>
    decreases xs.len(),
{
    if xs.len() == 0 {
        Seq::empty()
    } else {
        let p = start_events(mode, xs.drop_last());
        let x = xs.last();
        match x.header.start_time {
            Some(t) => match spec_start_seconds(t) {
                Some(secs) => p.push((spec_client_labels(mode, x.controller), secs)),
                None => p,
            },
            None => p,
        }
    }
}

proof fn lemma_stats_records_parts(v: ClientTargetView, xs: Seq<TimedControllerStatView<Seq<StatView>>>)
    ensures
        stats_records(v, xs).stats_total == added_all(
            v.stats_total,
            records_part_events(v.labels, xs, StatPart::Samples),
        ),
        stats_records(v, xs).stats_time_min == merged_events(
            v.stats_time_min,
            records_part_events(v.labels, xs, StatPart::TimedMin),
            true,
        ),
        stats_records(v, xs).stats_time_max == merged_events(
            v.stats_time_max,
            records_part_events(v.labels, xs, StatPart::TimedMax),
            false,
        ),
        stats_records(v, xs).stats_time_sum == added_all(
            v.stats_time_sum,
            records_part_events(v.labels, xs, StatPart::TimedSum),
        ),
        stats_records(v, xs).read_bytes == added_all(v.read_bytes, records_part_events(v.labels, xs, StatPart::ReadBytes)),
        stats_records(v, xs).write_bytes == added_all(
            v.write_bytes,
            records_part_events(v.labels, xs, StatPart::WriteBytes),
        ),
        stats_records(v, xs).stats_start_time == merged_events(v.stats_start_time, start_events(v.labels, xs), true),
        same_kind(stats_records(v, xs), v),
    decreases xs.len(),
{
    if xs.len() > 0 {
        let p = xs.drop_last();
        let x = xs.last();
        lemma_stats_records_parts(v, p);
        let w = stats_records(v, p);
        let l = spec_client_labels(v.labels, x.controller);
        reveal(spec_stats);
        let w1 = ClientTargetView { stats_start_time: with_start_time(w.stats_start_time, l, x.header), ..w };
        lemma_stats_fold_parts(w1, l, x.value);
        lemma_added_all_concat(v.stats_total, records_part_events(v.labels, p, StatPart::Samples), part_events(l, x.value, StatPart::Samples));
        lemma_merged_events_concat(v.stats_time_min, records_part_events(v.labels, p, StatPart::TimedMin), part_events(l, x.value, StatPart::TimedMin), true);
        lemma_merged_events_concat(v.stats_time_max, records_part_events(v.labels, p, StatPart::TimedMax), part_events(l, x.value, StatPart::TimedMax), false);
        lemma_added_all_concat(v.stats_time_sum, records_part_events(v.labels, p, StatPart::TimedSum), part_events(l, x.value, StatPart::TimedSum));
        lemma_added_all_concat(v.read_bytes, records_part_events(v.labels, p, StatPart::ReadBytes), part_events(l, x.value, StatPart::ReadBytes));
        lemma_added_all_concat(v.write_bytes, records_part_events(v.labels, p, StatPart::WriteBytes), part_events(l, x.value, StatPart::WriteBytes));
        let se = start_events(v.labels, p);
        match x.header.start_time {
            Some(t) => match spec_start_seconds(t) {
                Some(secs) => {
                    assert(merged_events(v.stats_start_time, se.push((l, secs)), true) == merged(
                        merged_events(v.stats_start_time, se, true),
                        l,
                        secs,
                        true,
                    )) by {
                        assert(se.push((l, secs)).drop_last() =~= se);
                    }
                },
                None => {},
            },
            None => {},
        }
    }
}

/// Across the `stats` records of a scrape, each series holds what the
/// README promises: the samples, the microsecond sums and the byte sums add
/// up (wrapping at 2^64), the microsecond minimum and maximum are the least
/// and the greatest given, and the start time is the earliest; a series
/// exists exactly when some line (or record, for the start time) is of it.
/// With [`ClientLabels::ByFilesystem`] all targets of a filesystem share one
/// series.
pub proof fn stats_series_over_records(
    v: ClientTargetView,
    xs: Seq<TimedControllerStatView<Seq<StatView>>>,
    op: LabelsView,
    target: LabelsView,
)
    requires
        !v.stats_total.contains_key(op),
        !v.stats_time_min.contains_key(op),
        !v.stats_time_max.contains_key(op),
        !v.stats_time_sum.contains_key(op),
        !v.read_bytes.contains_key(target),
        !v.write_bytes.contains_key(target),
        !v.stats_start_time.contains_key(target),
    ensures
        sums_to(stats_records(v, xs).stats_total, records_part_events(v.labels, xs, StatPart::Samples), op),
        extreme_of(
            stats_records(v, xs).stats_time_min,
            records_part_events(v.labels, xs, StatPart::TimedMin),
            op,
            true,
        ),
        extreme_of(
            stats_records(v, xs).stats_time_max,
            records_part_events(v.labels, xs, StatPart::TimedMax),
            op,
            false,
        ),
        sums_to(stats_records(v, xs).stats_time_sum, records_part_events(v.labels, xs, StatPart::TimedSum), op),
        sums_to(stats_records(v, xs).read_bytes, records_part_events(v.labels, xs, StatPart::ReadBytes), target),
        sums_to(stats_records(v, xs).write_bytes, records_part_events(v.labels, xs, StatPart::WriteBytes), target),
        extreme_of(stats_records(v, xs).stats_start_time, start_events(v.labels, xs), target, true),
{
    lemma_stats_records_parts(v, xs);
    added_events_sum(v.stats_total, records_part_events(v.labels, xs, StatPart::Samples), op);
    merged_events_keep_extremes(v.stats_time_min, records_part_events(v.labels, xs, StatPart::TimedMin), op, true);
    merged_events_keep_extremes(v.stats_time_max, records_part_events(v.labels, xs, StatPart::TimedMax), op, false);
    added_events_sum(v.stats_time_sum, records_part_events(v.labels, xs, StatPart::TimedSum), op);
    added_events_sum(v.read_bytes, records_part_events(v.labels, xs, StatPart::ReadBytes), target);
    added_events_sum(v.write_bytes, records_part_events(v.labels, xs, StatPart::WriteBytes), target);
    merged_events_keep_extremes(v.stats_start_time, start_events(v.labels, xs), target, true);
}

/// `v` with the bytes-per-RPC family emptied and the extension switched off:
/// what is left when bytes per RPC are not counted.
pub open spec fn without_bytes(v: ClientTargetView) -> ClientTargetView {
    ClientTargetView {
        extended: ExtendedClientMetrics::Off,
        rpc_bytes_per_rpc: BucketedView::Counters(Map::empty()),
        ..v
    }
}

proof fn lemma_scalars_without_bytes(w: ClientTargetView, l: LabelsView, kvs: Seq<KeyValueView>)
    ensures
        without_bytes(rpc_scalars_fold(w, l, kvs)) == rpc_scalars_fold(without_bytes(w), l, kvs),
        rpc_scalars_fold(w, l, kvs).rpc_bytes_per_rpc == w.rpc_bytes_per_rpc,
        rpc_scalars_fold(w, l, kvs).extended == w.extended,
    decreases kvs.len(),
{
    if kvs.len() > 0 {
        lemma_scalars_without_bytes(w, l, kvs.drop_last());
    }
}

proof fn lemma_histograms_without_bytes(w: ClientTargetView, l: LabelsView, hs: Seq<BrwStatsView>)
    ensures
        without_bytes(rpc_histograms_fold(w, l, hs)) == rpc_histograms_fold(without_bytes(w), l, hs),
        w.extended == ExtendedClientMetrics::Off ==> rpc_histograms_fold(w, l, hs).rpc_bytes_per_rpc
            == w.rpc_bytes_per_rpc,
        rpc_histograms_fold(w, l, hs).extended == w.extended,
    decreases hs.len(),
{
    if hs.len() > 0 {
        lemma_histograms_without_bytes(w, l, hs.drop_last());
    }
}

/// Counting bytes per RPC changes nothing but its own family: with the
/// extension on, the families are those with it off plus the bytes family;
/// with it off, the bytes family is left as it was.
pub proof fn bytes_per_rpc_only_add_their_family(w: ClientTargetView, x: TimedControllerStatView<RpcStatsView>)
    ensures
        without_bytes(spec_rpc_stats(w, x)) == spec_rpc_stats(without_bytes(w), x),
        w.extended == ExtendedClientMetrics::Off ==> spec_rpc_stats(w, x).rpc_bytes_per_rpc == w.rpc_bytes_per_rpc,
{
    reveal(spec_rpc_stats);
    let l = target_labels(w, x.controller);
    lemma_scalars_without_bytes(w, l, x.value.scalars);
    let v1 = rpc_scalars_fold(w, l, x.value.scalars);
    let v2 = match x.value.modify_rpcs_in_flight {
        Some(bs) => ClientTargetView {
            rpc_modify_rpcs_in_flight: bucketed_observed(v1.rpc_modify_rpcs_in_flight, l, modify_rows(bs)),
            ..v1
        },
        None => v1,
    };
    lemma_histograms_without_bytes(v2, l, x.value.histograms);
}

/// The rows counted as bytes per RPC are the pages-per-RPC rows with each
/// bucket's key and bound multiplied by the page size (saturating), with
/// the same read and write counts.
pub proof fn bytes_rows_are_pages_times_page_size(table: Table, page_size: u64, bs: Seq<BrwStatsBucket>)
    ensures
        scaled_rows(table, page_size, bs) == table_rows(table, bs).map_values(
            |r: (Bucket, u64, u64)| (spec_scaled(r.0, page_size), r.1, r.2),
        ),
{
    assert(scaled_rows(table, page_size, bs) =~= table_rows(table, bs).map_values(
        |r: (Bucket, u64, u64)| (spec_scaled(r.0, page_size), r.1, r.2),
    ));
}

} // verus!
