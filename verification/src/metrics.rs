//! All the families of a scrape, and how records and unparseable blocks
//! are counted into them.

use crate::client::{ClientLabels, ExtendedClientMetrics, LabelContainer, labels_view};
use crate::client_target::{io_latency_keys_in_range, rpc_keys_in_range, rows_in_range, rpc_table};
use crate::controller::{
    ControllerMetrics, ControllerView, controller_keys_in_range, empty_controller,
    spec_controller_stats,
};
use crate::family::{GaugeFamily, LabelsView, gauge_values, new_gauges, set_gauge};
use crate::histogram::{HistogramEncoding, Table, key_in_range};
use crate::llite_metrics::{
    LliteMetrics, LliteView, build_extents_stats, build_extents_stats_per_process,
    build_llite_stats, build_read_ahead_stats, build_statahead_stats, build_unstable_stats,
    empty_llite, llite_unstable_fold, mount_labels, ops_counted, spec_extents_stats,
    spec_extents_stats_per_process, spec_llite_stats, statahead_counted,
};
use crate::stream::BlockError;
use crate::strings::{spec_strip_prefix, strip_prefix};
use crate::types::{
    BrwStats, BrwStatsBucket, ControllerStats, Record, RecordView, RpcStats, TargetStats,
    TargetStatsView,
};
use vstd::prelude::*;

verus! {

/// The families of a scrape.
pub struct Metrics {
    pub controller: ControllerMetrics,
    pub llite: LliteMetrics,
    /// Blocks of output that could not be parsed, by source.
    pub parse_errors: GaugeFamily,
    /// Error lines a command printed on stderr, by command.
    pub command_errors: GaugeFamily,
}

/// What the families of a scrape hold.
pub struct MetricsView {
    pub controller: ControllerView,
    pub llite: LliteView,
    pub parse_errors: Map<LabelsView, u64>,
    pub command_errors: Map<LabelsView, u64>,
}

/// The families of a scrape before anything was counted.
pub open spec fn empty_metrics(
    client_labels: ClientLabels,
    histograms: HistogramEncoding,
    extended: ExtendedClientMetrics,
) -> MetricsView {
    MetricsView {
        controller: empty_controller(client_labels, histograms, extended),
        llite: empty_llite(),
        parse_errors: Map::empty(),
        command_errors: Map::empty(),
    }
}

/// The families after a command's unexpected stderr lines were counted.
pub open spec fn with_command_errors(v: MetricsView, command: Seq<char>, count: u64) -> MetricsView {
    MetricsView { command_errors: v.command_errors.insert(seq![("command"@, command)], count), ..v }
}

/// The families after a source's unparseable blocks were counted.
pub open spec fn with_parse_errors(v: MetricsView, source: Seq<char>, count: u64) -> MetricsView {
    MetricsView { parse_errors: v.parse_errors.insert(seq![("source"@, source)], count), ..v }
}

impl Metrics {
    pub open spec fn view(&self) -> MetricsView {
        MetricsView {
            controller: self.controller.view(),
            llite: self.llite.view(),
            parse_errors: gauge_values(self.parse_errors),
            command_errors: gauge_values(self.command_errors),
        }
    }

    pub open spec fn wf(&self) -> bool {
        self.controller.wf()
    }

    /// The families, without series; the metrics are rebuilt for every scrape.
    pub fn new(
        client_labels: ClientLabels,
        histograms: HistogramEncoding,
        extended: ExtendedClientMetrics,
    ) -> (r: Metrics)
        ensures
            r.wf(),
            r.view() == empty_metrics(client_labels, histograms, extended),
    {
        Metrics {
            controller: ControllerMetrics::new(client_labels, histograms, extended),
            llite: LliteMetrics::new(),
            parse_errors: new_gauges(),
            command_errors: new_gauges(),
        }
    }

    /// `command` printed `count` error lines in this scrape.
    pub fn record_command_errors(&mut self, command: &'static str, count: u64)
        ensures
            final(self).wf() == old(self).wf(),
            final(self).view() == with_command_errors(old(self).view(), command@, count),
    {
        let labels: LabelContainer = vec![("command", command.to_owned())];
        proof {
            assert(labels_view(labels@) =~= seq![("command"@, command@)]);
        }
        set_gauge(&mut self.command_errors, &labels, count);
    }

    /// `count` blocks of `source` output could not be parsed in this scrape.
    pub fn record_parse_errors(&mut self, source: &'static str, count: u64)
        ensures
            final(self).wf() == old(self).wf(),
            final(self).view() == with_parse_errors(old(self).view(), source@, count),
    {
        let labels: LabelContainer = vec![("source", source.to_owned())];
        proof {
            assert(labels_view(labels@) =~= seq![("source"@, source@)]);
        }
        set_gauge(&mut self.parse_errors, &labels, count);
    }
}

impl Default for Metrics {
    fn default() -> (r: Metrics)
        ensures
            r.wf(),
            r.view() == empty_metrics(
                ClientLabels::PerTarget,
                HistogramEncoding::BucketCounters,
                ExtendedClientMetrics::Off,
            ),
    {
        Metrics::new(ClientLabels::PerTarget, HistogramEncoding::BucketCounters, ExtendedClientMetrics::Off)
    }
}

/// Counts one controller record.
pub fn build_controller_stats(x: &ControllerStats, metrics: &mut Metrics)
    requires
        old(metrics).wf(),
        controller_keys_in_range(x.deep_view()),
    ensures
        final(metrics).wf(),
        final(metrics).view() == (MetricsView {
            controller: spec_controller_stats(old(metrics).view().controller, x.deep_view()),
            ..old(metrics).view()
        }),
{
    metrics.controller.build(x);
}

/// The llite families after one llite record; exports have no families here.
pub open spec fn spec_target_stats(v: LliteView, x: TargetStatsView) -> LliteView {
    match x {
        TargetStatsView::Llite(s) => spec_llite_stats(v, s),
        TargetStatsView::LliteReadAheadStats(s) => LliteView {
            read_ahead_stats: ops_counted(v.read_ahead_stats, mount_labels(s.target), s.stats),
            ..v
        },
        TargetStatsView::LliteExtentsStats(s) => spec_extents_stats(v, s),
        TargetStatsView::LliteExtentsStatsPerProcess(s) => spec_extents_stats_per_process(v, s),
        TargetStatsView::LliteStataheadStats(s) => LliteView {
            statahead_stats: statahead_counted(v.statahead_stats, mount_labels(s.target), s.value),
            ..v
        },
        TargetStatsView::LliteUnstableStats(s) => llite_unstable_fold(v, mount_labels(s.target), s.value),
        TargetStatsView::ExportUuids(_) => v,
    }
}

/// Counts one llite record.
pub fn build_target_stats(x: &TargetStats, metrics: &mut LliteMetrics)
    ensures
        final(metrics).view() == spec_target_stats(old(metrics).view(), x.deep_view()),
{
    match x {
        TargetStats::Llite(s) => build_llite_stats(s, metrics),
        TargetStats::LliteReadAheadStats(s) => build_read_ahead_stats(s, metrics),
        TargetStats::LliteExtentsStats(s) => build_extents_stats(s, metrics),
        TargetStats::LliteExtentsStatsPerProcess(s) => build_extents_stats_per_process(s, metrics),
        TargetStats::LliteStataheadStats(s) => build_statahead_stats(s, metrics),
        TargetStats::LliteUnstableStats(s) => build_unstable_stats(s, metrics),
        TargetStats::ExportUuids(_) => {},
    }
}

/// The families after one record: llite and controller records are
/// counted; host records have no families here.
#[verifier::opaque]
pub open spec fn spec_process_record(v: MetricsView, x: RecordView) -> MetricsView {
    match x {
        RecordView::Host(_) => v,
        RecordView::Target(t) => MetricsView { llite: spec_target_stats(v.llite, t), ..v },
        RecordView::Controller(c) => MetricsView { controller: spec_controller_stats(v.controller, c), ..v },
    }
}

/// Whether every bucket key of a record is one its table turns into a bound.
pub open spec fn record_keys_in_range(x: RecordView) -> bool {
    match x {
        RecordView::Controller(c) => controller_keys_in_range(c),
        _ => true,
    }
}

/// Counts one record.
pub fn process_record(x: &Record, metrics: &mut Metrics)
    requires
        old(metrics).wf(),
        record_keys_in_range(x.deep_view()),
    ensures
        final(metrics).wf(),
        final(metrics).view() == spec_process_record(old(metrics).view(), x.deep_view()),
{
    proof {
        reveal(spec_process_record);
    }
    match x {
        Record::Host(_) => {},
        Record::Target(t) => build_target_stats(t, &mut metrics.llite),
        Record::Controller(c) => build_controller_stats(c, metrics),
    }
}

/// The families after the records were counted one after the other.
pub open spec fn records_processed(v: MetricsView, xs: Seq<RecordView>) -> MetricsView
    decreases xs.len(),
{
    if xs.len() == 0 {
        v
    } else {
        spec_process_record(records_processed(v, xs.drop_last()), xs.last())
    }
}

/// Counts the records one after the other.
pub fn build_lustre_stats(output: &Vec<Record>, metrics: &mut Metrics)
    requires
        old(metrics).wf(),
        forall|i: int| 0 <= i < output@.len() ==> record_keys_in_range(#[trigger] output.deep_view()[i]),
    ensures
        final(metrics).wf(),
        final(metrics).view() == records_processed(old(metrics).view(), output.deep_view()),
{
    let mut i: usize = 0;
    while i < output.len()
        invariant
            i <= output@.len(),
            forall|j: int| 0 <= j < output@.len() ==> record_keys_in_range(#[trigger] output.deep_view()[j]),
            metrics.wf(),
            metrics.view() == records_processed(old(metrics).view(), output.deep_view().take(i as int)),
        decreases output.len() - i,
    {
        proof {
            assert(output.deep_view()[i as int] == output@[i as int].deep_view());
            assert(record_keys_in_range(output.deep_view()[i as int]));
        }
        process_record(&output[i], metrics);
        proof {
            assert(output.deep_view().take(i + 1).drop_last() =~= output.deep_view().take(i as int));
        }
        i += 1;
    }
    proof {
        assert(output.deep_view().take(output@.len() as int) =~= output.deep_view());
    }
}

/// Whether the keys of a read/write table are ones its table turns into
/// bounds.
fn rows_checked(table: Table, buckets: &Vec<BrwStatsBucket>) -> (r: bool)
    ensures
        r == rows_in_range(table, buckets@),
{
    let mut i: usize = 0;
    while i < buckets.len()
        invariant
            i <= buckets@.len(),
            forall|j: int| 0 <= j < i ==> key_in_range(table, #[trigger] buckets@[j].name),
        decreases buckets.len() - i,
    {
        let key = buckets[i].name;
        let ok = match table {
            Table::Offset | Table::Latency => key <= u64::MAX / 2,
            _ => true,
        };
        if !ok {
            return false;
        }
        i += 1;
    }
    true
}

fn rpc_checked(x: &RpcStats) -> (r: bool)
    ensures
        r == rpc_keys_in_range(x.deep_view()),
{
    let mut i: usize = 0;
    while i < x.histograms.len()
        invariant
            i <= x.histograms@.len(),
            forall|j: int|
                0 <= j < i ==> match rpc_table(#[trigger] x.deep_view().histograms[j].name) {
                    Some(t) => rows_in_range(t, x.deep_view().histograms[j].buckets),
                    None => true,
                },
        decreases x.histograms.len() - i,
    {
        let h = &x.histograms[i];
        proof {
            assert(x.deep_view().histograms[i as int] == h.deep_view());
            assert(h.buckets.deep_view() =~= h.buckets@);
        }
        let table = crate::client_target::table_of(&h.name);
        let ok = match table {
            Some(t) => rows_checked(t, &h.buckets),
            None => true,
        };
        if !ok {
            proof {
                let hv = x.deep_view().histograms[i as int];
                assert(!match rpc_table(hv.name) {
                    Some(t) => rows_in_range(t, hv.buckets),
                    None => true,
                });
            }
            return false;
        }
        i += 1;
    }
    true
}

fn io_latency_checked(es: &Vec<BrwStats>) -> (r: bool)
    ensures
        r == io_latency_keys_in_range(es.deep_view()),
{
    let mut i: usize = 0;
    while i < es.len()
        invariant
            i <= es@.len(),
            forall|j: int|
                0 <= j < i && (#[trigger] spec_strip_prefix(es.deep_view()[j].name, "io_time_"@)) is Some
                    ==> rows_in_range(Table::Latency, es.deep_view()[j].buckets),
        decreases es.len() - i,
    {
        let e = &es[i];
        proof {
            assert(es.deep_view()[i as int] == e.deep_view());
            assert(e.buckets.deep_view() =~= e.buckets@);
        }
        let ok = match strip_prefix(e.name.as_str(), "io_time_") {
            Some(_) => rows_checked(Table::Latency, &e.buckets),
            None => true,
        };
        if !ok {
            proof {
                let ev = es.deep_view()[i as int];
                assert(spec_strip_prefix(ev.name, "io_time_"@) is Some);
                assert(!rows_in_range(Table::Latency, ev.buckets));
            }
            return false;
        }
        i += 1;
    }
    true
}

/// Whether every bucket key of a record is one its table turns into a
/// bound; a record where one is not cannot be counted.
pub fn keys_in_range(x: &Record) -> (r: bool)
    ensures
        r == record_keys_in_range(x.deep_view()),
{
    match x {
        Record::Controller(ControllerStats::RpcStats(s)) => rpc_checked(&s.value),
        Record::Controller(ControllerStats::IoLatencyStats(s)) => io_latency_checked(&s.value),
        _ => true,
    }
}

/// What has been seen of the blocks that did not parse.
pub struct ParseTally {
    /// How many blocks did not parse.
    pub failed: u64,
    /// The first line of the first one, for the log.
    pub first: Option<String>,
}

impl ParseTally {
    pub fn new() -> (r: ParseTally)
        ensures
            r.failed == 0,
            r.first is None,
    {
        ParseTally { failed: 0, first: None }
    }
}

/// Counts one item of the split: a record is counted, a block that did not
/// parse is tallied, and a read error is returned, for it ends the output.
pub fn fold_record(x: Result<Record, BlockError>, metrics: &mut Metrics, tally: &mut ParseTally) -> (r: Result<(), std::io::Error>)
    requires
        old(metrics).wf(),
        old(tally).failed < u64::MAX,
        x matches Ok(record) ==> record_keys_in_range(record.deep_view()),
    ensures
        final(metrics).wf(),
        match x {
            Ok(record) => r is Ok && final(metrics).view() == spec_process_record(
                old(metrics).view(),
                record.deep_view(),
            ) && *final(tally) == *old(tally),
            Err(BlockError::Read(e)) => r == Err::<(), std::io::Error>(e) && final(metrics).view()
                == old(metrics).view() && *final(tally) == *old(tally),
            Err(BlockError::Parse { header, .. }) => r is Ok && final(metrics).view() == old(
                metrics,
            ).view() && final(tally).failed == old(tally).failed + 1 && final(tally).first == match old(
                tally,
            ).first {
                Some(f) => Some(f),
                None => Some(header),
            },
        },
{
    match x {
        Ok(record) => {
            process_record(&record, metrics);
            Ok(())
        },
        Err(BlockError::Read(e)) => Err(e),
        Err(BlockError::Parse { header, .. }) => {
            if tally.first.is_none() {
                tally.first = Some(header);
            }
            tally.failed = tally.failed + 1;
            Ok(())
        },
    }
}

/// Records the tally of blocks of `source` that did not parse, if any.
pub fn finish_fold(tally: &ParseTally, source: &'static str, metrics: &mut Metrics)
    ensures
        final(metrics).wf() == old(metrics).wf(),
        final(metrics).view() == if tally.failed > 0 {
            with_parse_errors(old(metrics).view(), source@, tally.failed)
        } else {
            old(metrics).view()
        },
{
    if tally.failed > 0 {
        metrics.record_parse_errors(source, tally.failed);
    }
}

/// Whether an item is a read error.
pub open spec fn is_read_error(x: Result<Record, BlockError>) -> bool {
    x matches Err(BlockError::Read(_))
}

/// The index of the first read error, if there is one.
pub open spec fn first_read_error(xs: Seq<Result<Record, BlockError>>) -> Option<int>
    decreases xs.len(),
{
    if xs.len() == 0 {
        None
    } else {
        match first_read_error(xs.drop_last()) {
            Some(i) => Some(i),
            None => if is_read_error(xs.last()) {
                Some(xs.len() - 1)
            } else {
                None
            },
        }
    }
}

/// The families after the records among the items were counted.
pub open spec fn items_processed(v: MetricsView, xs: Seq<Result<Record, BlockError>>) -> MetricsView
    decreases xs.len(),
{
    if xs.len() == 0 {
        v
    } else {
        let w = items_processed(v, xs.drop_last());
        match xs.last() {
            Ok(record) => spec_process_record(w, record.deep_view()),
            Err(_) => w,
        }
    }
}

/// How many items are blocks that did not parse.
pub open spec fn parse_failures(xs: Seq<Result<Record, BlockError>>) -> nat
    decreases xs.len(),
{
    if xs.len() == 0 {
        0
    } else {
        parse_failures(xs.drop_last()) + if xs.last() matches Err(BlockError::Parse { .. }) {
            1nat
        } else {
            0nat
        }
    }
}

proof fn lemma_parse_failures_bound(xs: Seq<Result<Record, BlockError>>)
    ensures
        parse_failures(xs) <= xs.len(),
    decreases xs.len(),
{
    if xs.len() > 0 {
        lemma_parse_failures_bound(xs.drop_last());
    }
}

/// A block that fails to parse is counted and skipped; a read error fails
/// the scrape, with that error, since the rest of the output is gone. Without a read error
/// the number of unparseable blocks of `source` is recorded, if there were any.
#[verifier::rlimit(40)]
pub fn fold_records(records: Vec<Result<Record, BlockError>>, source: &'static str, metrics: &mut Metrics) -> (r: Result<(), std::io::Error>)
    requires
        old(metrics).wf(),
        forall|i: int|
            0 <= i < records@.len() ==> (#[trigger] records@[i] matches Ok(record) ==> record_keys_in_range(
                record.deep_view(),
            )),
    ensures
        final(metrics).wf(),
        match first_read_error(records@) {
            Some(n) => (match records@[n] {
                Err(BlockError::Read(e)) => r == Err::<(), std::io::Error>(e),
                _ => false,
            }) && final(metrics).view() == items_processed(old(metrics).view(), records@.take(n)),
            None => r is Ok && final(metrics).view() == if parse_failures(records@) > 0 {
                with_parse_errors(
                    items_processed(old(metrics).view(), records@),
                    source@,
                    parse_failures(records@) as u64,
                )
            } else {
                items_processed(old(metrics).view(), records@)
            },
        },
{
    let ghost xs = records@;
    let ghost v0 = metrics.view();
    let mut tally = ParseTally::new();
    let count = records.len();
    proof {
        lemma_parse_failures_bound(xs);
        assert(count == xs.len());
    }
    for x in it: records.into_iter()
        invariant
            it.seq() == xs,
            xs == records@,
            v0 == old(metrics).view(),
            it.index() <= xs.len(),
            xs.len() <= usize::MAX,
            forall|i: int| 0 <= i < xs.len() ==> (#[trigger] xs[i] matches Ok(record) ==> record_keys_in_range(
                record.deep_view(),
            )),
            first_read_error(xs.take(it.index() as int)) is None,
            metrics.wf(),
            metrics.view() == items_processed(v0, xs.take(it.index() as int)),
            tally.failed == parse_failures(xs.take(it.index() as int)),
            parse_failures(xs.take(it.index() as int)) <= it.index(),
    {
        let ghost k = it.index() as int;
        proof {
            assert(x == xs[k]);
            assert(xs.take(k + 1).drop_last() =~= xs.take(k));
            assert(xs.take(k + 1).last() == xs[k]);
        }
        let read_error = match &x {
            Err(BlockError::Read(_)) => true,
            _ => false,
        };
        let folded = fold_record(x, metrics, &mut tally);
        if read_error {
            proof {
                lemma_first_read_error_at(xs, k);
            }
            return folded;
        }
    }
    proof {
        assert(xs.take(xs.len() as int) =~= xs);
    }
    finish_fold(&tally, source, metrics);
    Ok(())
}

proof fn lemma_first_read_error_at(xs: Seq<Result<Record, BlockError>>, k: int)
    requires
        0 <= k < xs.len(),
        first_read_error(xs.take(k)) is None,
        is_read_error(xs[k]),
    ensures
        first_read_error(xs) == Some(k),
    decreases xs.len(),
{
    if k == xs.len() - 1 {
        assert(xs.drop_last() =~= xs.take(k));
    } else {
        assert(xs.drop_last().take(k) =~= xs.take(k));
        lemma_first_read_error_at(xs.drop_last(), k);
    }
}

} // verus!
