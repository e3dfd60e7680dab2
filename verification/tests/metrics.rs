use lustrefs_exporter::client::{
    merge_max, merge_min, observe_rw, set_start_time, start_seconds, ClientLabels,
    ExtendedClientMetrics, LabelContainer,
};
use lustrefs_exporter::controller::is_osp;
use lustrefs_exporter::family::{CounterFamily, GaugeFamily};
use lustrefs_exporter::histogram::{
    Bucket, BucketHistogram, Bucketed, HistogramEncoding, HistogramFamily,
};
use lustrefs_exporter::lctl::parse_lctl_output;
use lustrefs_exporter::llite_metrics::extents;
use lustrefs_exporter::metrics::{
    build_lustre_stats, fold_records, keys_in_range, process_record, Metrics,
};
use lustrefs_exporter::stream::BlockError;
use lustrefs_exporter::client_target::{build_compression_stats, build_io_latency_stats};
use lustrefs_exporter::llite_metrics::build_statahead_stats;
use lustrefs_exporter::types::{
    BrwStats, BrwStatsBucket, ControllerStat, ControllerVariant, ExtentsBucket, HostStats,
    KeyValue, LliteTargetStat, Param, Record, StatsHeader, Target, TimedControllerStat,
};
use lustrefs_exporter::lctl::LustreCollectorError;
use prometheus_client::encoding::EncodeMetric;
use prometheus_client::metrics::family::Family;
use std::io;

fn labels(xs: &[(&'static str, &str)]) -> LabelContainer {
    xs.iter().map(|(k, v)| (*k, v.to_string())).collect()
}

fn counter(f: &CounterFamily, xs: &[(&'static str, &str)]) -> Option<u64> {
    f.family.get(&labels(xs)).map(|c| c.get())
}

fn gauge(f: &GaugeFamily, xs: &[(&'static str, &str)]) -> Option<u64> {
    f.family.get(&labels(xs)).map(|g| g.get())
}

fn metrics_of(contents: &str, client_labels: ClientLabels, encoding: HistogramEncoding) -> Metrics {
    let records = parse_lctl_output(contents.as_bytes()).unwrap();
    let mut metrics = Metrics::new(client_labels, encoding, ExtendedClientMetrics::Off);
    assert!(records.iter().all(keys_in_range));
    build_lustre_stats(&records, &mut metrics);
    metrics
}

/// The cumulative count up to `le` of a histogram, as an encoder writes it.
fn cumulative(h: &BucketHistogram, le: u64) -> u64 {
    h.buckets.range(..=le).map(|(_, c)| c).sum()
}

fn histogram<'a>(f: &'a HistogramFamily, xs: &[(&'static str, &str)]) -> &'a BucketHistogram {
    let want = labels(xs);
    &f.series.iter().find(|(l, _)| *l == want).unwrap().1
}

#[test]
fn merged_gauges_keep_the_extremes() {
    let mut min = GaugeFamily { family: Family::default() };
    let mut max = GaugeFamily { family: Family::default() };
    let labels = vec![("fs", "a361000".to_string())];

    for value in [5, 0, 3] {
        merge_min(&mut min, &labels, value);
        merge_max(&mut max, &labels, value);
    }

    assert_eq!(min.family.get_or_create(&labels).get(), 0);
    assert_eq!(max.family.get_or_create(&labels).get(), 5);
}

#[test]
fn osp_stats_under_osc_name_are_not_client_families() {
    let contents = "osc.lustre-OST0000-osc-MDT0000.stats=\nsnapshot_time             1789952232.668377739 secs.nsecs\nstart_time                1787073662.340515449 secs.nsecs\nelapsed_time              2878570.327862290 secs.nsecs\nreq_waittime              1383 samples [usecs] 12 3057 1421392 4185129512\nreq_active                1383 samples [reqs] 1 2 1414 1476\nost_connect               1 samples [usecs] 1205 1205 1205 1452025\nobd_ping                  1382 samples [usecs] 12 3057 1420187 4183677487\nosc.lustre-OST0000-osc-MDT0000.state=\ncurrent_state: FULL\nstate_history:\n";

    let x = metrics_of(contents, ClientLabels::PerTarget, HistogramEncoding::BucketCounters);

    let osc = &x.controller.osc;
    assert!(osc.stats_total.family.is_empty());
    assert!(osc.stats_start_time.family.is_empty());
    assert!(osc.stats_time_min.family.is_empty());
    assert!(osc.stats_time_max.family.is_empty());
    assert!(osc.stats_time_sum.family.is_empty());
    assert_eq!(
        x.controller
            .osc_state
            .family
            .get(&labels(&[
                ("controller", "lustre-OST0000-osc-MDT0000"),
                ("current_state", "FULL"),
            ]))
            .map(|g| g.get()),
        Some(1)
    );
}

#[test]
fn lockless_truncates_are_exported() {
    let contents = "osc.lustre-OST0000-osc-ffff949bc0626000.osc_stats=\nsnapshot_time:            1689697369.331040915 secs.nsecs\nlockless_write_bytes\t\t0\nlockless_read_bytes\t\t8192\nlockless_truncate\t\t3\nmemused=1\n";

    let x = metrics_of(contents, ClientLabels::PerTarget, HistogramEncoding::BucketCounters);

    let series = [("fs", "lustre"), ("target", "lustre-OST0000-osc-ffff949bc0626000")];
    assert_eq!(counter(&x.controller.osc.lockless_truncates_total, &series), Some(3));
    assert_eq!(counter(&x.controller.osc.lockless_read_bytes_total, &series), Some(8192));
}

#[test]
fn rpc_stats_histogram_bounds() {
    let contents = "osc.a361000-OST0001-osc-ffff949bc0626000.rpc_stats=\nsnapshot_time:            1789952232.703630742 secs.nsecs\nstart_time:               1787864516.502993110 secs.nsecs\nelapsed_time:             2087716.200637632 secs.nsecs\nread RPCs in flight:  0\nwrite RPCs in flight: 0\nDIO RPCs in flight: 0\npending write pages:  0\npending read pages:   0\n\n\t\t\tread\t\t\twrite\npages per rpc         rpcs   % cum % |       rpcs   % cum %\n1:\t\t         0   0   0   |    52489  50  50\n2:\t\t         0   0   0   |    36540  35  85\n4:\t\t         1   0   0   |    14030  13  99\n8:\t\t       511  99 100   |      784   0 100\n\n\t\t\tread\t\t\twrite\nrpcs in flight        rpcs   % cum % |       rpcs   % cum %\n1:\t\t       512 100 100   |   103843 100 100\n\n\t\t\tread\t\t\twrite\noffset                rpcs   % cum % |       rpcs   % cum %\n0:\t\t       512 100 100   |   103843 100 100\n\n\t\t\tread\t\t\twrite\nRPC latency (us)       count   % cum % |       count   % cum %\n0:\t\t         0   0   0   |        0   0   0\n512:\t\t         3   0   0   |      567   0   0\n1024:\t\t       327  63  64   |    93264  89  90\n2048:\t\t       159  31  95   |     9820   9  99\n4096:\t\t        19   3  99   |      180   0  99\n8192:\t\t         3   0 100   |       10   0  99\n16384:\t\t         1   0 100   |        2   0 100\n";

    let x = metrics_of(contents, ClientLabels::ByFilesystem, HistogramEncoding::Histogram);
    let osc = &x.controller.osc;
    let family = |b: &Bucketed| -> HistogramFamily {
        match b {
            Bucketed::Histograms(f) => HistogramFamily {
                series: f.series.iter().map(|(l, h)| (l.clone(), h.copy())).collect(),
            },
            Bucketed::Counters(_) => panic!("expected histograms"),
        }
    };
    let read = [("fs", "a361000"), ("operation", "read")];
    let write = [("fs", "a361000"), ("operation", "write")];

    let lat = family(&osc.rpc_latency_total);
    let r = histogram(&lat, &read);
    assert_eq!(cumulative(r, 1), 0);
    assert_eq!(cumulative(r, 1024), 3);
    assert_eq!(cumulative(r, 2048), 330);
    assert_eq!(cumulative(r, 4096), 489);
    assert_eq!(cumulative(r, 32768), 512);
    assert_eq!(r.overflow, 0);
    assert!(!r.buckets.contains_key(&512));
    assert_eq!(cumulative(histogram(&lat, &write), 2048), 93831);

    let pages = family(&osc.rpc_pages_per_rpc_total);
    assert_eq!(cumulative(histogram(&pages, &read), 4), 1);
    assert_eq!(cumulative(histogram(&pages, &read), 8), 512);
    assert_eq!(cumulative(histogram(&pages, &write), 1), 52489);

    assert_eq!(cumulative(histogram(&family(&osc.rpc_offset_total), &read), 0), 512);
    assert_eq!(
        cumulative(histogram(&family(&osc.rpc_rpcs_in_flight_total), &write), 1),
        103843
    );
}

#[test]
fn histogram_counts_and_sum() {
    let mut h = BucketHistogram::new();
    for (le, count) in [(Some(1), 5), (Some(4), 0), (Some(2), 3), (Some(2), 1)] {
        h.observe(Bucket { key: 1 << 30, le }, count);
    }
    assert_eq!(h.sum, 13);
    assert_eq!(h.buckets.get(&1), Some(&5));
    assert_eq!(h.buckets.get(&2), Some(&4));
    assert_eq!(h.buckets.get(&4), Some(&0));
    assert_eq!(h.overflow, 0);

    let mut h = BucketHistogram::new();
    h.observe(Bucket { key: 1 << 30, le: Some(8) }, 2);
    h.observe(Bucket { key: 1 << 30, le: None }, 3);
    assert_eq!(h.sum, 3221225488);
    assert_eq!(h.overflow, 3);
    assert_eq!(cumulative(&h, 8) + h.overflow, 5);
}

#[test]
fn histogram_family_keeps_one_series_per_label_set() {
    let mut f = HistogramFamily::new();
    let a = labels(&[("fs", "a")]);
    let b = labels(&[("fs", "b")]);
    f.observe(&a, Bucket { key: 1, le: Some(1) }, 2);
    f.observe(&b, Bucket { key: 1, le: Some(1) }, 3);
    f.observe(&a, Bucket { key: 2, le: Some(2) }, 4);
    f.touch(&b);
    f.touch(&labels(&[("fs", "c")]));

    assert_eq!(f.series.len(), 3);
    assert_eq!(cumulative(histogram(&f, &[("fs", "a")]), 2), 6);
    assert_eq!(cumulative(histogram(&f, &[("fs", "b")]), 2), 3);
    assert_eq!(cumulative(histogram(&f, &[("fs", "c")]), 2), 0);
}

#[test]
fn bucket_counters_are_labelled_by_key() {
    let mut b = Bucketed::new(HistogramEncoding::BucketCounters);
    let l = labels(&[("fs", "a")]);
    b.observe(&l, &[(Bucket { key: 8, le: Some(15) }, 2), (Bucket { key: 8, le: Some(15) }, 1)]);
    b.observe_rw(&l, &[(Bucket { key: 4, le: Some(4) }, 5, 6)]);

    let Bucketed::Counters(f) = &b else { panic!() };
    assert_eq!(counter(f, &[("fs", "a"), ("size", "8")]), Some(3));
    assert_eq!(counter(f, &[("fs", "a"), ("operation", "read"), ("size", "4")]), Some(5));
    assert_eq!(counter(f, &[("fs", "a"), ("operation", "write"), ("size", "4")]), Some(6));
}

#[test]
fn observe_rw_counts_both_directions() {
    let mut f = CounterFamily { family: Family::default() };
    let l = labels(&[("fs", "lustre"), ("target", "lustre-ffff")]);
    observe_rw(&mut f, &l, &[(4096, 1, 2), (8192, 0, 7), (4096, 3, 0)]);

    let at = |op: &str, size: &str| {
        counter(&f, &[("fs", "lustre"), ("target", "lustre-ffff"), ("operation", op), ("size", size)])
    };
    assert_eq!(at("read", "4096"), Some(4));
    assert_eq!(at("write", "4096"), Some(2));
    assert_eq!(at("read", "8192"), Some(0));
    assert_eq!(at("write", "8192"), Some(7));
}

#[test]
fn extents_take_lower_bound_and_calls() {
    let rows = [
        ExtentsBucket { lower_bytes: 0, upper_bytes: 4096, overflow: false, read_calls: 1, write_calls: 2 },
        ExtentsBucket { lower_bytes: 4096, upper_bytes: 8192, overflow: false, read_calls: 3, write_calls: 4 },
    ];
    assert_eq!(extents(&rows), vec![(0, 1, 2), (4096, 3, 4)]);
}

#[test]
fn osp_devices_are_recognised() {
    assert!(is_osp("lustre-OST0000-osc-MDT0000"));
    assert!(!is_osp("lustre-OST0000-osc-ffff949bc0626000"));
    assert!(!is_osp("lustre-MDT0000-mdc-ffff949bc0626000"));
}

#[test]
fn start_time_keeps_the_earliest_whole_second() {
    assert_eq!(start_seconds("1787864516.502993110"), Some(1787864516));
    assert_eq!(start_seconds("12"), Some(12));
    assert_eq!(start_seconds("x1"), None);
    assert_eq!(start_seconds(""), None);

    let mut f = GaugeFamily { family: Family::default() };
    let l = labels(&[("fs", "a")]);
    let header = |t: &str| StatsHeader {
        snapshot_time: "1.0".to_string(),
        start_time: Some(t.to_string()),
    };
    set_start_time(&mut f, &l, &header("20.5"));
    set_start_time(&mut f, &l, &header("10.900000000"));
    set_start_time(&mut f, &l, &header("30.1"));
    set_start_time(&mut f, &l, &StatsHeader { snapshot_time: "1.0".to_string(), start_time: None });
    assert_eq!(gauge(&f, &[("fs", "a")]), Some(10));
}

#[test]
fn aggregated_osc_series_are_summed_per_filesystem() {
    let contents = "osc.a361000-OST0000-osc-ffff8b524be17800.cur_grant_bytes=100\nosc.a361000-OST0001-osc-ffff8b524be17800.cur_grant_bytes=23\nosc.a361000-OST0000-osc-ffff8b524be17800.state=\ncurrent_state: FULL\nstate_history:\nosc.a361000-OST0001-osc-ffff8b524be17800.state=\ncurrent_state: FULL\nstate_history:\n";

    let x = metrics_of(contents, ClientLabels::ByFilesystem, HistogramEncoding::BucketCounters);

    assert_eq!(gauge(&x.controller.osc.cur_grant_bytes, &[("fs", "a361000")]), Some(123));
    assert_eq!(
        x.controller
            .osc_state
            .family
            .get(&labels(&[("fs", "a361000"), ("current_state", "FULL")]))
            .map(|g| g.get()),
        Some(2)
    );

    let y = metrics_of(contents, ClientLabels::PerTarget, HistogramEncoding::BucketCounters);
    assert_eq!(
        gauge(
            &y.controller.osc.cur_grant_bytes,
            &[("fs", "a361000"), ("target", "a361000-OST0001-osc-ffff8b524be17800")]
        ),
        Some(23)
    );
}

#[test]
fn host_records_leave_the_families_alone() {
    let mut metrics = Metrics::new(
        ClientLabels::PerTarget,
        HistogramEncoding::BucketCounters,
        ExtendedClientMetrics::Off,
    );
    process_record(&Record::Host(HostStats::MemUsed(1)), &mut metrics);
    assert!(metrics.parse_errors.family.is_empty());
    assert!(metrics.controller.osc_state.family.is_empty());
}

#[test]
fn unparseable_blocks_are_counted_and_read_errors_end_the_fold() {
    let parse_error = |h: &str| {
        Err(BlockError::Parse { header: h.to_string(), source: LustreCollectorError::Utf8 })
    };

    let mut metrics = Metrics::new(
        ClientLabels::PerTarget,
        HistogramEncoding::BucketCounters,
        ExtendedClientMetrics::Off,
    );
    let items = vec![
        Ok(Record::Host(HostStats::MemUsed(1))),
        parse_error("a="),
        parse_error("b="),
    ];
    assert!(fold_records(items, "lctl", &mut metrics).is_ok());
    assert_eq!(gauge(&metrics.parse_errors, &[("source", "lctl")]), Some(2));

    let mut metrics = Metrics::new(
        ClientLabels::PerTarget,
        HistogramEncoding::BucketCounters,
        ExtendedClientMetrics::Off,
    );
    let items = vec![
        parse_error("a="),
        Err(BlockError::Read(io::Error::new(io::ErrorKind::BrokenPipe, "gone"))),
        parse_error("b="),
    ];
    assert!(fold_records(items, "lctl", &mut metrics).is_err());
    assert!(metrics.parse_errors.family.is_empty());

    let mut metrics = Metrics::new(
        ClientLabels::PerTarget,
        HistogramEncoding::BucketCounters,
        ExtendedClientMetrics::Off,
    );
    assert!(fold_records(vec![Ok(Record::Host(HostStats::MemUsed(1)))], "lctl", &mut metrics).is_ok());
    assert!(metrics.parse_errors.family.is_empty());
}

#[test]
fn command_errors_are_gauges() {
    let mut metrics = Metrics::new(
        ClientLabels::PerTarget,
        HistogramEncoding::BucketCounters,
        ExtendedClientMetrics::Off,
    );
    metrics.record_command_errors("lctl get_param", 3);
    metrics.record_command_errors("lctl get_param", 1);
    assert_eq!(gauge(&metrics.command_errors, &[("command", "lctl get_param")]), Some(1));
}

#[test]
fn md_and_read_ahead_stats_count_samples_by_operation() {
    let contents = "llite.fs-ffff94d28d903800.read_ahead_stats=\nsnapshot_time             1689697369.331040915 secs.nsecs\nhits                      2 samples [pages]\nmisses                    5 samples [pages]\n";

    let x = metrics_of(contents, ClientLabels::PerTarget, HistogramEncoding::BucketCounters);
    let l = [("fs", "fs"), ("target", "fs-ffff94d28d903800"), ("operation", "misses")];
    assert_eq!(counter(&x.llite.read_ahead_stats_total, &l), Some(5));
}

fn target_labels(t: &str) -> Vec<(&'static str, &str)> {
    vec![("fs", "lustre"), ("target", t)]
}

#[test]
fn bytes_per_rpc_are_pages_times_page_size() {
    let contents = "osc.lustre-OST0001-osc-ffff949bc0626000.rpc_stats=\nsnapshot_time:            1789952232.703630742 secs.nsecs\nread RPCs in flight:  0\nwrite RPCs in flight: 0\npending write pages:  0\npending read pages:   0\n\n\t\t\tread\t\t\twrite\npages per rpc         rpcs   % cum % |       rpcs   % cum %\n1:\t\t         0   0   0   |    52489  50  50\n2:\t\t         0   0   0   |    36540  35  85\n4:\t\t         1   0   0   |    14030  13  99\n8:\t\t       511  99 100   |      784   0 100\n";

    let records = parse_lctl_output(contents.as_bytes()).unwrap();
    let mut metrics = Metrics::new(
        ClientLabels::PerTarget,
        HistogramEncoding::BucketCounters,
        ExtendedClientMetrics::On { page_size: 65536 },
    );
    build_lustre_stats(&records, &mut metrics);

    let osc = &metrics.controller.osc;
    let (Bucketed::Counters(pages), Bucketed::Counters(bytes)) =
        (&osc.rpc_pages_per_rpc_total, &osc.rpc_bytes_per_rpc_total)
    else {
        panic!("expected counters")
    };
    let t = "lustre-OST0001-osc-ffff949bc0626000";
    for (size, bsize) in [("1", "65536"), ("2", "131072"), ("4", "262144"), ("8", "524288")] {
        for op in ["read", "write"] {
            let mut p = target_labels(t);
            p.extend([("operation", op), ("size", size)]);
            let mut b = target_labels(t);
            b.extend([("operation", op), ("size", bsize)]);
            assert_eq!(counter(pages, &p), counter(bytes, &b));
            assert!(counter(bytes, &b).is_some());
        }
    }

    let without = metrics_of(contents, ClientLabels::PerTarget, HistogramEncoding::BucketCounters);
    let Bucketed::Counters(none) = &without.controller.osc.rpc_bytes_per_rpc_total else {
        panic!("expected counters")
    };
    assert!(none.family.is_empty());
}

#[test]
fn compression_keys_split_into_direction_unit_and_type() {

    let t = "lustre-OST0000-osc-ffff949bc0626000";
    let mut metrics = Metrics::default();
    let x = ControllerStat {
        kind: ControllerVariant::Osc,
        param: Param("stats_compr".to_string()),
        controller: Target(t.to_string()),
        value: vec![
            KeyValue { name: "write_pages_zstd".to_string(), value: 5 },
            KeyValue { name: "bogus".to_string(), value: 1 },
            KeyValue { name: "read_bytes_lz4".to_string(), value: 7 },
            KeyValue { name: "read_bytes_lz4_x".to_string(), value: 9 },
        ],
    };
    build_compression_stats(&x, &mut metrics.controller.osc);

    let mut l = target_labels(t);
    l.push(("type", "zstd"));
    assert_eq!(counter(&metrics.controller.osc.compress_write_pages, &l), Some(5));
    let mut l = target_labels(t);
    l.push(("type", "lz4"));
    assert_eq!(counter(&metrics.controller.osc.compress_read_bytes, &l), Some(7));
    for kind in ["x", "lz4_x"] {
        let mut l = target_labels(t);
        l.push(("type", kind));
        assert_eq!(counter(&metrics.controller.osc.compress_read_bytes, &l), None);
    }
}

#[test]
fn statahead_names_get_underscores() {

    let mut metrics = Metrics::default();
    let x = LliteTargetStat {
        target: Target("lustre-ffff94d28d903800".to_string()),
        param: Param("statahead_stats".to_string()),
        value: vec![
            KeyValue { name: "statahead total".to_string(), value: 3 },
            KeyValue { name: "hit_total".to_string(), value: 4 },
        ],
    };
    build_statahead_stats(&x, &mut metrics.llite);

    let mut l = target_labels("lustre-ffff94d28d903800");
    l.push(("operation", "statahead_total"));
    assert_eq!(counter(&metrics.llite.statahead_stats_total, &l), Some(3));
    let mut l = target_labels("lustre-ffff94d28d903800");
    l.push(("operation", "hit_total"));
    assert_eq!(counter(&metrics.llite.statahead_stats_total, &l), Some(4));
}

#[test]
fn io_latency_entries_are_labelled_by_opsize() {

    let t = "lustre-OST0000-osc-ffff949bc0626000";
    let mut metrics = Metrics::new(
        ClientLabels::PerTarget,
        HistogramEncoding::Histogram,
        ExtendedClientMetrics::Off,
    );
    let x = TimedControllerStat {
        kind: ControllerVariant::Osc,
        param: Param("io_latency_stats".to_string()),
        controller: Target(t.to_string()),
        value: vec![
            BrwStats {
                name: "io_time_4K".to_string(),
                unit: "usec".to_string(),
                buckets: vec![BrwStatsBucket { name: 512, read: 1, write: 2 }],
            },
            BrwStats {
                name: "other".to_string(),
                unit: "usec".to_string(),
                buckets: vec![BrwStatsBucket { name: 512, read: 8, write: 8 }],
            },
        ],
        header: StatsHeader { snapshot_time: "1.0".to_string(), start_time: None },
    };
    build_io_latency_stats(&x, &mut metrics.controller.osc);

    let Bucketed::Histograms(f) = &metrics.controller.osc.io_latency_total else {
        panic!("expected histograms")
    };
    assert_eq!(f.series.len(), 2);
    let mut l = target_labels(t);
    l.extend([("opsize", "4K"), ("operation", "write")]);
    assert_eq!(histogram(f, &l).buckets.get(&1024), Some(&2));
}

#[test]
fn parsed_io_latency_stats_reach_their_family() {
    let t = "lustre-OST0000-osc-ffff949bc0626000";
    let contents = [
        "osc.lustre-OST0000-osc-ffff949bc0626000.io_latency_stats=\n",
        "snapshot_time:            1789952232.703630742 secs.nsecs\n",
        "start_time:               1787864516.502993110 secs.nsecs\n",
        "elapsed_time:             2087716.200637632 secs.nsecs\n",
        "\n",
        "                           read      |     write\n",
        "io_time_4K             ios   % cum % |  ios   % cum %\n",
        "512:                     1  33  33   |    2 100 100\n",
    ].concat();
    let metrics = metrics_of(&contents, ClientLabels::PerTarget, HistogramEncoding::Histogram);

    let Bucketed::Histograms(f) = &metrics.controller.osc.io_latency_total else {
        panic!("expected histograms")
    };
    assert_eq!(f.series.len(), 2);
    let mut l = target_labels(t);
    l.extend([("opsize", "4K"), ("operation", "write")]);
    assert_eq!(histogram(f, &l).buckets.get(&1024), Some(&2));
    let mut l = target_labels(t);
    l.extend([("opsize", "4K"), ("operation", "read")]);
    assert_eq!(histogram(f, &l).buckets.get(&1024), Some(&1));
}
