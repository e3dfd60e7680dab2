use lustrefs_exporter::extents::{extents_stats, extents_stats_per_process};
use lustrefs_exporter::key_value::key_values;
use lustrefs_exporter::lockless::lockless_stats;
use lustrefs_exporter::rows::extents_row;
use lustrefs_exporter::rpc_stats::rpc_stats;
use lustrefs_exporter::stats::read_ahead_stats;
use lustrefs_exporter::time::{time, time_triple};
use lustrefs_exporter::types::{
    BrwStatsBucket, ControllerState, ControllerStats, CountBucket, ExtentsBucket, KeyValue,
    LocklessStats, RwStats, StatsHeader, TargetStats,
};
use lustrefs_exporter::{llite, mdc, osc};

fn chars(s: &str) -> Vec<char> {
    s.chars().collect()
}

fn rest(v: &[char], j: usize) -> String {
    v[j..].iter().collect()
}

#[test]
fn parses_padded_lines_and_stops_at_next_param() {
    let input = chars("\nunstable_check:            1\nunstable_pages:            0\nunstable_mb:               0\nllite.fs-ffff94d28d903800.unstable_stats=\n");

    let (xs, j) = key_values(&input, 0).unwrap();

    assert_eq!(
        xs,
        vec![
            KeyValue { name: "unstable_check".to_string(), value: 1 },
            KeyValue { name: "unstable_pages".to_string(), value: 0 },
            KeyValue { name: "unstable_mb".to_string(), value: 0 },
        ]
    );
    assert_eq!(rest(&input, j), "llite.fs-ffff94d28d903800.unstable_stats=\n");
}

#[test]
fn names_may_contain_spaces() {
    let input = chars("\nstatahead total: 170075\nstatahead wrong: 380\nagl total: 170075\n");

    let (xs, j) = key_values(&input, 0).unwrap();

    assert_eq!(xs[0].name, "statahead total");
    assert_eq!(xs[0].value, 170075);
    assert_eq!(xs.len(), 3);
    assert_eq!(rest(&input, j), "");
}

#[test]
fn rejects_non_numeric_value() {
    assert!(key_values(&chars("\nfoo: bar\n"), 0).is_none());
}

const BUSY: &str = "\nsnapshot_time:            1789953552.214577612 secs.nsecs\nstart_time:               1789953080.395147468 secs.nsecs\nelapsed_time:             471.819430144 secs.nsecs\n                               read       |                write\n      extents            calls    % cum%  |          calls    % cum%\n   0K -    4K :           9833    9    9  |           9065   30   30\n   4K -    8K :           4885    4   14  |           4142   13   44\n   8K -   16K :           3693    3   17  |           2894    9   53\n  16K -   32K :           2994    2   20  |           1689    5   59\n  32K -   64K :          83121   79  100  |           1230    4   63\n  64K -  128K :              0    0  100  |            720    2   65\n 128K -  256K :              0    0  100  |            944    3   68\n 256K -  512K :              0    0  100  |           9329   31  100\nllite.a361000-ffff949bc0626000.extents_stats_per_process=\n";

const IDLE: &str = "\nsnapshot_time:            1789953552.214544163 secs.nsecs\nstart_time:               1789953080.395126028 secs.nsecs\nelapsed_time:             471.819418135 secs.nsecs\n                               read       |                write\n      extents            calls    % cum%  |          calls    % cum%\n   0K -    4K :              0    0    0  |              0    0    0\nllite.x.extents_stats=\n";

const DISABLED: &str = "\ndisabled\n write anything to this file to activate, then '0' or 'disable' to deactivate\nllite.x.extents_stats=\n";

#[test]
fn parses_busy_mount() {
    let input = chars(BUSY);
    let (xs, j) = extents_stats(&input, 0).unwrap();

    assert_eq!(rest(&input, j), "llite.a361000-ffff949bc0626000.extents_stats_per_process=\n");

    let RwStats::Enabled { header, value } = &xs else {
        panic!("expected enabled");
    };
    assert_eq!(header.snapshot_time, "1789953552.214577612");
    assert_eq!(value.len(), 8);
    assert_eq!(
        value[4],
        ExtentsBucket {
            lower_bytes: 32 << 10,
            upper_bytes: 64 << 10,
            overflow: false,
            read_calls: 83121,
            write_calls: 1230
        }
    );
    assert_eq!(
        value.iter().map(|b| (b.lower_bytes >> 10, b.upper_bytes >> 10, b.read_calls, b.write_calls)).collect::<Vec<_>>(),
        vec![
            (0, 4, 9833, 9065),
            (4, 8, 4885, 4142),
            (8, 16, 3693, 2894),
            (16, 32, 2994, 1689),
            (32, 64, 83121, 1230),
            (64, 128, 0, 720),
            (128, 256, 0, 944),
            (256, 512, 0, 9329),
        ]
    );
}

#[test]
fn idle_mount_has_one_zero_row() {
    let input = chars(IDLE);
    let (xs, j) = extents_stats(&input, 0).unwrap();

    let RwStats::Enabled { value, .. } = xs else {
        panic!("expected enabled");
    };
    assert_eq!(value.len(), 1);
    assert_eq!(value[0].read_calls, 0);
    assert_eq!(rest(&input, j), "llite.x.extents_stats=\n");
}

#[test]
fn disabled() {
    let input = chars(DISABLED);
    let (xs, j) = extents_stats(&input, 0).unwrap();

    assert_eq!(xs, RwStats::Disabled);
    assert_eq!(rest(&input, j), "llite.x.extents_stats=\n");
}

#[test]
fn overflow_bucket() {
    let input = chars("   8G -   16G+:              7  100  100  |              0    0  100\n");

    let (x, j) = extents_row(&input, 0).unwrap();

    assert!(x.overflow);
    assert_eq!(x.lower_bytes, 8 << 30);
    assert_eq!(x.upper_bytes, 16 << 30);
    assert_eq!(x.read_calls, 7);
    assert_eq!(rest(&input, j), "");
}

#[test]
fn per_process() {
    let input = chars("\nsnapshot_time:            1789953552.218611921 secs.nsecs\nstart_time:               1789953080.395147468 secs.nsecs\nelapsed_time:             471.823464453 secs.nsecs\n                               read       |                write\n      extents            calls    % cum%  |          calls    % cum%\n\nPID: 1748326\n   0K -    4K :            443   26   26  |              0    0    0\n   4K -    8K :            424   25   51  |              0    0    0\n\nPID: 1748455\n   0K -    4K :            444    3    3  |              0    0    0\nllite.x.offset_stats=\n");

    let (xs, j) = extents_stats_per_process(&input, 0).unwrap();

    assert_eq!(rest(&input, j), "llite.x.offset_stats=\n");

    let RwStats::Enabled { value, header } = &xs else {
        panic!("expected enabled");
    };
    assert_eq!(header.start_time.as_deref(), Some("1789953080.395147468"));
    assert_eq!(value.len(), 2);
    assert_eq!(value[0].pid, 1748326);
    assert_eq!(value[0].buckets.len(), 2);
    assert_eq!(value[0].buckets[1].read_calls, 424);
    assert_eq!(value[1].pid, 1748455);
    assert_eq!(value[1].buckets[0].read_calls, 444);
}

#[test]
fn per_process_idle_has_no_blocks() {
    let input = chars("\nsnapshot_time:            1789953552.218533061 secs.nsecs\nstart_time:               1789953080.395126028 secs.nsecs\nelapsed_time:             471.823407033 secs.nsecs\n                               read       |                write\n      extents            calls    % cum%  |          calls    % cum%\nllite.x.extents_stats_per_process=\n");

    let (xs, j) = extents_stats_per_process(&input, 0).unwrap();

    let RwStats::Enabled { value, .. } = xs else {
        panic!("expected enabled");
    };
    assert!(value.is_empty());
    assert_eq!(rest(&input, j), "llite.x.extents_stats_per_process=\n");
}

#[test]
fn test_parse() {
    let input = chars("llite.ai400x2-ffff9440f1003000.stats=\nsnapshot_time             1689697369.331040915 secs.nsecs\nioctl                     2 samples [reqs]\nopen                      13812423 samples [usec] 1 725287 1027077752 8835364169944\nclose                     13812423 samples [usec] 47 778498 1320315612 17542973849370\nreaddir                   12 samples [usec] 0 4647 6715 22456295\ngetattr                   14812440 samples [usec] 2 320411 1317584841 2110166912709\nunlink                    6906208 samples [usec] 117 749323 1386719680 23443327087798\nmkdir                     7906554 samples [usec] 104 1529199 20996782592 1837945636486522\nrmdir                     6939862 samples [usec] 95 646028 16617944601 635123583760591\nmknod                     6906208 samples [usec] 119 775827 1454511094 10119157242014\nstatfs                    7 samples [usec] 147 197 1236 220284\ninode_permission          251887103 samples [usec] 0 14235 178199279 1102415701\nopencount                 13812424 samples [reqs] 1 2 20718632 34531048\nopenclosetime             6906208 samples [usec] 2225920 34405427 163169641155255 11416538743473681487\n");

    let mut records = vec![];
    let mut j = 0;
    while let Some((x, k)) = llite::parse(&input, j) {
        records.push(x);
        j = k;
    }

    assert_eq!(records.len(), 1);
    assert_eq!(rest(&input, j), "");
    let TargetStats::Llite(x) = &records[0] else {
        panic!("expected llite stats");
    };
    assert_eq!(x.target.0, "ai400x2-ffff9440f1003000");
    assert_eq!(x.param.0, "stats");
    assert_eq!(x.header.snapshot_time, "1689697369.331040915");
    assert_eq!(x.header.start_time, None);
    assert_eq!(x.stats.len(), 13);
    assert_eq!(x.stats[0].name, "ioctl");
    assert_eq!(x.stats[0].samples, 2);
    assert_eq!(x.stats[0].units, "reqs");
    assert_eq!(x.stats[0].min, None);
    assert_eq!(x.stats[12].name, "openclosetime");
    assert_eq!(x.stats[12].sumsquare, Some(11416538743473681487));
    assert_eq!(x.stats[12].sum, Some(163169641155255));
}

#[test]
fn parses_pre_2_14_52_names() {
    let input = chars("\nsnapshot_time             1689697369.331040915 secs.nsecs\nhits                      12 samples [pages]\nmisses                    4 samples [pages]\nreadpage not consecutive  3 samples [pages]\nmiss inside window        1 samples [pages]\nfailed grab_cache_page    1 samples [pages]\nread-ahead to EOF         7 samples [pages]\nhit max r-a issue         2 samples [pages]\nwrong page from grab_cache_page 1 samples [pages]\nfailed to fast read       5 samples [pages]\nllite.x.extents_stats=\n");

    let ((header, stats), j) = read_ahead_stats(&input, 0).unwrap();

    assert_eq!(rest(&input, j), "llite.x.extents_stats=\n");
    assert_eq!(header.snapshot_time, "1689697369.331040915");
    let names: Vec<(&str, u64)> = stats.iter().map(|s| (s.name.as_str(), s.samples)).collect();
    assert_eq!(
        names,
        vec![
            ("hits", 12),
            ("misses", 4),
            ("readpage_not_consecutive", 3),
            ("miss_inside_window", 1),
            ("failed_grab_cache_page", 1),
            ("readahead_to_eof", 7),
            ("hit_max_readahead_issue", 2),
            ("wrong_page_from_grab_cache_page", 1),
            ("failed_to_fast_read", 5),
        ]
    );
    assert!(stats.iter().all(|s| s.units == "pages" && s.min.is_none()));
}

#[test]
fn parses_current_names() {
    let input = chars("\nsnapshot_time             1789952232.698225730 secs.nsecs\nstart_time                1787073662.351805909 secs.nsecs\nelapsed_time              2878570.346419821 secs.nsecs\nhits                      100 samples [pages] 1 1 100 100\nreadahead_to_eof          3 samples [pages]\nosc.x.stats=\n");

    let ((header, stats), j) = read_ahead_stats(&input, 0).unwrap();

    assert_eq!(rest(&input, j), "osc.x.stats=\n");
    assert_eq!(header.start_time.as_deref(), Some("1787073662.351805909"));
    assert_eq!(stats.len(), 2);
    assert_eq!(stats[0].sumsquare, Some(100));
    assert_eq!(stats[1].name, "readahead_to_eof");
}

#[test]
fn idle_block_has_header_only() {
    let input = chars("\nsnapshot_time             1789952232.698225730 secs.nsecs\nllite.x.extents_stats=\n");

    let ((_, stats), j) = read_ahead_stats(&input, 0).unwrap();

    assert!(stats.is_empty());
    assert_eq!(rest(&input, j), "llite.x.extents_stats=\n");
}

#[test]
fn parses_real_output() {
    let input = chars("\nsnapshot_time:            1789952232.698225730 secs.nsecs\nstart_time:               1787073662.351805909 secs.nsecs\nelapsed_time:             2878570.346419821 secs.nsecs\nlockless_write_bytes\t\t4096\nlockless_read_bytes\t\t0\nosc.fs-OST0000-osc-ffff94d28d903800.osc_stats=\n");

    let ((header, stats), j) = lockless_stats(&input, 0).unwrap();

    assert_eq!(header.snapshot_time, "1789952232.698225730");
    assert_eq!(header.start_time.as_deref(), Some("1787073662.351805909"));
    assert_eq!(stats, LocklessStats { write_bytes: 4096, read_bytes: 0, truncates: None });
    assert_eq!(rest(&input, j), "osc.fs-OST0000-osc-ffff94d28d903800.osc_stats=\n");
}

#[test]
fn parses_pre_2_14_53_output() {
    let input = chars("\nsnapshot_time:            1689697369.331040915 secs.nsecs\nlockless_write_bytes\t\t0\nlockless_read_bytes\t\t8192\nlockless_truncate\t\t3\nosc.fs-OST0001-osc-ffff94d28d903800.osc_stats=\n");

    let ((header, stats), j) = lockless_stats(&input, 0).unwrap();

    assert_eq!(header.start_time, None);
    assert_eq!(stats, LocklessStats { write_bytes: 0, read_bytes: 8192, truncates: Some(3) });
    assert_eq!(rest(&input, j), "osc.fs-OST0001-osc-ffff94d28d903800.osc_stats=\n");
}

#[test]
fn params_are_requested_in_order() {
    assert_eq!(mdc::params(), ["mdc.*.md_stats", "mdc.*.stats", "mdc.*.rpc_stats", "mdc.*.mdc_stats"]);
}

#[test]
fn parses_md_stats_then_stats() {
    let input = chars("mdc.a361000-MDT0000-mdc-ffff94d28d903800.md_stats=\nsnapshot_time             1789952232.646146706 secs.nsecs\nstart_time                1787864516.486398220 secs.nsecs\nelapsed_time              2087716.159748486 secs.nsecs\nclose                     1024327 samples [reqs]\ncreate                    2 samples [reqs]\nenqueue                   45166 samples [reqs]\ngetattr                   4326 samples [reqs]\nintent_lock               1046326 samples [reqs]\nmdc.a361000-MDT0000-mdc-ffff94d28d903800.stats=\nsnapshot_time             1789952232.657219153 secs.nsecs\nstart_time                1787864516.486401920 secs.nsecs\nelapsed_time              2087716.170817233 secs.nsecs\nreq_waittime              2222271 samples [usecs] 101 189010 927538421 1313195185071\nreq_active                2222271 samples [reqs] 1 4 4224905 9948733\nmds_close                 1024327 samples [usecs] 103 189010 417563414 597054272656\nldlm_enqueue              1091492 samples [usecs] 105 165006 434824356 553257670099\nosc.a361000-OST0000-osc-ffff949bc0626000.cur_grant_bytes=8437760\n");

    let mut records = vec![];
    let mut j = 0;
    while let Some((x, k)) = mdc::parse(&input, j) {
        records.push(x);
        j = k;
    }

    assert_eq!(rest(&input, j), "osc.a361000-OST0000-osc-ffff949bc0626000.cur_grant_bytes=8437760\n");
    assert_eq!(records.len(), 2);
    let ControllerStats::MdStats(x) = &records[0] else {
        panic!("expected md_stats");
    };
    assert_eq!(x.controller.0, "a361000-MDT0000-mdc-ffff94d28d903800");
    assert_eq!(x.value.len(), 5);
    assert_eq!(x.value[4].name, "intent_lock");
    assert_eq!(x.value[4].samples, 1046326);
    let ControllerStats::Stats(x) = &records[1] else {
        panic!("expected stats");
    };
    assert_eq!(x.value.len(), 4);
    assert_eq!(x.value[0].units, "usecs");
    assert_eq!(x.value[0].min, Some(101));
    assert_eq!(x.value[3].sumsquare, Some(553257670099));
}

#[test]
fn test_parse_osc_state() {
    let input = chars("osc.fs-OST0000-osc-MDT0000.state=\ncurrent_state: FULL\nstate_history:\n - [ 1775627216, CONNECTING ]\n - [ 1775627216, FULL ]\n");

    let result = osc::parse(&input, 0);
    assert!(result.is_some(), "Parse failed: {:?}", result);

    let (record, _) = result.unwrap();
    match record {
        ControllerStats::OscState(stat) => {
            assert_eq!(stat.controller.0, "fs-OST0000-osc-MDT0000");
            assert_eq!(stat.value.current_state, ControllerState::Full);
        },
        _ => panic!("Expected OscState record"),
    }
}

#[test]
fn test_params() {
    assert_eq!(
        osc::params(),
        vec![
            "osc.*.state",
            "osc.*.stats",
            "osc.*.rpc_stats",
            "osc.*.io_latency_stats",
            "osc.*.osc_stats",
            "osc.*.unstable_stats",
            "osc.*.stats_compr",
            "osc.*.cur_grant_bytes",
            "osc.*.cur_dirty_bytes",
        ]
    );
}

const OSC: &str = "\nsnapshot_time:            1789952232.703630742 secs.nsecs\nstart_time:               1787864516.502993110 secs.nsecs\nelapsed_time:             2087716.200637632 secs.nsecs\nread RPCs in flight:  0\nwrite RPCs in flight: 0\nDIO RPCs in flight: 0\npending write pages:  0\npending read pages:   0\n\n\t\t\tread\t\t\twrite\npages per rpc         rpcs   % cum % |       rpcs   % cum %\n1:\t\t         0   0   0   |    52489  50  50\n2:\t\t         0   0   0   |    36540  35  85\n4:\t\t         1   0   0   |    14030  13  99\n8:\t\t       511  99 100   |      784   0 100\n\n\t\t\tread\t\t\twrite\nrpcs in flight        rpcs   % cum % |       rpcs   % cum %\n1:\t\t       512 100 100   |   103843 100 100\n\n\t\t\tread\t\t\twrite\noffset                rpcs   % cum % |       rpcs   % cum %\n0:\t\t       512 100 100   |   103843 100 100\n\n\t\t\tread\t\t\twrite\nRPC latency (us)       count   % cum % |       count   % cum %\n0:\t\t         0   0   0   |        0   0   0\n512:\t\t         3   0   0   |      567   0   0\n1024:\t\t       327  63  64   |    93264  89  90\n2048:\t\t       159  31  95   |     9820   9  99\n4096:\t\t        19   3  99   |      180   0  99\n8192:\t\t         3   0 100   |       10   0  99\n16384:\t\t         1   0 100   |        2   0 100\nosc.a361000-OST0001-osc-ffff949bc0626000.rpc_stats=\n";

const MDC: &str = "\nsnapshot_time:            1789952232.668377739 secs.nsecs\nstart_time:               1787073662.340515449 secs.nsecs\nelapsed_time:             2878570.327862290 secs.nsecs\nmodify_RPCs_in_flight:  0\n\n\t\t\tmodify\nrpcs in flight        rpcs   % cum %\n0:\t\t         0   0   0\n1:\t\t      1383   6   6\n2:\t\t      9773  44  50\n3:\t\t      3486  15  66\n4:\t\t      7375  33 100\n\nread RPCs in flight:  0\nwrite RPCs in flight: 0\npending write pages:  0\npending read pages:   0\n\n\t\t\tread\t\t\twrite\npages per rpc         rpcs   % cum % |       rpcs   % cum %\n1:\t\t         0   0   0   |          0   0   0\n\n\t\t\tread\t\t\twrite\nrpcs in flight        rpcs   % cum % |       rpcs   % cum %\n1:\t\t         0   0   0   |          0   0   0\n\n\t\t\tread\t\t\twrite\noffset                rpcs   % cum % |       rpcs   % cum %\n0:\t\t         0   0   0   |          0   0   0\nmdc.a361000-MDT0000-mdc-ffff94d28d903800.rpc_stats=\n";

#[test]
fn parses_osc_with_dio_and_latency() {
    let input = chars(OSC);
    let ((header, stats), j) = rpc_stats(&input, 0).unwrap();

    assert_eq!(rest(&input, j), "osc.a361000-OST0001-osc-ffff949bc0626000.rpc_stats=\n");
    assert_eq!(header.snapshot_time, "1789952232.703630742");
    assert_eq!(stats.scalars.len(), 5);
    assert_eq!(stats.scalars[2].name, "DIO RPCs in flight");
    assert!(stats.modify_rpcs_in_flight.is_none());
    assert_eq!(
        stats.histograms.iter().map(|x| x.name.as_str()).collect::<Vec<_>>(),
        ["pages per rpc", "rpcs in flight", "offset", "RPC latency (us)"]
    );
    assert_eq!(stats.histograms[3].buckets.len(), 7);
    assert_eq!(stats.histograms[3].buckets[2], BrwStatsBucket { name: 1024, read: 327, write: 93264 });
    assert_eq!(stats.histograms[0].unit, "rpcs");
    assert_eq!(stats.histograms[3].unit, "count");
    assert_eq!(stats.histograms[0].buckets.len(), 4);
}

#[test]
fn parses_mdc_with_modify_histogram() {
    let input = chars(MDC);
    let ((_, stats), j) = rpc_stats(&input, 0).unwrap();

    assert_eq!(rest(&input, j), "mdc.a361000-MDT0000-mdc-ffff94d28d903800.rpc_stats=\n");
    assert_eq!(stats.scalars[0].name, "modify_RPCs_in_flight");
    assert_eq!(stats.scalars.len(), 5);
    assert_eq!(stats.modify_rpcs_in_flight.as_ref().unwrap()[2], CountBucket { key: 2, count: 9773 });
    assert_eq!(stats.histograms.len(), 3);
}

#[test]
fn literal_double_percent_headers_are_accepted() {
    let input = chars(&MDC.replace("% cum %", "%% cum %%"));

    let ((_, stats), _) = rpc_stats(&input, 0).unwrap();

    assert_eq!(stats.histograms[0].name, "pages per rpc");
    assert_eq!(stats.modify_rpcs_in_flight.unwrap().len(), 5);
}

#[test]
fn header_only_when_idle() {
    let input = chars("\nsnapshot_time:            1789952232.703585899 secs.nsecs\nread RPCs in flight:  0\nosc.x.rpc_stats=\n");

    let ((_, stats), j) = rpc_stats(&input, 0).unwrap();

    assert_eq!(stats.scalars.len(), 1);
    assert!(stats.histograms.is_empty());
    assert_eq!(rest(&input, j), "osc.x.rpc_stats=\n");
}

#[test]
fn test_time() {
    let x = chars("snapshot_time:         1534158712.738772898 (secs.nsecs)\n");

    let (t, j) = time(&x, 0, "snapshot_time").unwrap();

    assert_eq!((t, rest(&x, j)), ("1534158712.738772898".to_string(), "\n".to_string()));
}

#[test]
fn test_time_no_colon() {
    let x = chars("snapshot_time             1534769431.137892896 secs.nsecs\n");

    let (t, j) = time(&x, 0, "snapshot_time").unwrap();

    assert_eq!((t, rest(&x, j)), ("1534769431.137892896".to_string(), "\n".to_string()));
}

#[test]
fn test_time_leading_zero_nsecs() {
    let x = chars("snapshot_time             1566017453.009677077 secs.nsecs\n");

    let (t, j) = time(&x, 0, "snapshot_time").unwrap();

    assert_eq!((t, rest(&x, j)), ("1566017453.009677077".to_string(), "\n".to_string()));
}

#[test]
fn test_time_triple_leading_zero_start_time() {
    let x = chars("snapshot_time             1684948453.142852820 secs.nsecs\nstart_time                1684946875.004329012 secs.nsecs\nelapsed_time              1577.038523808 secs.nsecs\n");

    let (result, _) = time_triple(&x, 0).unwrap();

    assert_eq!(result.start_time.as_deref(), Some("1684946875.004329012"));
}

#[test]
fn test_time_space_padded_nanoseconds() {
    let x = chars("snapshot_time:         1534158712.  4567890 (secs.nsecs)\n");

    let (t, j) = time(&x, 0, "snapshot_time").unwrap();

    assert_eq!((t, rest(&x, j)), ("1534158712.004567890".to_string(), "\n".to_string()));
}

#[test]
fn test_time_triple() {
    let x = chars("snapshot_time             1684948453.142852820 secs.nsecs\nstart_time                1684946875.504329012 secs.nsecs\nelapsed_time              1577.638523808 secs.nsecs\n");

    let (result, j) = time_triple(&x, 0).unwrap();

    assert_eq!(
        result,
        StatsHeader {
            snapshot_time: "1684948453.142852820".to_string(),
            start_time: Some("1684946875.504329012".to_string()),
        }
    );
    assert_eq!(rest(&x, j), "");
}

#[test]
fn test_time_triple_back_compat() {
    let x = chars("snapshot_time             1596728874.484750908 secs.nsecs\nreq_waittime              31280 samples [usec] 11 2695 5020274 1032267156\n\n");

    let (result, j) = time_triple(&x, 0).unwrap();

    assert_eq!(
        result,
        StatsHeader { snapshot_time: "1596728874.484750908".to_string(), start_time: None }
    );
    assert_eq!(rest(&x, j), "req_waittime              31280 samples [usec] 11 2695 5020274 1032267156\n\n");
}

#[test]
fn io_latency_stats_is_a_list_of_read_write_tables() {
    let input = chars(&[
        "osc.fs-OST0000-osc-ffff949bc0626000.io_latency_stats=\n",
        "snapshot_time:            1789952232.703630742 secs.nsecs\n",
        "start_time:               1787864516.502993110 secs.nsecs\n",
        "elapsed_time:             2087716.200637632 secs.nsecs\n",
        "\n",
        "                           read      |     write\n",
        "io_time_4K             ios   % cum % |  ios   % cum %\n",
        "1:                       3  75  75   |    0   0   0\n",
        "2:                       1  25 100   |    2 100 100\n",
        "\n",
        "                           read      |     write\n",
        "io_time_1M             ios   % cum % |  ios   % cum %\n",
        "4:                       5 100 100   |    0   0   0\n",
        "osc.fs-OST0000-osc-ffff949bc0626000.cur_grant_bytes=1\n",
    ].concat());

    let (x, j) = osc::parse(&input, 0).unwrap();

    assert_eq!(rest(&input, j), "osc.fs-OST0000-osc-ffff949bc0626000.cur_grant_bytes=1\n");
    let ControllerStats::IoLatencyStats(s) = x else {
        panic!("expected io_latency_stats")
    };
    assert_eq!(s.param.0, "io_latency_stats");
    assert_eq!(s.controller.0, "fs-OST0000-osc-ffff949bc0626000");
    assert_eq!(s.header.start_time.as_deref(), Some("1787864516.502993110"));
    assert_eq!(s.value.len(), 2);
    assert_eq!(s.value[0].name, "io_time_4K");
    assert_eq!(s.value[0].unit, "ios");
    assert_eq!(
        s.value[0].buckets,
        vec![
            BrwStatsBucket { name: 1, read: 3, write: 0 },
            BrwStatsBucket { name: 2, read: 1, write: 2 },
        ]
    );
    assert_eq!(s.value[1].name, "io_time_1M");
    assert_eq!(s.value[1].buckets, vec![BrwStatsBucket { name: 4, read: 5, write: 0 }]);
}

#[test]
fn io_latency_stats_needs_its_header() {
    let input = chars("osc.x.io_latency_stats=\n\n   read | write\nio_time_4K  ios\n");
    assert!(osc::parse(&input, 0).is_none());
}
