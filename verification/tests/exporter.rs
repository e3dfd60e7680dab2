use lustrefs_exporter::client::{fs_name, labels, with, ClientLabels};
use lustrefs_exporter::histogram::{Bucket, HistogramEncoding, Table};
use lustrefs_exporter::lctl::parse_lctl_output;
use lustrefs_exporter::prom_label::LabelProm;
use lustrefs_exporter::routes::{
    is_expected_stderr, killed_mid_output, unexpected_stderr, ExporterConfig, SIGPIPE,
};
use lustrefs_exporter::stream::{
    contains, first_line, is_exports_header, is_param_header, lctl_records, BlockError, ReadEvent,
    Step,
};
use lustrefs_exporter::types::{
    ControllerVariant, ExportUuids, HostStats, Record, Target, TargetStats, TargetVariant,
};
use std::io::{self, BufRead, BufReader, Cursor, Read};

/// Drives the split over a reader, as the exporter does.
fn records<R: BufRead>(mut reader: R) -> Vec<Result<Record, BlockError>> {
    let mut state = lctl_records();
    let mut out = Vec::new();

    loop {
        match state.step() {
            Step::Yield(x) => out.push(x),
            Step::Done => return out,
            Step::NeedLine => {
                let mut line = Vec::new();
                let event = match reader.read_until(b'\n', &mut line) {
                    Ok(0) => ReadEvent::Eof,
                    Ok(_) => ReadEvent::Line(line),
                    Err(e) => ReadEvent::Error(e),
                };

                if let Some(e) = state.on_read(event) {
                    out.push(Err(e));
                }
            }
        }
    }
}

#[test]
fn labels_by_mode() {
    let target = "a361000-OST0000-osc-ffff949bc0626000";

    assert_eq!(
        ClientLabels::PerTarget.labels(target),
        vec![("fs", "a361000".to_string()), ("target", target.to_string())]
    );
    assert_eq!(
        ClientLabels::ByFilesystem.labels(target),
        vec![("fs", "a361000".to_string())]
    );
}

#[test]
fn fs_name_follows_the_kernel_rule() {
    assert_eq!(fs_name("a361000-OST0000-osc-ffff949bc0626000"), "a361000");
    assert_eq!(fs_name("a361000-ffff949bc0626000"), "a361000");
    assert_eq!(fs_name("lustre-MDT0000-mdc-ffff949bc0626000"), "lustre");
    assert_eq!(fs_name("my-fs-OST0000-osc-ffff949bc0626000"), "my-fs");
    assert_eq!(fs_name("abcdefgh-OST0000-osc-ffff949bc0626000"), "abcdefgh");
    assert_eq!(fs_name("lustre:OST0000-osc-ffff949bc0626000"), "lustre");
    assert_eq!(fs_name("nodash"), "nodash");
}

#[test]
fn table_bounds() {
    let le = |t: Table, k| t.bucket(k).le;

    assert_eq!(le(Table::PagesPerRpc, 1), Some(1));
    assert_eq!(le(Table::PagesPerRpc, 256), Some(256));

    assert_eq!(le(Table::RpcsInFlight, 0), Some(0));
    assert_eq!(le(Table::RpcsInFlight, 30), Some(30));
    assert_eq!(le(Table::RpcsInFlight, 31), None);

    assert_eq!(le(Table::Offset, 0), Some(0));
    assert_eq!(le(Table::Offset, 1), Some(1));
    assert_eq!(le(Table::Offset, 8), Some(15));
    assert_eq!(le(Table::Offset, 1 << 30), None);

    assert_eq!(le(Table::Latency, 0), Some(1));
    assert_eq!(le(Table::Latency, 512), Some(1024));
    assert_eq!(le(Table::Latency, 1 << 30), None);
}

#[test]
fn test_target_variant_to_prom_label() {
    assert_eq!(TargetVariant::Ost.to_prom_label(), "ost");
    assert_eq!(TargetVariant::Mgt.to_prom_label(), "mgt");
    assert_eq!(TargetVariant::Mdt.to_prom_label(), "mdt");
}

#[test]
fn test_controller_variant_to_prom_label() {
    assert_eq!(ControllerVariant::Osc.to_prom_label(), "osc");
    assert_eq!(ControllerVariant::Mdc.to_prom_label(), "mdc");
}

#[test]
fn unparseable_block_is_reported_and_skipped() {
    let input = "memused=1\nnot_a_param=\nsome value\nlnet_memused=2\n";

    let xs = records(BufReader::new(Cursor::new(input)));

    assert_eq!(xs.len(), 3);
    assert!(xs[0].is_ok());
    let Err(BlockError::Parse { header, .. }) = &xs[1] else {
        panic!("expected a parse error, got {:?}", xs[1]);
    };
    assert_eq!(header, "not_a_param=");
    assert!(xs[2].is_ok());
}

#[test]
fn invalid_utf8_is_a_parse_error_for_its_block() {
    let input = b"memused=1\nlnet_memused=2\xff\nhealth_check=healthy\n";

    let xs = records(BufReader::new(Cursor::new(&input[..])));

    assert_eq!(xs.len(), 3);
    assert!(xs[0].is_ok());
    assert!(matches!(xs[1], Err(BlockError::Parse { .. })));
    assert!(xs[2].is_ok(), "{:?}", xs[2]);
}

struct Failing<'a> {
    data: &'a [u8],
    ok: usize,
}

impl Read for Failing<'_> {
    fn read(&mut self, buf: &mut [u8]) -> io::Result<usize> {
        if self.ok == 0 {
            return Err(io::Error::new(io::ErrorKind::BrokenPipe, "lctl died"));
        }

        let n = buf.len().min(self.ok).min(self.data.len());
        buf[..n].copy_from_slice(&self.data[..n]);
        self.data = &self.data[n..];
        self.ok -= n;

        Ok(n)
    }
}

#[test]
fn read_error_is_terminal() {
    let input = b"memused=1\nlnet_memused=2\nhealth_check=healthy\n";
    let reader = BufReader::with_capacity(
        8,
        Failing {
            data: input,
            ok: 26,
        },
    );

    let xs = records(reader);

    assert_eq!(xs.len(), 2, "{xs:?}");
    assert!(xs[0].is_ok());
    assert!(matches!(xs[1], Err(BlockError::Read(_))), "{:?}", xs[1]);
}

#[test]
fn streamed_records_match_whole_buffer_parse() {
    let input = "memused=5\nmemused_max=7\nlnet_memused=9\nhealth_check=healthy\n";

    let expected = parse_lctl_output(input.as_bytes()).unwrap();
    let streamed: Vec<Record> = records(BufReader::new(Cursor::new(input)))
        .into_iter()
        .map(|x| x.unwrap())
        .collect();

    assert_eq!(streamed, expected);
    assert_eq!(
        streamed,
        vec![
            Record::Host(HostStats::MemUsed(5)),
            Record::Host(HostStats::MemUsedMax(7)),
            Record::Host(HostStats::LNetMemUsed(9)),
            Record::Host(HostStats::HealthCheck("healthy".to_string())),
        ]
    );
}

#[test]
fn last_line_without_newline_is_read() {
    let xs = records(BufReader::new(Cursor::new("memused=1\nlnet_memused=2")));

    assert_eq!(xs.len(), 2);
    assert_eq!(xs[1].as_ref().unwrap(), &Record::Host(HostStats::LNetMemUsed(2)));
}

#[test]
fn empty_output_has_no_records() {
    assert!(records(BufReader::new(Cursor::new(""))).is_empty());
}

#[test]
fn param_and_exports_headers() {
    assert!(is_param_header(b"memused=1\n"));
    assert!(!is_param_header(b" memused=1\n"));
    assert!(!is_param_header(b"some value\n"));
    assert!(!is_param_header(b""));

    assert!(is_exports_header(b"mdt.fs-MDT0000.exports.0@lo.uuid=\n"));
    assert!(!is_exports_header(b"mdt.fs-MDT0000.exports.0@lo.stats=\n"));

    assert!(contains(b"abcabd", b"abd"));
    assert!(!contains(b"ab", b"abc"));

    assert_eq!(first_line(b"one\ntwo\n"), b"one".to_vec());
    assert_eq!(first_line(b"no newline"), b"no newline".to_vec());
    assert_eq!(first_line(b""), Vec::<u8>::new());
}

#[test]
fn stderr_of_unmatched_patterns_is_expected() {
    assert!(is_expected_stderr(
        "error: get_param: param_path 'mdt/*/job_stats': No such file or directory"
    ));
    assert!(!is_expected_stderr(
        "error: read_param: '/proc/fs/lustre/health_check': Input/output error"
    ));
    assert!(!is_expected_stderr("No such file or directory"));
    assert!(!is_expected_stderr(""));
}

#[test]
fn with_appends_one_label() {
    let xs = labels("lustre-MDT0000-mdc-ffff949bc0626000");
    let ys = with(&xs, "operation", "open".to_string());

    assert_eq!(ys.len(), 3);
    assert_eq!(ys[..2], xs[..]);
    assert_eq!(ys[2], ("operation", "open".to_string()));
}

#[test]
fn defaults() {
    assert_eq!(ClientLabels::default(), ClientLabels::PerTarget);
    assert_eq!(HistogramEncoding::default(), HistogramEncoding::BucketCounters);
    assert_eq!(ExporterConfig::default().client_labels, ClientLabels::PerTarget);
}

#[test]
fn bucket_bounds_rise_with_keys() {
    for table in [Table::PagesPerRpc, Table::RpcsInFlight, Table::Offset, Table::Latency] {
        let mut last = None;
        for key in [0u64, 1, 2, 4, 8, 16, 30] {
            let le = table.bucket(key).le.unwrap();
            if let Some(prev) = last {
                assert!(prev <= le);
            }
            last = Some(le);
        }
    }
}

#[test]
fn scaled_bucket_saturates() {
    let b = Bucket { key: 8, le: Some(8) };
    assert_eq!(b.scaled(4096), Bucket { key: 32768, le: Some(32768) });
    assert_eq!(
        Bucket { key: u64::MAX, le: None }.scaled(2),
        Bucket { key: u64::MAX, le: None }
    );
}

#[test]
fn exports_headers_stay_together() {
    let input = "mdt.fs-MDT0000.exports.0@lo.uuid=\nfs-MDT0000-lwp-MDT0000_UUID\nmdt.fs-MDT0000.exports.10.0.0.1@tcp.uuid=\nabc-def_UUID\nmemused=1\n";

    let expected = parse_lctl_output(input.as_bytes()).unwrap();

    let streamed: Vec<Record> = records(BufReader::new(Cursor::new(input)))
        .into_iter()
        .map(|x| x.unwrap())
        .collect();

    assert_eq!(streamed, expected);
}

#[test]
fn exports_list_their_uuids_by_nid() {
    let input = "mdt.fs-MDT0000.exports.0@lo.uuid=\nfs-MDT0000-lwp-MDT0000_UUID\nmdt.fs-MDT0000.exports.10.0.0.1@tcp.uuid=\nabc-def_UUID\nghi_UUID\nobdfilter.fs-OST0000.exports.0@lo.uuid=\nmemused=1\n";

    let export = |kind, target: &str, nid: &str, uuids: &[&str]| {
        Record::Target(TargetStats::ExportUuids(ExportUuids {
            kind,
            target: Target(target.to_string()),
            nid: nid.to_string(),
            uuids: uuids.iter().map(|u| u.to_string()).collect(),
        }))
    };

    assert_eq!(
        parse_lctl_output(input.as_bytes()).unwrap(),
        vec![
            export(TargetVariant::Mdt, "fs-MDT0000", "0@lo", &["fs-MDT0000-lwp-MDT0000_UUID"]),
            export(TargetVariant::Mdt, "fs-MDT0000", "10.0.0.1@tcp", &["abc-def_UUID", "ghi_UUID"]),
            export(TargetVariant::Ost, "fs-OST0000", "0@lo", &[]),
            Record::Host(HostStats::MemUsed(1)),
        ]
    );
    assert!(parse_lctl_output(b"mdt.fs-MDT0000.exports..uuid=\n").is_err());
}

#[test]
fn only_a_signal_other_than_sigpipe_truncates_output() {
    assert!(!killed_mid_output(None));
    assert!(!killed_mid_output(Some(SIGPIPE)));
    assert!(killed_mid_output(Some(9)));
    assert!(killed_mid_output(Some(15)));
}

#[test]
fn unexpected_stderr_skips_blank_and_missing_param_lines() {
    let stderr = "error: get_param: param_path 'jobid_name': No such file or directory\n\
                  \n   \t\n\
                  error: get_param: something bad\r\n\
                  read_param: bad\r";
    let lines = unexpected_stderr(stderr);
    assert_eq!(
        lines,
        vec![
            "error: get_param: something bad".to_string(),
            "read_param: bad\r".to_string(),
        ]
    );
    assert!(unexpected_stderr("").is_empty());
    assert!(unexpected_stderr("\n\n").is_empty());
    assert_eq!(unexpected_stderr("x\n"), vec!["x".to_string()]);
}

#[test]
fn finish_classifies_exit_and_stderr() {
    // `kill -KILL $$`
    assert!(killed_mid_output(Some(9)));
    // `kill -PIPE $$`
    assert!(!killed_mid_output(Some(SIGPIPE)));
    assert!(unexpected_stderr("").is_empty());
    // `echo x; echo 'error: get_param: something bad' >&2; exit 3`
    assert!(!killed_mid_output(None));
    assert_eq!(unexpected_stderr("error: get_param: something bad\n").len(), 1);
    // a pattern that matched nothing, exit status 2
    assert!(unexpected_stderr(
        "error: get_param: param_path 'llite/*/stats': No such file or directory\n"
    )
    .is_empty());
}

#[test]
fn streamed_records_match_whole_buffer_parse_across_kinds() {
    let input = [
        "memused=5\n",
        "llite.fs-ffff94d28d903800.unstable_stats=\n",
        "unstable_check:            1\n",
        "unstable_pages:            0\n",
        "unstable_mb:               0\n",
        "osc.fs-OST0000-osc-ffff949bc0626000.rpc_stats=\n",
        "snapshot_time:            1789952232.703630742 secs.nsecs\n",
        "start_time:               1787864516.502993110 secs.nsecs\n",
        "elapsed_time:             2087716.200637632 secs.nsecs\n",
        "read RPCs in flight:  0\n",
        "write RPCs in flight: 0\n",
        "\n",
        "\t\t\tread\t\t\twrite\n",
        "pages per rpc         rpcs   % cum % |       rpcs   % cum %\n",
        "1:\t\t         0   0   0   |    52489  50  50\n",
        "2:\t\t         4   0   0   |    36540  35  85\n",
        "osc.fs-OST0000-osc-ffff949bc0626000.io_latency_stats=\n",
        "snapshot_time:            1789952232.703630742 secs.nsecs\n",
        "start_time:               1787864516.502993110 secs.nsecs\n",
        "elapsed_time:             2087716.200637632 secs.nsecs\n",
        "\n",
        "                           read      |     write\n",
        "io_time_4K             ios   % cum % |  ios   % cum %\n",
        "512:                     3  75  75   |    2 100 100\n",
        "1024:                    1  25 100   |    0   0 100\n",
        "osc.fs-OST0000-osc-ffff949bc0626000.cur_grant_bytes=8437760\n",
        "osc.fs-OST0000-osc-ffff949bc0626000.state=\n",
        "current_state: FULL\n",
        "state_history:\n",
        "mdc.fs-MDT0000-mdc-ffff94d28d903800.md_stats=\n",
        "snapshot_time             1789952232.646146706 secs.nsecs\n",
        "start_time                1787864516.486398220 secs.nsecs\n",
        "elapsed_time              2087716.159748486 secs.nsecs\n",
        "close                     1024327 samples [reqs]\n",
        "getattr                   4326 samples [reqs]\n",
        "mdt.fs-MDT0000.exports.0@lo.uuid=\n",
        "fs-MDT0000-lwp-MDT0000_UUID\n",
        "mdt.fs-MDT0000.exports.10.0.0.1@tcp.uuid=\n",
        "abc-def_UUID\n",
        "health_check=healthy\n",
    ].concat();

    let expected = parse_lctl_output(input.as_bytes()).unwrap();
    let streamed: Vec<Record> = records(BufReader::new(Cursor::new(input)))
        .into_iter()
        .map(|x| x.unwrap())
        .collect();

    assert_eq!(streamed, expected);
    assert_eq!(streamed.len(), 10, "{streamed:?}");
}

#[test]
fn parse_error_header_of_a_non_utf8_line_is_lossy() {
    let input: &[u8] = b"\xffbad=\nvalue\n";
    let xs = records(BufReader::new(Cursor::new(input)));

    assert_eq!(xs.len(), 1, "{xs:?}");
    match &xs[0] {
        Err(BlockError::Parse { header, .. }) => assert_eq!(header, "\u{FFFD}bad="),
        other => panic!("expected a parse error, got {other:?}"),
    }
}
