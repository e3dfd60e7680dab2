use lustrefs_exporter::client::{ClientLabels, ExtendedClientMetrics};
use lustrefs_exporter::client_target::ClientTargetMetrics;
use lustrefs_exporter::histogram::HistogramEncoding;
use lustrefs_exporter::registration::{cat, osc_state_help, registrations, ClientFamily};
use lustrefs_exporter::types::ControllerVariant;

fn names(
    component: ControllerVariant,
    labels: ClientLabels,
    encoding: HistogramEncoding,
    extended: ExtendedClientMetrics,
) -> Vec<(ClientFamily, String, String)> {
    let m = ClientTargetMetrics::new(component, labels, encoding, extended);
    registrations(&m)
        .into_iter()
        .map(|r| (r.family, r.name, r.help))
        .collect()
}

#[test]
fn each_side_registers_its_own_families() {
    let osc = names(
        ControllerVariant::Osc,
        ClientLabels::PerTarget,
        HistogramEncoding::BucketCounters,
        ExtendedClientMetrics::Off,
    );
    let has = |xs: &[(ClientFamily, String, String)], n: &str| xs.iter().any(|x| x.1 == n);

    assert_eq!(osc[0].1, "lustre_client_osc_stats");
    assert!(has(&osc, "lustre_client_osc_read_bytes"));
    assert!(has(&osc, "lustre_client_osc_cur_grant_bytes"));
    assert!(has(&osc, "lustre_client_osc_rpc_stats_latency"));
    assert!(!has(&osc, "lustre_client_osc_md_stats_requests"));
    assert!(!has(&osc, "lustre_client_osc_rpc_stats_bytes_per_rpc"));

    let mdc = names(
        ControllerVariant::Mdc,
        ClientLabels::PerTarget,
        HistogramEncoding::BucketCounters,
        ExtendedClientMetrics::Off,
    );
    assert_eq!(mdc[0].1, "lustre_client_mdc_md_stats_requests");
    assert!(has(&mdc, "lustre_client_mdc_rpc_stats_modify_rpcs_in_flight"));
    assert!(!has(&mdc, "lustre_client_mdc_read_bytes"));
    assert!(!has(&mdc, "lustre_client_mdc_io_latency"));
    assert_eq!(osc.len(), 29);
    assert_eq!(mdc.len(), 18);
}

#[test]
fn bucketed_families_are_named_by_encoding() {
    let counters = names(
        ControllerVariant::Osc,
        ClientLabels::PerTarget,
        HistogramEncoding::BucketCounters,
        ExtendedClientMetrics::On { page_size: 4096 },
    );
    let latency = counters
        .iter()
        .find(|x| x.0 == ClientFamily::RpcLatency)
        .unwrap();
    assert_eq!(latency.1, "lustre_client_osc_rpc_stats_latency");
    assert_eq!(
        latency.2,
        "Number of RPCs (a count, not a time) by round-trip latency (DDN 2.14 builds, upstream 2.17.51+). 'size' label is the lower edge of the latency bucket in microseconds"
    );
    assert!(counters.iter().any(|x| x.0 == ClientFamily::RpcBytesPerRpc));

    let histograms = names(
        ControllerVariant::Osc,
        ClientLabels::ByFilesystem,
        HistogramEncoding::Histogram,
        ExtendedClientMetrics::Off,
    );
    let latency = histograms
        .iter()
        .find(|x| x.0 == ClientFamily::RpcLatency)
        .unwrap();
    assert_eq!(latency.1, "lustre_client_osc_rpc_stats_latency_microseconds");
    assert_eq!(
        latency.2,
        "Number of RPCs (a count, not a time) by round-trip latency (DDN 2.14 builds, upstream 2.17.51+). Bucket bounds are latency in binary microseconds (1024 ns units), inclusive upper bounds; _sum is count times bucket upper bound, not observed"
    );
    let start = histograms
        .iter()
        .find(|x| x.0 == ClientFamily::StatsStartTime)
        .unwrap();
    assert_eq!(
        start.2,
        "Unix epoch seconds of the earliest stats reset among the filesystem's targets"
    );
}

#[test]
fn osc_state_help_follows_the_labels() {
    assert_eq!(osc_state_help(ClientLabels::PerTarget), "Lustre OSC connection state");
    assert_eq!(
        osc_state_help(ClientLabels::ByFilesystem),
        "Number of OSCs in each connection state, by filesystem"
    );
    assert_eq!(cat("ab".to_string(), "cd"), "abcd");
}
