//! The name and help text each client family is registered under.

use crate::client::{ClientLabels, ExtendedClientMetrics};
use crate::client_target::{ClientTargetMetrics, ClientTargetView};
use crate::histogram::{Bucketed, BucketedView};
use crate::prom_label::LabelProm;
use crate::text::{chars_of, push_char};
use crate::types::ControllerVariant;
use vstd::prelude::*;

verus! {

/// A family of [`ClientTargetMetrics`].
#[derive(Clone, Copy, Debug, PartialEq, Eq, Structural)]
pub enum ClientFamily {
    MdStatsRequests,
    Stats,
    StatsStartTime,
    StatsTimeMin,
    StatsTimeMax,
    StatsTime,
    ReadBytes,
    WriteBytes,
    RpcModifyInFlight,
    RpcReadInFlight,
    RpcWriteInFlight,
    RpcDioInFlight,
    RpcPendingWritePages,
    RpcPendingReadPages,
    RpcModifyRpcsInFlight,
    RpcPagesPerRpc,
    RpcBytesPerRpc,
    RpcRpcsInFlight,
    RpcOffset,
    RpcLatency,
    IoLatency,
    LocklessReadBytes,
    LocklessWriteBytes,
    LocklessTruncates,
    UnstablePages,
    CompressWritePages,
    CompressWriteChunks,
    CompressWriteBytes,
    CompressReadPages,
    CompressReadChunks,
    CompressReadBytes,
    CurGrantBytes,
    CurDirtyBytes,
}

/// A family with the name and help it is registered under.
pub struct Registration {
    pub family: ClientFamily,
    pub name: String,
    pub help: String,
}

/// A registration as its family and the characters of its name and help.
pub open spec fn registration_view(r: Registration) -> (ClientFamily, Seq<char>, Seq<char>) {
    (r.family, r.name@, r.help@)
}

/// `a` followed by `b`.
pub fn cat(a: String, b: &str) -> (r: String)
    ensures
        r@ == a@ + b@,
{
    let cs = chars_of(b);
    let mut r = a;
    let ghost a0 = r@;
    let mut i: usize = 0;
    while i < cs.len()
        invariant
            i <= cs@.len(),
            cs@ == b@,
            r@ == a0 + cs@.take(i as int),
        decreases cs.len() - i,
    {
        push_char(&mut r, cs[i]);
        proof {
            assert(cs@.take(i + 1) =~= cs@.take(i as int).push(cs@[i as int]));
        }
        i += 1;
    }
    proof {
        assert(cs@.take(cs@.len() as int) =~= cs@);
    }
    r
}

/// `lustre_client_<component>_<suffix>`.
pub open spec fn client_name(c: Seq<char>, suffix: Seq<char>) -> Seq<char> {
    "lustre_client_"@ + c + "_"@ + suffix
}

fn client_name_of(c: &str, suffix: &str) -> (r: String)
    ensures
        r@ == client_name(c@, suffix@),
{
    cat(cat(cat("lustre_client_".to_owned(), c), "_"), suffix)
}

/// The help of `lustre_osc_state`: a 0/1 gauge per OSC, or a count of OSCs
/// per filesystem and state.
pub open spec fn osc_state_help_text(labels: ClientLabels) -> Seq<char> {
    match labels {
        ClientLabels::PerTarget => "Lustre OSC connection state"@,
        ClientLabels::ByFilesystem => "Number of OSCs in each connection state, by filesystem"@,
    }
}

pub fn osc_state_help(labels: ClientLabels) -> (r: &'static str)
    ensures
        r@ == osc_state_help_text(labels),
{
    match labels {
        ClientLabels::PerTarget => "Lustre OSC connection state",
        ClientLabels::ByFilesystem => "Number of OSCs in each connection state, by filesystem",
    }
}

/// The help of the start time family: a summed series keeps the earliest start.
pub open spec fn start_time_help_text(labels: ClientLabels) -> Seq<char> {
    match labels {
        ClientLabels::PerTarget => "Unix epoch seconds when the stats were last reset"@,
        ClientLabels::ByFilesystem => "Unix epoch seconds of the earliest stats reset among the filesystem's targets"@,
    }
}

fn start_time_help(labels: ClientLabels) -> (r: &'static str)
    ensures
        r@ == start_time_help_text(labels),
{
    match labels {
        ClientLabels::PerTarget => "Unix epoch seconds when the stats were last reset",
        ClientLabels::ByFilesystem => "Unix epoch seconds of the earliest stats reset among the filesystem's targets",
    }
}

/// How a bucketed family is registered: as counters, which count events and
/// keep the unit in their `size` label; or as histograms, which observe the
/// value and so are named `<name>_<unit>`.
pub open spec fn bucketed_entry(
    family: ClientFamily,
    v: BucketedView,
    name: Seq<char>,
    unit: Option<Seq<char>>,
    help: Seq<char>,
    size: Seq<char>,
    bounds: Seq<char>,
) -> (ClientFamily, Seq<char>, Seq<char>) {
    match v {
        BucketedView::Counters(_) => (family, name, help + ". 'size' label is "@ + size),
        BucketedView::Histograms(_) => (
            family,
            match unit {
                Some(u) => name + "_"@ + u,
                None => name,
            },
            help + ". Bucket bounds are "@ + bounds + "; _sum is count times bucket upper bound, not observed"@,
        ),
    }
}

fn bucketed_registration(
    family: ClientFamily,
    b: &Bucketed,
    name: String,
    unit: Option<&str>,
    help: &str,
    size: &str,
    bounds: &str,
) -> (r: Registration)
    ensures
        registration_view(r) == bucketed_entry(
            family,
            b.view(),
            name@,
            match unit {
                Some(u) => Some(u@),
                None => None,
            },
            help@,
            size@,
            bounds@,
        ),
{
    match b {
        Bucketed::Counters(_) => Registration {
            family,
            name,
            help: cat(cat(help.to_owned(), ". 'size' label is "), size),
        },
        Bucketed::Histograms(_) => Registration {
            family,
            name: match unit {
                Some(u) => cat(cat(name, "_"), u),
                None => name,
            },
            help: cat(
                cat(cat(help.to_owned(), ". Bucket bounds are "), bounds),
                "; _sum is count times bucket upper bound, not observed",
            ),
        },
    }
}

/// Every family of a side, whether it is registered, and how.
pub open spec fn client_entries(v: ClientTargetView) -> Seq<(bool, (ClientFamily, Seq<char>, Seq<char>))> {
    let c = v.component.spec_prom_label();
    seq![
        (v.component == ControllerVariant::Mdc, (ClientFamily::MdStatsRequests, client_name(c, "md_stats_requests"@), "Total number of metadata requests, by operation"@)),
        (true, (ClientFamily::Stats, client_name(c, "stats"@), "Number of RPCs the client has sent to the target, by operation"@)),
        (true, (ClientFamily::StatsStartTime, client_name(c, "stats_start_time"@), start_time_help_text(v.labels))),
        (true, (ClientFamily::StatsTimeMin, client_name(c, "stats_time_microseconds_min"@), "Minimum time taken for an operation, by operation, in microseconds"@)),
        (true, (ClientFamily::StatsTimeMax, client_name(c, "stats_time_microseconds_max"@), "Maximum time taken for an operation, by operation, in microseconds"@)),
        (true, (ClientFamily::StatsTime, client_name(c, "stats_time_microseconds"@), "Total time taken by operations, by operation, in microseconds"@)),
        (v.component == ControllerVariant::Osc, (ClientFamily::ReadBytes, client_name(c, "read_bytes"@), "Total bytes read by the client via OSC"@)),
        (v.component == ControllerVariant::Osc, (ClientFamily::WriteBytes, client_name(c, "write_bytes"@), "Total bytes written by the client via OSC"@)),
        (v.component == ControllerVariant::Mdc, (ClientFamily::RpcModifyInFlight, client_name(c, "rpc_stats_modify_in_flight"@), "Number of modify RPCs in flight"@)),
        (true, (ClientFamily::RpcReadInFlight, client_name(c, "rpc_stats_read_in_flight"@), "Number of read RPCs in flight"@)),
        (true, (ClientFamily::RpcWriteInFlight, client_name(c, "rpc_stats_write_in_flight"@), "Number of write RPCs in flight"@)),
        (v.component == ControllerVariant::Osc, (ClientFamily::RpcDioInFlight, client_name(c, "rpc_stats_dio_in_flight"@), "Number of direct I/O RPCs in flight (DDN 2.14 builds, upstream 2.17.51+)"@)),
        (true, (ClientFamily::RpcPendingWritePages, client_name(c, "rpc_stats_pending_write_pages"@), "Number of pages waiting to be written"@)),
        (true, (ClientFamily::RpcPendingReadPages, client_name(c, "rpc_stats_pending_read_pages"@), "Number of pages waiting to be read"@)),
        (v.component == ControllerVariant::Mdc, bucketed_entry(ClientFamily::RpcModifyRpcsInFlight, v.rpc_modify_rpcs_in_flight, client_name(c, "rpc_stats_modify_rpcs_in_flight"@), None, "Number of modify RPCs by modify RPCs in flight when issued"@, "the number in flight"@, "modify RPCs in flight, exact values"@)),
        (true, bucketed_entry(ClientFamily::RpcPagesPerRpc, v.rpc_pages_per_rpc, client_name(c, "rpc_stats_pages_per_rpc"@), None, "Number of RPCs by pages per RPC"@, "the inclusive upper edge of the pages-per-RPC bucket"@, "pages per RPC, inclusive upper bounds"@)),
        (v.extended != ExtendedClientMetrics::Off, bucketed_entry(ClientFamily::RpcBytesPerRpc, v.rpc_bytes_per_rpc, client_name(c, "rpc_stats_bytes_per_rpc"@), None, "Number of RPCs by bytes per RPC: pages per RPC times this kernel's page size"@, "the inclusive upper edge of the bucket in bytes"@, "bytes per RPC, inclusive upper bounds"@)),
        (true, bucketed_entry(ClientFamily::RpcRpcsInFlight, v.rpc_rpcs_in_flight, client_name(c, "rpc_stats_rpcs_in_flight"@), None, "Number of RPCs by RPCs in flight when issued"@, "the number of RPCs in flight"@, "RPCs in flight, exact values"@)),
        (true, bucketed_entry(ClientFamily::RpcOffset, v.rpc_offset, client_name(c, "rpc_stats_offset"@), None, "Number of RPCs by starting file offset"@, "the kernel's log2 bucket key, the lower edge of the bucket in pages"@, "starting offset in pages, inclusive upper bounds"@)),
        (v.component == ControllerVariant::Osc, bucketed_entry(ClientFamily::RpcLatency, v.rpc_latency, client_name(c, "rpc_stats_latency"@), Some("microseconds"@), "Number of RPCs (a count, not a time) by round-trip latency (DDN 2.14 builds, upstream 2.17.51+)"@, "the lower edge of the latency bucket in microseconds"@, "latency in binary microseconds (1024 ns units), inclusive upper bounds"@)),
        (v.component == ControllerVariant::Osc, bucketed_entry(ClientFamily::IoLatency, v.io_latency, client_name(c, "io_latency"@), Some("microseconds"@), "Number of I/Os (a count, not a time) by latency and I/O size (DDN 2.14 builds, upstream 2.17.51+)"@, "the lower edge of the latency bucket in microseconds, 'opsize' the lower bound of the I/O size bucket"@, "latency in binary microseconds (1024 ns units), inclusive upper bounds; 'opsize' is the lower bound of the I/O size bucket"@)),
        (true, (ClientFamily::LocklessReadBytes, client_name(c, "lockless_read_bytes"@), "Total lockless read bytes"@)),
        (true, (ClientFamily::LocklessWriteBytes, client_name(c, "lockless_write_bytes"@), "Total lockless write bytes"@)),
        (true, (ClientFamily::LocklessTruncates, client_name(c, "lockless_truncates"@), "Total lockless truncates (printed by Lustre 2.12 to 2.14.52 only)"@)),
        (v.component == ControllerVariant::Osc, (ClientFamily::UnstablePages, client_name(c, "unstable_pages"@), "Number of unstable pages"@)),
        (v.component == ControllerVariant::Osc, (ClientFamily::CompressWritePages, client_name(c, "compress_write_pages"@), "RPC compression write page counters (DDN builds). 'type' label is the key suffix as the kernel prints it"@)),
        (v.component == ControllerVariant::Osc, (ClientFamily::CompressWriteChunks, client_name(c, "compress_write_chunks"@), "RPC compression write chunk counters (DDN builds). 'type' label is the key suffix as the kernel prints it"@)),
        (v.component == ControllerVariant::Osc, (ClientFamily::CompressWriteBytes, client_name(c, "compress_write_bytes"@), "RPC compression write byte counters (DDN builds). 'type' label is the key suffix as the kernel prints it"@)),
        (v.component == ControllerVariant::Osc, (ClientFamily::CompressReadPages, client_name(c, "compress_read_pages"@), "RPC compression read page counters (DDN builds). 'type' label is the key suffix as the kernel prints it"@)),
        (v.component == ControllerVariant::Osc, (ClientFamily::CompressReadChunks, client_name(c, "compress_read_chunks"@), "RPC compression read chunk counters (DDN builds). 'type' label is the key suffix as the kernel prints it"@)),
        (v.component == ControllerVariant::Osc, (ClientFamily::CompressReadBytes, client_name(c, "compress_read_bytes"@), "RPC compression read byte counters (DDN builds). 'type' label is the key suffix as the kernel prints it"@)),
        (v.component == ControllerVariant::Osc, (ClientFamily::CurGrantBytes, client_name(c, "cur_grant_bytes"@), "Bytes of write grant the client currently holds from the OST"@)),
        (v.component == ControllerVariant::Osc, (ClientFamily::CurDirtyBytes, client_name(c, "cur_dirty_bytes"@), "Bytes of dirty data the client currently caches for the OST"@)),
    ]
}

/// The registered entries of a list, in order.
pub open spec fn kept(es: Seq<(bool, (ClientFamily, Seq<char>, Seq<char>))>) -> Seq<(ClientFamily, Seq<char>, Seq<char>)>
    decreases es.len(),
{
    if es.len() == 0 {
        Seq::empty()
    } else if es.last().0 {
        kept(es.drop_last()).push(es.last().1)
    } else {
        kept(es.drop_last())
    }
}

/// The families of a side to register, with their names and help, in the
/// order they are registered: the osc-only and mdc-only families only for
/// their side, bytes per RPC only when it is counted.
pub open spec fn spec_registrations(v: ClientTargetView) -> Seq<(ClientFamily, Seq<char>, Seq<char>)> {
    kept(client_entries(v))
}

/// The families of a side to register, with their names and help.
#[verifier::rlimit(60)]
pub fn registrations(m: &ClientTargetMetrics) -> (r: Vec<Registration>)
    ensures
        r@.map_values(|x: Registration| registration_view(x)) == spec_registrations(m.view()),
{
    let c = m.component.to_prom_label();
    let osc = m.component == ControllerVariant::Osc;
    let mdc = m.component == ControllerVariant::Mdc;
    let extended = m.extended != ExtendedClientMetrics::Off;
    let n0 = client_name_of(c, "md_stats_requests");
    let n1 = client_name_of(c, "stats");
    let n2 = client_name_of(c, "stats_start_time");
    let n3 = client_name_of(c, "stats_time_microseconds_min");
    let n4 = client_name_of(c, "stats_time_microseconds_max");
    let n5 = client_name_of(c, "stats_time_microseconds");
    let n6 = client_name_of(c, "read_bytes");
    let n7 = client_name_of(c, "write_bytes");
    let n8 = client_name_of(c, "rpc_stats_modify_in_flight");
    let n9 = client_name_of(c, "rpc_stats_read_in_flight");
    let n10 = client_name_of(c, "rpc_stats_write_in_flight");
    let n11 = client_name_of(c, "rpc_stats_dio_in_flight");
    let n12 = client_name_of(c, "rpc_stats_pending_write_pages");
    let n13 = client_name_of(c, "rpc_stats_pending_read_pages");
    let r14 = bucketed_registration(ClientFamily::RpcModifyRpcsInFlight, &m.rpc_modify_rpcs_in_flight_total, client_name_of(c, "rpc_stats_modify_rpcs_in_flight"), None, "Number of modify RPCs by modify RPCs in flight when issued", "the number in flight", "modify RPCs in flight, exact values");
    let r15 = bucketed_registration(ClientFamily::RpcPagesPerRpc, &m.rpc_pages_per_rpc_total, client_name_of(c, "rpc_stats_pages_per_rpc"), None, "Number of RPCs by pages per RPC", "the inclusive upper edge of the pages-per-RPC bucket", "pages per RPC, inclusive upper bounds");
    let r16 = bucketed_registration(ClientFamily::RpcBytesPerRpc, &m.rpc_bytes_per_rpc_total, client_name_of(c, "rpc_stats_bytes_per_rpc"), None, "Number of RPCs by bytes per RPC: pages per RPC times this kernel's page size", "the inclusive upper edge of the bucket in bytes", "bytes per RPC, inclusive upper bounds");
    let r17 = bucketed_registration(ClientFamily::RpcRpcsInFlight, &m.rpc_rpcs_in_flight_total, client_name_of(c, "rpc_stats_rpcs_in_flight"), None, "Number of RPCs by RPCs in flight when issued", "the number of RPCs in flight", "RPCs in flight, exact values");
    let r18 = bucketed_registration(ClientFamily::RpcOffset, &m.rpc_offset_total, client_name_of(c, "rpc_stats_offset"), None, "Number of RPCs by starting file offset", "the kernel's log2 bucket key, the lower edge of the bucket in pages", "starting offset in pages, inclusive upper bounds");
    let r19 = bucketed_registration(ClientFamily::RpcLatency, &m.rpc_latency_total, client_name_of(c, "rpc_stats_latency"), Some("microseconds"), "Number of RPCs (a count, not a time) by round-trip latency (DDN 2.14 builds, upstream 2.17.51+)", "the lower edge of the latency bucket in microseconds", "latency in binary microseconds (1024 ns units), inclusive upper bounds");
    let r20 = bucketed_registration(ClientFamily::IoLatency, &m.io_latency_total, client_name_of(c, "io_latency"), Some("microseconds"), "Number of I/Os (a count, not a time) by latency and I/O size (DDN 2.14 builds, upstream 2.17.51+)", "the lower edge of the latency bucket in microseconds, 'opsize' the lower bound of the I/O size bucket", "latency in binary microseconds (1024 ns units), inclusive upper bounds; 'opsize' is the lower bound of the I/O size bucket");
    let n21 = client_name_of(c, "lockless_read_bytes");
    let n22 = client_name_of(c, "lockless_write_bytes");
    let n23 = client_name_of(c, "lockless_truncates");
    let n24 = client_name_of(c, "unstable_pages");
    let n25 = client_name_of(c, "compress_write_pages");
    let n26 = client_name_of(c, "compress_write_chunks");
    let n27 = client_name_of(c, "compress_write_bytes");
    let n28 = client_name_of(c, "compress_read_pages");
    let n29 = client_name_of(c, "compress_read_chunks");
    let n30 = client_name_of(c, "compress_read_bytes");
    let n31 = client_name_of(c, "cur_grant_bytes");
    let n32 = client_name_of(c, "cur_dirty_bytes");
    let all: Vec<(bool, Registration)> = vec![
        (mdc, Registration { family: ClientFamily::MdStatsRequests, name: n0, help: "Total number of metadata requests, by operation".to_owned() }),
        (true, Registration { family: ClientFamily::Stats, name: n1, help: "Number of RPCs the client has sent to the target, by operation".to_owned() }),
        (true, Registration { family: ClientFamily::StatsStartTime, name: n2, help: start_time_help(m.labels).to_owned() }),
        (true, Registration { family: ClientFamily::StatsTimeMin, name: n3, help: "Minimum time taken for an operation, by operation, in microseconds".to_owned() }),
        (true, Registration { family: ClientFamily::StatsTimeMax, name: n4, help: "Maximum time taken for an operation, by operation, in microseconds".to_owned() }),
        (true, Registration { family: ClientFamily::StatsTime, name: n5, help: "Total time taken by operations, by operation, in microseconds".to_owned() }),
        (osc, Registration { family: ClientFamily::ReadBytes, name: n6, help: "Total bytes read by the client via OSC".to_owned() }),
        (osc, Registration { family: ClientFamily::WriteBytes, name: n7, help: "Total bytes written by the client via OSC".to_owned() }),
        (mdc, Registration { family: ClientFamily::RpcModifyInFlight, name: n8, help: "Number of modify RPCs in flight".to_owned() }),
        (true, Registration { family: ClientFamily::RpcReadInFlight, name: n9, help: "Number of read RPCs in flight".to_owned() }),
        (true, Registration { family: ClientFamily::RpcWriteInFlight, name: n10, help: "Number of write RPCs in flight".to_owned() }),
        (osc, Registration { family: ClientFamily::RpcDioInFlight, name: n11, help: "Number of direct I/O RPCs in flight (DDN 2.14 builds, upstream 2.17.51+)".to_owned() }),
        (true, Registration { family: ClientFamily::RpcPendingWritePages, name: n12, help: "Number of pages waiting to be written".to_owned() }),
        (true, Registration { family: ClientFamily::RpcPendingReadPages, name: n13, help: "Number of pages waiting to be read".to_owned() }),
        (mdc, r14),
        (true, r15),
        (extended, r16),
        (true, r17),
        (true, r18),
        (osc, r19),
        (osc, r20),
        (true, Registration { family: ClientFamily::LocklessReadBytes, name: n21, help: "Total lockless read bytes".to_owned() }),
        (true, Registration { family: ClientFamily::LocklessWriteBytes, name: n22, help: "Total lockless write bytes".to_owned() }),
        (true, Registration { family: ClientFamily::LocklessTruncates, name: n23, help: "Total lockless truncates (printed by Lustre 2.12 to 2.14.52 only)".to_owned() }),
        (osc, Registration { family: ClientFamily::UnstablePages, name: n24, help: "Number of unstable pages".to_owned() }),
        (osc, Registration { family: ClientFamily::CompressWritePages, name: n25, help: "RPC compression write page counters (DDN builds). 'type' label is the key suffix as the kernel prints it".to_owned() }),
        (osc, Registration { family: ClientFamily::CompressWriteChunks, name: n26, help: "RPC compression write chunk counters (DDN builds). 'type' label is the key suffix as the kernel prints it".to_owned() }),
        (osc, Registration { family: ClientFamily::CompressWriteBytes, name: n27, help: "RPC compression write byte counters (DDN builds). 'type' label is the key suffix as the kernel prints it".to_owned() }),
        (osc, Registration { family: ClientFamily::CompressReadPages, name: n28, help: "RPC compression read page counters (DDN builds). 'type' label is the key suffix as the kernel prints it".to_owned() }),
        (osc, Registration { family: ClientFamily::CompressReadChunks, name: n29, help: "RPC compression read chunk counters (DDN builds). 'type' label is the key suffix as the kernel prints it".to_owned() }),
        (osc, Registration { family: ClientFamily::CompressReadBytes, name: n30, help: "RPC compression read byte counters (DDN builds). 'type' label is the key suffix as the kernel prints it".to_owned() }),
        (osc, Registration { family: ClientFamily::CurGrantBytes, name: n31, help: "Bytes of write grant the client currently holds from the OST".to_owned() }),
        (osc, Registration { family: ClientFamily::CurDirtyBytes, name: n32, help: "Bytes of dirty data the client currently caches for the OST".to_owned() }),
    ];
    let ghost want = client_entries(m.view());
    proof {
        assert(all@.map_values(|x: (bool, Registration)| (x.0, registration_view(x.1))) =~= want);
    }
    keep(all)
}

/// The registered entries, in order.
fn keep(all: Vec<(bool, Registration)>) -> (r: Vec<Registration>)
    ensures
        r@.map_values(|x: Registration| registration_view(x)) == kept(
            all@.map_values(|x: (bool, Registration)| (x.0, registration_view(x.1))),
        ),
{
    let ghost es = all@.map_values(|x: (bool, Registration)| (x.0, registration_view(x.1)));
    let ghost xs = all@;
    let mut r: Vec<Registration> = Vec::new();
    let mut k: usize = 0;
    for x in it: all.into_iter()
        invariant
            it.seq() == xs,
            es == xs.map_values(|x: (bool, Registration)| (x.0, registration_view(x.1))),
            r@.map_values(|x: Registration| registration_view(x)) == kept(es.take(it.index() as int)),
    {
        let ghost i = it.index() as int;
        proof {
            assert(es.take(i + 1).drop_last() =~= es.take(i));
            assert(es.take(i + 1).last() == es[i]);
        }
        let (registered, reg) = x;
        if registered {
            let ghost before = r@;
            r.push(reg);
            proof {
                assert(r@.map_values(|x: Registration| registration_view(x)) =~= before.map_values(
                    |x: Registration| registration_view(x),
                ).push(registration_view(reg)));
            }
        }
    }
    proof {
        assert(es.take(es.len() as int) =~= es);
    }
    r
}

} // verus!
