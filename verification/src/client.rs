//! Client series carry `fs` next to `target`: a client has one osc/mdc per
//! server target of every filesystem it mounts. [`ClientLabels::ByFilesystem`]
//! drops `target` and sums the series per filesystem.

use crate::family::{
    CounterFamily, GaugeFamily, LabelsView, added, counter_values, gauge_values, get_gauge,
    inc_counter, set_gauge, wrapping_add,
};
use crate::text::{chars_of, digits, spec_decimal, spec_digits, u64_to_string};
use crate::types::StatsHeader;
use vstd::prelude::*;
use vstd::utf8::*;
use vstd::string::*;

verus! {

broadcast use {
    vstd::utf8::encode_utf8_valid_utf8,
    vstd::utf8::encode_utf8_decode_utf8,
    vstd::utf8::is_char_boundary_iff_not_is_continuation_byte,
};

/// Label set of one series: label names and values, in order.
pub type LabelContainer = Vec<(&'static str, String)>;

/// `LUSTRE_MAXFSNAME`: the longest filesystem name the kernel accepts.
pub const LUSTRE_MAXFSNAME: usize = 8;

pub open spec fn is_fs_separator(b: u8) -> bool {
    b == 0x2d || b == 0x3a
}

/// The cut point: the largest `i` in `1..=from` with `i < bytes.len()` and
/// `bytes[i]` a `-` or `:`, or 0 when there is none.
pub open spec fn fs_cut_from(bytes: Seq<u8>, from: int) -> int
    decreases from,
{
    if from <= 0 {
        0
    } else if from < bytes.len() && is_fs_separator(bytes[from]) {
        from
    } else {
        fs_cut_from(bytes, from - 1)
    }
}

pub open spec fn fs_cut(bytes: Seq<u8>) -> int {
    fs_cut_from(bytes, if bytes.len() < LUSTRE_MAXFSNAME { bytes.len() as int } else { LUSTRE_MAXFSNAME as int })
}

/// The bytes of the filesystem name of a target name.
pub open spec fn spec_fs_name_bytes(bytes: Seq<u8>) -> Seq<u8> {
    let i = fs_cut(bytes);
    if i == 0 { bytes } else { bytes.take(i) }
}

/// The filesystem name of a target, as characters.
pub open spec fn spec_fs_name(target: Seq<char>) -> Seq<char> {
    decode_utf8(spec_fs_name_bytes(encode_utf8(target)))
}

proof fn lemma_fs_cut_from_bounds(bytes: Seq<u8>, from: int)
    ensures
        0 <= fs_cut_from(bytes, from),
        fs_cut_from(bytes, from) <= if from < 0 { 0 } else { from },
        fs_cut_from(bytes, from) > 0 ==> fs_cut_from(bytes, from) < bytes.len()
            && is_fs_separator(bytes[fs_cut_from(bytes, from)]),
        forall|j: int| fs_cut_from(bytes, from) < j <= from && j < bytes.len() ==> !is_fs_separator(#[trigger] bytes[j]),
    decreases from,
{
    if from > 0 {
        lemma_fs_cut_from_bounds(bytes, from - 1);
    }
}

/// `server_name2fsname()`: the part before the last `-` or `:` within the
/// first `LUSTRE_MAXFSNAME + 1` characters, so a hyphenated name stays whole.
pub fn fs_name(target: &str) -> (res: &str)
    ensures
        res.spec_bytes() == spec_fs_name_bytes(target.spec_bytes()),
        res@ == spec_fs_name(target@),
{
    let bytes = target.as_bytes();
    let n = bytes.len();
    let mut i: usize = if n < LUSTRE_MAXFSNAME { n } else { LUSTRE_MAXFSNAME };
    let ghost b = bytes@;

    while i > 0 && !(i < n && (bytes[i] == 0x2d || bytes[i] == 0x3a))
        invariant
            b == bytes@,
            n == b.len(),
            i <= n,
            fs_cut(b) == fs_cut_from(b, i as int),
        decreases i,
    {
        i -= 1;
    }
    proof {
        lemma_fs_cut_from_bounds(b, i as int);
    }
    if i == 0 {
        target
    } else {
        proof {
            assert(valid_utf8(b));
            assert(!is_continuation_byte(b[i as int]));
            assert(is_char_boundary(b, i as int));
        }
        let (head, _tail) = target.split_at(i);
        proof {
            assert(head.spec_bytes() =~= b.take(i as int));
            assert(head@ == decode_utf8(head.spec_bytes()));
        }
        head
    }
}

/// How client series are labelled.
#[derive(Clone, Copy, Debug, PartialEq, Eq, Structural)]
pub enum ClientLabels {
    /// One series per target, labelled `fs` and `target`.
    PerTarget,
    /// One series per filesystem, labelled `fs`, summed over its targets.
    ByFilesystem,
}

impl Default for ClientLabels {
    fn default() -> (r: Self)
        ensures
            r == ClientLabels::PerTarget,
    {
        ClientLabels::PerTarget
    }
}

/// A label set as characters: `(name, value)` pairs, in order.
pub open spec fn labels_view(xs: Seq<(&'static str, String)>) -> Seq<(Seq<char>, Seq<char>)> {
    xs.map_values(|x: (&'static str, String)| (x.0@, x.1@))
}

/// The labels of a client series of `target`.
pub open spec fn spec_client_labels(mode: ClientLabels, target: Seq<char>) -> Seq<(Seq<char>, Seq<char>)> {
    let fs = seq![("fs"@, spec_fs_name(target))];
    match mode {
        ClientLabels::PerTarget => fs.push(("target"@, target)),
        ClientLabels::ByFilesystem => fs,
    }
}

impl ClientLabels {
    pub fn labels(self, target: &str) -> (xs: LabelContainer)
        ensures
            labels_view(xs@) == spec_client_labels(self, target@),
    {
        let mut xs: LabelContainer = Vec::new();
        xs.push(("fs", fs_name(target).to_owned()));

        if self == ClientLabels::PerTarget {
            xs.push(("target", target.to_owned()));
        }
        proof {
            assert(labels_view(xs@) =~= spec_client_labels(self, target@));
        }
        xs
    }
}

/// The labels of a client series of `target`, one series per target.
pub fn labels(target: &str) -> (xs: LabelContainer)
    ensures
        labels_view(xs@) == spec_client_labels(ClientLabels::PerTarget, target@),
{
    ClientLabels::PerTarget.labels(target)
}

/// `labels` with `(name, value)` appended.
pub fn with(labels: &LabelContainer, name: &'static str, value: String) -> (xs: LabelContainer)
    ensures
        xs@ == labels@.push((name, value)),
        labels_view(xs@) == labels_view(labels@).push((name@, value@)),
{
    let mut xs: LabelContainer = Vec::new();
    let mut i: usize = 0;
    while i < labels.len()
        invariant
            i <= labels.len(),
            xs@ == labels@.take(i as int),
        decreases labels.len() - i,
    {
        let (k, v) = &labels[i];
        xs.push((*k, v.clone()));
        proof {
            assert(labels@.take(i + 1) =~= labels@.take(i as int).push(labels@[i as int]));
        }
        i += 1;
    }
    proof {
        assert(labels@.take(labels.len() as int) =~= labels@);
    }
    xs.push((name, value));
    proof {
        assert(labels_view(xs@) =~= labels_view(labels@).push((name@, value@)));
    }
    xs
}

/// Whether the client families also get the ones derived from the
/// kernel's page size.
#[derive(Clone, Copy, Debug, PartialEq, Eq, Structural)]
pub enum ExtendedClientMetrics {
    Off,
    /// Pages per RPC are also counted in bytes, `page_size` bytes a page.
    On { page_size: u64 },
}

impl Default for ExtendedClientMetrics {
    fn default() -> (r: Self)
        ensures
            r == ExtendedClientMetrics::Off,
    {
        ExtendedClientMetrics::Off
    }
}

/// `m` with `v` merged into the gauge under `k`: the smaller (`keep_min`)
/// or the larger of the two, or `v` when there was none.
pub open spec fn merged(m: Map<LabelsView, u64>, k: LabelsView, v: u64, keep_min: bool) -> Map<
    LabelsView,
    u64,
> {
    m.insert(
        k,
        if !m.contains_key(k) {
            v
        } else if keep_min {
            if m[k] <= v { m[k] } else { v }
        } else {
            if m[k] >= v { m[k] } else { v }
        },
    )
}

fn merge(family: &mut GaugeFamily, labels: &LabelContainer, value: u64, keep_min: bool)
    ensures
        gauge_values(*final(family)) == merged(
            gauge_values(*old(family)),
            labels_view(labels@),
            value,
            keep_min,
        ),
{
    match get_gauge(family, labels) {
        Some(current) => {
            let picked = if keep_min {
                if current <= value { current } else { value }
            } else {
                if current >= value { current } else { value }
            };
            set_gauge(family, labels, picked);
        },
        None => set_gauge(family, labels, value),
    }
}

/// The smallest value the series has been given in this scrape.
pub fn merge_min(family: &mut GaugeFamily, labels: &LabelContainer, value: u64)
    ensures
        gauge_values(*final(family)) == merged(
            gauge_values(*old(family)),
            labels_view(labels@),
            value,
            true,
        ),
{
    merge(family, labels, value, true);
}

/// The largest value the series has been given in this scrape.
pub fn merge_max(family: &mut GaugeFamily, labels: &LabelContainer, value: u64)
    ensures
        gauge_values(*final(family)) == merged(
            gauge_values(*old(family)),
            labels_view(labels@),
            value,
            false,
        ),
{
    merge(family, labels, value, false);
}

/// The values merged one after the other into the gauge under `k`.
pub open spec fn merged_all(m: Map<LabelsView, u64>, k: LabelsView, vs: Seq<u64>, keep_min: bool) -> Map<
    LabelsView,
    u64,
>
    decreases vs.len(),
{
    if vs.len() == 0 {
        m
    } else {
        merged(merged_all(m, k, vs.drop_last(), keep_min), k, vs.last(), keep_min)
    }
}

/// A merged gauge keeps the extreme of what it was given: after values are
/// merged into a series that had none, it holds one of them, and none of
/// them is smaller (for `merge_min`) or larger (for `merge_max`).
pub proof fn merged_gauges_keep_the_extremes(
    m: Map<LabelsView, u64>,
    k: LabelsView,
    vs: Seq<u64>,
    keep_min: bool,
)
    requires
        !m.contains_key(k),
        vs.len() > 0,
    ensures
        merged_all(m, k, vs, keep_min).contains_key(k),
        exists|i: int| 0 <= i < vs.len() && merged_all(m, k, vs, keep_min)[k] == vs[i],
        forall|i: int|
            0 <= i < vs.len() ==> if keep_min {
                merged_all(m, k, vs, keep_min)[k] <= vs[i]
            } else {
                merged_all(m, k, vs, keep_min)[k] >= vs[i]
            },
    decreases vs.len(),
{
    let r = merged_all(m, k, vs, keep_min);
    if vs.len() == 1 {
        assert(vs.drop_last().len() == 0);
        assert(merged_all(m, k, vs.drop_last(), keep_min) == m);
        assert(r[k] == vs[0]);
    } else {
        let p = vs.drop_last();
        merged_gauges_keep_the_extremes(m, k, p, keep_min);
        let w = choose|i: int| 0 <= i < p.len() && merged_all(m, k, p, keep_min)[k] == p[i];
        assert forall|i: int| 0 <= i < vs.len() implies if keep_min {
            r[k] <= vs[i]
        } else {
            r[k] >= vs[i]
        } by {
            if i < vs.len() - 1 {
                assert(vs[i] == p[i]);
            }
        }
        if r[k] == vs.last() {
            assert(r[k] == vs[vs.len() - 1]);
        } else {
            assert(r[k] == vs[w]);
        }
    }
}

/// The whole seconds of a `<secs>.<nsecs>` time: the digits before the point.
pub open spec fn spec_start_seconds(s: Seq<char>) -> Option<u64> {
    match spec_digits(s, 0) {
        Some((v, j)) => if j == s.len() || s[j] == '.' {
            Some(v)
        } else {
            None
        },
        None => None,
    }
}

/// The whole seconds of a `<secs>.<nsecs>` time, if it is one.
pub fn start_seconds(s: &str) -> (r: Option<u64>)
    ensures
        r == spec_start_seconds(s@),
{
    let cs = chars_of(s);
    match digits(cs.as_slice(), 0) {
        Some((v, j)) => if j == cs.len() || cs[j] == '.' {
            Some(v)
        } else {
            None
        },
        None => None,
    }
}

/// The gauges after a block's start time was merged into the series of
/// `labels`: the earliest start is kept.
pub open spec fn with_start_time(m: Map<LabelsView, u64>, k: LabelsView, header: crate::types::StatsHeaderView) -> Map<LabelsView, u64> {
    match header.start_time {
        Some(t) => match spec_start_seconds(t) {
            Some(secs) => merged(m, k, secs, true),
            None => m,
        },
        None => m,
    }
}

/// One gauge per block, not per counter; a summed series keeps the
/// earliest start.
pub fn set_start_time(family: &mut GaugeFamily, labels: &LabelContainer, header: &StatsHeader)
    ensures
        gauge_values(*final(family)) == with_start_time(
            gauge_values(*old(family)),
            labels_view(labels@),
            header.deep_view(),
        ),
{
    match &header.start_time {
        Some(t) => match start_seconds(t.as_str()) {
            Some(start) => merge_min(family, labels, start),
            None => {},
        },
        None => {},
    }
}

/// The series of one bucket and direction: `labels` with `operation` and `size`.
pub open spec fn rw_labels(l: LabelsView, operation: Seq<char>, size: u64) -> LabelsView {
    l.push(("operation"@, operation)).push(("size"@, spec_decimal(size as nat)))
}

/// The counters after one `(size, read, write)` bucket was counted.
pub open spec fn observed_rw_bucket(m: Map<LabelsView, u64>, l: LabelsView, b: (u64, u64, u64)) -> Map<LabelsView, u64> {
    added(added(m, rw_labels(l, "read"@, b.0), b.1), rw_labels(l, "write"@, b.0), b.2)
}

/// The counters after the buckets were counted, one after the other.
pub open spec fn observed_rw(m: Map<LabelsView, u64>, l: LabelsView, bs: Seq<(u64, u64, u64)>) -> Map<
    LabelsView,
    u64,
>
    decreases bs.len(),
{
    if bs.len() == 0 {
        m
    } else {
        observed_rw_bucket(observed_rw(m, l, bs.drop_last()), l, bs.last())
    }
}

/// One counter per bucket and direction, as `lustre_disk_io_total` renders
/// `brw_stats`; each item is `(size, read, write)`.
pub fn observe_rw(family: &mut CounterFamily, labels: &LabelContainer, buckets: &[(u64, u64, u64)])
    ensures
        counter_values(*final(family)) == observed_rw(
            counter_values(*old(family)),
            labels_view(labels@),
            buckets@,
        ),
{
    let ghost l = labels_view(labels@);
    let mut i: usize = 0;
    while i < buckets.len()
        invariant
            i <= buckets@.len(),
            l == labels_view(labels@),
            counter_values(*family) == observed_rw(counter_values(*old(family)), l, buckets@.take(i as int)),
        decreases buckets.len() - i,
    {
        let (size, read, write) = buckets[i];
        let size_text = u64_to_string(size);
        let mut xs = with(labels, "operation", "read".to_owned());
        xs.push(("size", size_text.clone()));
        inc_counter(family, &xs, read);
        let mut ys = with(labels, "operation", "write".to_owned());
        ys.push(("size", size_text));
        inc_counter(family, &ys, write);
        proof {
            assert(labels_view(xs@) =~= rw_labels(l, "read"@, size));
            assert(labels_view(ys@) =~= rw_labels(l, "write"@, size));
            assert(buckets@.take(i + 1).drop_last() =~= buckets@.take(i as int));
        }
        i += 1;
    }
    proof {
        assert(buckets@.take(buckets@.len() as int) =~= buckets@);
    }
}

/// `n` modulo 2^64, as a counter that wraps holds it.
pub open spec fn wrapped(n: int) -> u64 {
    (n % 0x1_0000_0000_0000_0000) as u64
}

/// The counters after the value of each `(target, value)` event was added to
/// the series of its target under `mode`.
pub open spec fn events_counted(mode: ClientLabels, es: Seq<(Seq<char>, u64)>) -> Map<LabelsView, u64>
    decreases es.len(),
{
    if es.len() == 0 {
        Map::empty()
    } else {
        added(events_counted(mode, es.drop_last()), spec_client_labels(mode, es.last().0), es.last().1)
    }
}

/// The sum of the values of the events whose target belongs to filesystem `fs`.
pub open spec fn fs_total(es: Seq<(Seq<char>, u64)>, fs: Seq<char>) -> nat
    decreases es.len(),
{
    if es.len() == 0 {
        0
    } else {
        fs_total(es.drop_last(), fs) + if spec_fs_name(es.last().0) == fs {
            es.last().1 as nat
        } else {
            0nat
        }
    }
}

/// The sum of the values of the events of target `t`.
pub open spec fn target_total(es: Seq<(Seq<char>, u64)>, t: Seq<char>) -> nat
    decreases es.len(),
{
    if es.len() == 0 {
        0
    } else {
        target_total(es.drop_last(), t) + if es.last().0 == t {
            es.last().1 as nat
        } else {
            0nat
        }
    }
}

pub proof fn lemma_wrapping_add_wrapped(n: int, v: u64)
    requires
        n >= 0,
    ensures
        wrapping_add(wrapped(n), v) == wrapped(n + v),
{
    let m: int = 0x1_0000_0000_0000_0000;
    let r = n % m;
    let q = n / m;
    assert(n == q * m + r && 0 <= r < m) by (nonlinear_arith)
        requires
            m > 0,
            r == n % m,
            q == n / m,
    ;
    if r + v < m {
        assert((n + v) % m == r + v) by (nonlinear_arith)
            requires
                n == q * m + r,
                0 <= r + v < m,
                q >= 0,
                m > 0,
        ;
    } else {
        assert((n + v) % m == r + v - m) by (nonlinear_arith)
            requires
                n + v == (q + 1) * m + (r + v - m),
                0 <= r + v - m < m,
                q >= 0,
                m > 0,
        ;
    }
}

/// Under [`ClientLabels::ByFilesystem`] the targets of a filesystem share
/// one series, which holds the sum (wrapping at 2^64, as the counters do)
/// of everything added for any of them; a filesystem none of whose targets
/// was seen has no series.
pub proof fn aggregated_series_sum_their_targets(es: Seq<(Seq<char>, u64)>, fs: Seq<char>)
    ensures
        events_counted(ClientLabels::ByFilesystem, es).contains_key(seq![("fs"@, fs)]) <==> exists|i: int|
            0 <= i < es.len() && spec_fs_name(#[trigger] es[i].0) == fs,
        events_counted(ClientLabels::ByFilesystem, es).contains_key(seq![("fs"@, fs)])
            ==> events_counted(ClientLabels::ByFilesystem, es)[seq![("fs"@, fs)]] == wrapped(fs_total(es, fs) as int),
    decreases es.len(),
{
    let k = seq![("fs"@, fs)];
    if es.len() > 0 {
        let p = es.drop_last();
        let e = es.last();
        aggregated_series_sum_their_targets(p, fs);
        let ke = spec_client_labels(ClientLabels::ByFilesystem, e.0);
        assert(ke == seq![("fs"@, spec_fs_name(e.0))]);
        if spec_fs_name(e.0) == fs {
            assert(ke =~= k);
            let m = events_counted(ClientLabels::ByFilesystem, p);
            if m.contains_key(k) {
                lemma_wrapping_add_wrapped(fs_total(p, fs) as int, e.1);
            } else {
                assert(fs_total(p, fs) == 0) by {
                    lemma_fs_total_zero(p, fs);
                }
                lemma_wrapping_add_wrapped(0, e.1);
            }
            assert(es[es.len() - 1] == e);
        } else {
            assert(ke != k) by {
                assert(ke[0].1 != k[0].1);
            }
            assert forall|i: int| 0 <= i < es.len() && spec_fs_name(#[trigger] es[i].0) == fs implies 0 <= i
                < p.len() && spec_fs_name(p[i].0) == fs by {
                assert(i != es.len() - 1);
            }
        }
        assert forall|i: int| 0 <= i < p.len() && spec_fs_name(#[trigger] p[i].0) == fs implies (0 <= i
            < es.len() && spec_fs_name(es[i].0) == fs) by {
            assert(es[i] == p[i]);
        }
    }
}

proof fn lemma_fs_total_zero(es: Seq<(Seq<char>, u64)>, fs: Seq<char>)
    requires
        !exists|i: int| 0 <= i < es.len() && spec_fs_name(#[trigger] es[i].0) == fs,
    ensures
        fs_total(es, fs) == 0,
    decreases es.len(),
{
    if es.len() > 0 {
        assert forall|i: int| 0 <= i < es.drop_last().len() implies spec_fs_name(#[trigger] es.drop_last()[i].0) != fs by {
            assert(es.drop_last()[i] == es[i]);
        }
        lemma_fs_total_zero(es.drop_last(), fs);
        assert(spec_fs_name(es[es.len() - 1].0) != fs);
    }
}

proof fn lemma_target_total_zero(es: Seq<(Seq<char>, u64)>, t: Seq<char>)
    requires
        !exists|i: int| 0 <= i < es.len() && #[trigger] es[i].0 == t,
    ensures
        target_total(es, t) == 0,
    decreases es.len(),
{
    if es.len() > 0 {
        assert forall|i: int| 0 <= i < es.drop_last().len() implies #[trigger] es.drop_last()[i].0 != t by {
            assert(es.drop_last()[i] == es[i]);
        }
        lemma_target_total_zero(es.drop_last(), t);
        assert(es[es.len() - 1].0 != t);
    }
}

/// Under [`ClientLabels::PerTarget`] each target has its own series, labelled
/// with its filesystem and itself, which holds the sum (wrapping at 2^64) of
/// everything added for it.
pub proof fn per_target_series_sum_their_target(es: Seq<(Seq<char>, u64)>, t: Seq<char>)
    ensures
        events_counted(ClientLabels::PerTarget, es).contains_key(
            seq![("fs"@, spec_fs_name(t)), ("target"@, t)],
        ) <==> exists|i: int| 0 <= i < es.len() && #[trigger] es[i].0 == t,
        events_counted(ClientLabels::PerTarget, es).contains_key(seq![("fs"@, spec_fs_name(t)), ("target"@, t)])
            ==> events_counted(ClientLabels::PerTarget, es)[seq![("fs"@, spec_fs_name(t)), ("target"@, t)]]
            == wrapped(target_total(es, t) as int),
    decreases es.len(),
{
    let k = seq![("fs"@, spec_fs_name(t)), ("target"@, t)];
    if es.len() > 0 {
        let p = es.drop_last();
        let e = es.last();
        per_target_series_sum_their_target(p, t);
        let ke = spec_client_labels(ClientLabels::PerTarget, e.0);
        assert(ke =~= seq![("fs"@, spec_fs_name(e.0)), ("target"@, e.0)]);
        if e.0 == t {
            assert(ke =~= k);
            let m = events_counted(ClientLabels::PerTarget, p);
            if m.contains_key(k) {
                lemma_wrapping_add_wrapped(target_total(p, t) as int, e.1);
            } else {
                lemma_target_total_zero(p, t);
                lemma_wrapping_add_wrapped(0, e.1);
            }
            assert(es[es.len() - 1] == e);
        } else {
            assert(ke != k) by {
                assert(ke[1].1 != k[1].1);
            }
            assert forall|i: int| 0 <= i < es.len() && #[trigger] es[i].0 == t implies 0 <= i < p.len()
                && p[i].0 == t by {
                assert(i != es.len() - 1);
            }
        }
        assert forall|i: int| 0 <= i < p.len() && #[trigger] p[i].0 == t implies (0 <= i < es.len()
            && es[i].0 == t) by {
            assert(es[i] == p[i]);
        }
    }
}

/// The two label modes differ only by `target`: a target's series under
/// [`ClientLabels::PerTarget`] is its filesystem's series under
/// [`ClientLabels::ByFilesystem`] with `target` appended, and two targets
/// share a series under [`ClientLabels::ByFilesystem`] exactly when they
/// belong to the same filesystem.
pub proof fn label_modes_differ_by_target(t: Seq<char>, u: Seq<char>)
    ensures
        spec_client_labels(ClientLabels::PerTarget, t) == spec_client_labels(ClientLabels::ByFilesystem, t).push(
            ("target"@, t),
        ),
        (spec_client_labels(ClientLabels::ByFilesystem, t) == spec_client_labels(ClientLabels::ByFilesystem, u))
            <==> spec_fs_name(t) == spec_fs_name(u),
        (spec_client_labels(ClientLabels::PerTarget, t) == spec_client_labels(ClientLabels::PerTarget, u))
            <==> t == u,
{
    let a = spec_client_labels(ClientLabels::ByFilesystem, t);
    let b = spec_client_labels(ClientLabels::ByFilesystem, u);
    if a == b {
        assert(a[0] == b[0]);
    }
    if spec_fs_name(t) == spec_fs_name(u) {
        assert(a =~= b);
    }
    let c = spec_client_labels(ClientLabels::PerTarget, t);
    let d = spec_client_labels(ClientLabels::PerTarget, u);
    if c == d {
        assert(c[1] == d[1]);
    }
}

/// The counters after each `(series, value)` event was added, in order.
pub open spec fn added_all(m: Map<LabelsView, u64>, evs: Seq<(LabelsView, u64)>) -> Map<LabelsView, u64>
    decreases evs.len(),
{
    if evs.len() == 0 {
        m
    } else {
        added(added_all(m, evs.drop_last()), evs.last().0, evs.last().1)
    }
}

/// The gauges after each `(series, value)` event was merged, in order.
pub open spec fn merged_events(m: Map<LabelsView, u64>, evs: Seq<(LabelsView, u64)>, keep_min: bool) -> Map<
    LabelsView,
    u64,
>
    decreases evs.len(),
{
    if evs.len() == 0 {
        m
    } else {
        merged(merged_events(m, evs.drop_last(), keep_min), evs.last().0, evs.last().1, keep_min)
    }
}

/// The sum of the values of the events of series `k`.
pub open spec fn key_sum(evs: Seq<(LabelsView, u64)>, k: LabelsView) -> nat
    decreases evs.len(),
{
    if evs.len() == 0 {
        0
    } else {
        key_sum(evs.drop_last(), k) + if evs.last().0 == k {
            evs.last().1 as nat
        } else {
            0nat
        }
    }
}

/// Series `k` of `m` exists exactly when some event is of it, and then holds
/// the sum of their values, wrapping at 2^64.
pub open spec fn sums_to(m: Map<LabelsView, u64>, evs: Seq<(LabelsView, u64)>, k: LabelsView) -> bool {
    &&& m.contains_key(k) <==> exists|i: int| 0 <= i < evs.len() && #[trigger] evs[i].0 == k
    &&& m.contains_key(k) ==> m[k] == wrapped(key_sum(evs, k) as int)
}

/// Series `k` of `m` exists exactly when some event is of it, and then holds
/// the value of one of them, and none of them is smaller (`keep_min`) or
/// larger.
pub open spec fn extreme_of(m: Map<LabelsView, u64>, evs: Seq<(LabelsView, u64)>, k: LabelsView, keep_min: bool) -> bool {
    &&& m.contains_key(k) <==> exists|i: int| 0 <= i < evs.len() && #[trigger] evs[i].0 == k
    &&& m.contains_key(k) ==> exists|i: int| 0 <= i < evs.len() && #[trigger] evs[i].0 == k && m[k] == evs[i].1
    &&& m.contains_key(k) ==> forall|i: int|
        0 <= i < evs.len() && #[trigger] evs[i].0 == k ==> if keep_min {
            m[k] <= evs[i].1
        } else {
            m[k] >= evs[i].1
        }
}

proof fn lemma_key_sum_zero(evs: Seq<(LabelsView, u64)>, k: LabelsView)
    requires
        !exists|i: int| 0 <= i < evs.len() && #[trigger] evs[i].0 == k,
    ensures
        key_sum(evs, k) == 0,
    decreases evs.len(),
{
    if evs.len() > 0 {
        assert forall|i: int| 0 <= i < evs.drop_last().len() implies #[trigger] evs.drop_last()[i].0 != k by {
            assert(evs.drop_last()[i] == evs[i]);
        }
        lemma_key_sum_zero(evs.drop_last(), k);
        assert(evs[evs.len() - 1].0 != k);
    }
}

/// Adding events one after the other leaves each series with the wrapping
/// sum of its events.
pub proof fn added_events_sum(m: Map<LabelsView, u64>, evs: Seq<(LabelsView, u64)>, k: LabelsView)
    requires
        !m.contains_key(k),
    ensures
        sums_to(added_all(m, evs), evs, k),
    decreases evs.len(),
{
    if evs.len() > 0 {
        let p = evs.drop_last();
        let e = evs.last();
        added_events_sum(m, p, k);
        let w = added_all(m, p);
        if e.0 == k {
            if w.contains_key(k) {
                lemma_wrapping_add_wrapped(key_sum(p, k) as int, e.1);
            } else {
                lemma_key_sum_zero(p, k);
                lemma_wrapping_add_wrapped(0, e.1);
            }
            assert(evs[evs.len() - 1] == e);
        } else {
            assert forall|i: int| 0 <= i < evs.len() && #[trigger] evs[i].0 == k implies 0 <= i < p.len()
                && p[i].0 == k by {
                assert(i != evs.len() - 1);
            }
        }
        assert forall|i: int| 0 <= i < p.len() && #[trigger] p[i].0 == k implies (0 <= i < evs.len()
            && evs[i].0 == k) by {
            assert(evs[i] == p[i]);
        }
    }
}

/// Merging events one after the other leaves each series with the extreme
/// of its events.
pub proof fn merged_events_keep_extremes(m: Map<LabelsView, u64>, evs: Seq<(LabelsView, u64)>, k: LabelsView, keep_min: bool)
    requires
        !m.contains_key(k),
    ensures
        extreme_of(merged_events(m, evs, keep_min), evs, k, keep_min),
    decreases evs.len(),
{
    if evs.len() > 0 {
        let p = evs.drop_last();
        let e = evs.last();
        merged_events_keep_extremes(m, p, k, keep_min);
        let w = merged_events(m, p, keep_min);
        let r = merged_events(m, evs, keep_min);
        assert forall|i: int| 0 <= i < p.len() && #[trigger] p[i].0 == k implies (0 <= i < evs.len()
            && evs[i].0 == k && evs[i] == p[i]) by {
            assert(evs[i] == p[i]);
        }
        if e.0 == k {
            assert(evs[evs.len() - 1] == e);
            if w.contains_key(k) {
                let j = choose|j: int| 0 <= j < p.len() && #[trigger] p[j].0 == k && w[k] == p[j].1;
                assert(evs[j] == p[j]);
            }
            assert forall|i: int| 0 <= i < evs.len() && #[trigger] evs[i].0 == k implies if keep_min {
                r[k] <= evs[i].1
            } else {
                r[k] >= evs[i].1
            } by {
                if i < evs.len() - 1 {
                    assert(p[i] == evs[i]);
                }
            }
        } else {
            assert forall|i: int| 0 <= i < evs.len() && #[trigger] evs[i].0 == k implies 0 <= i < p.len()
                && p[i].0 == k && p[i] == evs[i] by {
                assert(i != evs.len() - 1);
            }
            if w.contains_key(k) {
                let j = choose|j: int| 0 <= j < p.len() && #[trigger] p[j].0 == k && w[k] == p[j].1;
                assert(evs[j] == p[j]);
            }
        }
    }
}

pub proof fn lemma_added_all_concat(m: Map<LabelsView, u64>, a: Seq<(LabelsView, u64)>, b: Seq<(LabelsView, u64)>)
    ensures
        added_all(m, a + b) == added_all(added_all(m, a), b),
    decreases b.len(),
{
    if b.len() == 0 {
        assert(a + b =~= a);
    } else {
        lemma_added_all_concat(m, a, b.drop_last());
        assert((a + b).drop_last() =~= a + b.drop_last());
    }
}

pub proof fn lemma_merged_events_concat(m: Map<LabelsView, u64>, a: Seq<(LabelsView, u64)>, b: Seq<(LabelsView, u64)>, keep_min: bool)
    ensures
        merged_events(m, a + b, keep_min) == merged_events(merged_events(m, a, keep_min), b, keep_min),
    decreases b.len(),
{
    if b.len() == 0 {
        assert(a + b =~= a);
    } else {
        lemma_merged_events_concat(m, a, b.drop_last(), keep_min);
        assert((a + b).drop_last() =~= a + b.drop_last());
    }
}

} // verus!
