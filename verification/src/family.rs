//! Metric families of prometheus_client: one metric per label set, made on
//! first use. The library writes to them; registering and encoding them is
//! left to the caller, through the `family` field.
//!
//! A family shares its metrics with its clones. The contracts here speak of
//! the family they are given; a clone made for registration sees the same
//! values.

use crate::client::{LabelContainer, labels_view};
use prometheus_client::metrics::counter::Counter;
use prometheus_client::metrics::family::Family;
use prometheus_client::metrics::gauge::Gauge;
use std::sync::atomic::AtomicU64;
use vstd::prelude::*;

verus! {

/// A label set as characters, the key of a family.
pub type LabelsView = Seq<(Seq<char>, Seq<char>)>;

/// `a + b` modulo 2^64, as an atomic `fetch_add` leaves it.
pub open spec fn wrapping_add(a: u64, b: u64) -> u64 {
    if a + b > u64::MAX {
        (a + b - 0x1_0000_0000_0000_0000) as u64
    } else {
        (a + b) as u64
    }
}

/// `a + b` modulo 2^64 as a signed value, as an atomic `fetch_add` leaves it.
pub open spec fn wrapping_add_i64(a: i64, b: i64) -> i64 {
    if a + b > i64::MAX {
        (a + b - 0x1_0000_0000_0000_0000) as i64
    } else if a + b < i64::MIN {
        (a + b + 0x1_0000_0000_0000_0000) as i64
    } else {
        (a + b) as i64
    }
}

/// The value stored under `k`, 0 when there is none.
pub open spec fn value_or_zero<V>(m: Map<LabelsView, V>, k: LabelsView, zero: V) -> V {
    if m.contains_key(k) {
        m[k]
    } else {
        zero
    }
}

/// `m` with `v` added to the counter under `k`, which starts at 0.
pub open spec fn added(m: Map<LabelsView, u64>, k: LabelsView, v: u64) -> Map<LabelsView, u64> {
    m.insert(k, wrapping_add(value_or_zero(m, k, 0u64), v))
}

/// A family without series.
pub open spec fn no_series() -> Map<LabelsView, u64> {
    Map::empty()
}

/// A family of signed gauges without series.
pub open spec fn no_signed_series() -> Map<LabelsView, i64> {
    Map::empty()
}

/// prometheus_client's `Family<LabelContainer, Counter<u64>>`.
#[verifier::external_body]
pub struct CounterFamily {
    pub family: Family<LabelContainer, Counter<u64>>,
}

/// prometheus_client's `Family<LabelContainer, Gauge<u64, AtomicU64>>`.
#[verifier::external_body]
pub struct GaugeFamily {
    pub family: Family<LabelContainer, Gauge<u64, AtomicU64>>,
}

/// prometheus_client's `Family<LabelContainer, Gauge>`, whose gauges are `i64`.
#[verifier::external_body]
pub struct SignedGaugeFamily {
    pub family: Family<LabelContainer, Gauge>,
}

/// What the counter of each label set holds.
pub uninterp spec fn counter_values(f: CounterFamily) -> Map<LabelsView, u64>;

/// What the gauge of each label set holds.
pub uninterp spec fn gauge_values(f: GaugeFamily) -> Map<LabelsView, u64>;

/// What the gauge of each label set holds.
pub uninterp spec fn signed_gauge_values(f: SignedGaugeFamily) -> Map<LabelsView, i64>;

/// `Family::default`: a family without metrics.
#[verifier::external_body]
pub(crate) fn new_counters() -> (r: CounterFamily)
    ensures
        counter_values(r) == no_series(),
{
    CounterFamily { family: Family::default() }
}

/// `Family::get_or_create` and `Counter::inc_by`: the counter of `labels`,
/// made at 0 if there was none, grows by `v` (an atomic `fetch_add`, which
/// wraps).
#[verifier::external_body]
pub(crate) fn inc_counter(f: &mut CounterFamily, labels: &LabelContainer, v: u64)
    ensures
        counter_values(*final(f)) == added(counter_values(*old(f)), labels_view(labels@), v),
{
    f.family.get_or_create(labels).inc_by(v);
}

/// `Family::default`: a family without metrics.
#[verifier::external_body]
pub(crate) fn new_gauges() -> (r: GaugeFamily)
    ensures
        gauge_values(r) == no_series(),
{
    GaugeFamily { family: Family::default() }
}

/// `Family::get_or_create` and `Gauge::set`: the gauge of `labels` holds `v`.
#[verifier::external_body]
pub(crate) fn set_gauge(f: &mut GaugeFamily, labels: &LabelContainer, v: u64)
    ensures
        gauge_values(*final(f)) == gauge_values(*old(f)).insert(labels_view(labels@), v),
{
    f.family.get_or_create(labels).set(v);
}

/// `Family::get_or_create` and `Gauge::inc_by`: the gauge of `labels`, made
/// at 0 if there was none, grows by `v` (an atomic `fetch_add`, which wraps).
#[verifier::external_body]
pub(crate) fn inc_gauge(f: &mut GaugeFamily, labels: &LabelContainer, v: u64)
    ensures
        gauge_values(*final(f)) == added(gauge_values(*old(f)), labels_view(labels@), v),
{
    f.family.get_or_create(labels).inc_by(v);
}

/// `Family::get` and `Gauge::get`: the value of the gauge of `labels`, if
/// there is one.
#[verifier::external_body]
pub(crate) fn get_gauge(f: &GaugeFamily, labels: &LabelContainer) -> (r: Option<u64>)
    ensures
        r == (if gauge_values(*f).contains_key(labels_view(labels@)) {
            Some(gauge_values(*f)[labels_view(labels@)])
        } else {
            None::<u64>
        }),
{
    match f.family.get(labels) {
        Some(gauge) => Some(gauge.get()),
        None => None,
    }
}

/// `Family::default`: a family without metrics.
#[verifier::external_body]
pub(crate) fn new_signed_gauges() -> (r: SignedGaugeFamily)
    ensures
        signed_gauge_values(r) == no_signed_series(),
{
    SignedGaugeFamily { family: Family::default() }
}

/// `Family::get_or_create` and `Gauge::set`: the gauge of `labels` holds `v`.
#[verifier::external_body]
pub(crate) fn set_signed_gauge(f: &mut SignedGaugeFamily, labels: &LabelContainer, v: i64)
    ensures
        signed_gauge_values(*final(f)) == signed_gauge_values(*old(f)).insert(
            labels_view(labels@),
            v,
        ),
{
    f.family.get_or_create(labels).set(v);
}

/// `Family::get_or_create` and `Gauge::inc`: the gauge of `labels`, made at
/// 0 if there was none, grows by 1 (an atomic `fetch_add`, which wraps).
#[verifier::external_body]
pub(crate) fn inc_signed_gauge(f: &mut SignedGaugeFamily, labels: &LabelContainer)
    ensures
        signed_gauge_values(*final(f)) == signed_gauge_values(*old(f)).insert(
            labels_view(labels@),
            wrapping_add_i64(value_or_zero(signed_gauge_values(*old(f)), labels_view(labels@), 0i64), 1),
        ),
{
    f.family.get_or_create(labels).inc();
}

} // verus!
