//! Bucketed client tables as one counter per bucket or as histograms.
//!
//! `lprocfs_oh_tally_log2()` files a value under `fls(value - 1)`, so bucket
//! `i` holds `(2^(i-1), 2^i]` and bucket 31 holds everything larger. Each
//! table prints its own key for bucket `i`: pages per RPC prints `2^i`, the
//! upper bound; offset and the latencies print `2^(i-1)`, the lower edge;
//! RPCs in flight is tallied linearly and prints `i`. Offset is tallied as
//! `offset + 1`, so its bound is `2k - 1`. The kernel keeps no sum, so
//! `_sum` is count times upper bound.

use crate::client::{LabelContainer, labels_view, observe_rw, observed_rw, with};
use crate::family::{
    CounterFamily, LabelsView, added, counter_values, inc_counter, new_counters, wrapping_add,
};
use crate::text::{spec_decimal, u64_to_string};
use std::collections::BTreeMap;
use vstd::prelude::*;

verus! {

broadcast use {vstd::laws_cmp::group_laws_cmp, vstd::std_specs::btree::group_btree_axioms};

/// How bucketed tables are exported.
#[derive(Clone, Copy, Debug, PartialEq, Eq, Structural)]
pub enum HistogramEncoding {
    /// One counter per bucket, the bucket's key in a `size` label.
    BucketCounters,
    /// One Prometheus histogram per series.
    Histogram,
}

impl Default for HistogramEncoding {
    fn default() -> (r: Self)
        ensures
            r == HistogramEncoding::BucketCounters,
    {
        HistogramEncoding::BucketCounters
    }
}

/// `OBD_HIST_MAX - 1`: the kernel clamps larger values into this bucket.
pub const OVERFLOW_INDEX: u32 = 31;

/// A kernel bucket: the key it prints and the inclusive upper bound it
/// stands for, `None` for the overflow bucket (`+Inf`).
#[derive(Clone, Copy, Debug, PartialEq, Eq, Structural)]
pub struct Bucket {
    pub key: u64,
    pub le: Option<u64>,
}

/// Which bound a table's printed key is.
#[derive(Clone, Copy, Debug, PartialEq, Eq, Structural)]
pub enum Table {
    /// log2; the key is the upper bound.
    PagesPerRpc,
    /// linear; the key is the value.
    RpcsInFlight,
    /// log2 of `offset + 1`; the key is the lower edge.
    Offset,
    /// log2 of binary microseconds (ns >> 10); the key is the lower edge.
    Latency,
}

/// The key the kernel prints for its overflow bucket of a log2 table,
/// `2^(OVERFLOW_INDEX - 1)`.
pub open spec fn log2_overflow_key() -> u64 {
    0x4000_0000
}

/// Whether `key` is a key that the table can turn into a bound: `2 * key`
/// must not overflow for the log2 tables whose key is a lower edge.
pub open spec fn key_in_range(table: Table, key: u64) -> bool {
    match table {
        Table::Offset | Table::Latency => key <= u64::MAX / 2,
        _ => true,
    }
}

/// The inclusive upper bound of the bucket that `table` prints as `key`.
pub open spec fn spec_bound(table: Table, key: u64) -> Option<u64> {
    match table {
        Table::PagesPerRpc => Some(key),
        Table::RpcsInFlight => if key == OVERFLOW_INDEX { None } else { Some(key) },
        Table::Offset => if key == log2_overflow_key() {
            None
        } else if key == 0 {
            Some(0)
        } else {
            Some((2 * key - 1) as u64)
        },
        Table::Latency => if key == log2_overflow_key() {
            None
        } else if key == 0 {
            Some(1)
        } else {
            Some((2 * key) as u64)
        },
    }
}

impl Table {
    /// The bucket that the table prints as `key`.
    pub fn bucket(self, key: u64) -> (b: Bucket)
        requires
            key_in_range(self, key),
        ensures
            b.key == key,
            b.le == spec_bound(self, key),
    {
        let le = match self {
            Table::PagesPerRpc => Some(key),
            Table::RpcsInFlight => if key == OVERFLOW_INDEX as u64 { None } else { Some(key) },
            Table::Offset => if key == 1u64 << (OVERFLOW_INDEX - 1) {
                None
            } else {
                Some((2 * key).saturating_sub(1))
            },
            Table::Latency => if key == 1u64 << (OVERFLOW_INDEX - 1) {
                None
            } else {
                Some(if 2 * key > 1 { 2 * key } else { 1 })
            },
        };
        proof {
            assert(1u64 << 30u32 == 0x4000_0000) by (bit_vector);
        }
        Bucket { key, le }
    }
}

/// The bounds of a table rise strictly with its keys: a histogram built from
/// a table has ascending buckets, and distinct keys never share one.
pub proof fn bucket_bounds_ascend(table: Table, k1: u64, k2: u64)
    requires
        key_in_range(table, k1),
        key_in_range(table, k2),
        k1 < k2,
        spec_bound(table, k1) is Some,
        spec_bound(table, k2) is Some,
    ensures
        spec_bound(table, k1).unwrap() < spec_bound(table, k2).unwrap(),
{
}

impl Bucket {
    /// The bucket with its key and bound multiplied by `factor` (pages to
    /// bytes), saturating at `u64::MAX`.
    pub fn scaled(self, factor: u64) -> (b: Bucket)
        ensures
            b == spec_scaled(self, factor),
    {
        Bucket {
            key: saturating_mul(self.key, factor),
            le: match self.le {
                Some(le) => Some(saturating_mul(le, factor)),
                None => None,
            },
        }
    }
}

fn saturating_mul(a: u64, b: u64) -> (r: u64)
    ensures
        r == sat_mul(a, b),
{
    match a.checked_mul(b) {
        Some(x) => x,
        None => u64::MAX,
    }
}

/// `a * b`, or `u64::MAX` when it does not fit.
pub open spec fn sat_mul(a: u64, b: u64) -> u64 {
    if a * b > u64::MAX { u64::MAX } else { (a * b) as u64 }
}

/// `a + b`, or `u128::MAX` when it does not fit.
pub open spec fn sat_add_u128(a: u128, b: u128) -> u128 {
    if a + b > u128::MAX { u128::MAX } else { (a + b) as u128 }
}

/// A histogram as counts by inclusive upper bound, the count above every
/// bound, and the sum of count times upper bound.
pub struct HistogramView {
    pub buckets: Map<u64, u64>,
    pub overflow: u64,
    pub sum: u128,
}

/// A histogram that has seen nothing.
pub open spec fn empty_histogram() -> HistogramView {
    HistogramView { buckets: Map::empty(), overflow: 0, sum: 0 }
}

/// `h` after `count` events fell into bucket `b`. Counts wrap at 2^64; the
/// sum, which the kernel does not keep, is count times the bucket's upper
/// bound (its key for the overflow bucket) and saturates.
pub open spec fn observed(h: HistogramView, b: Bucket, count: u64) -> HistogramView {
    let bound: u64 = match b.le {
        Some(le) => le,
        None => b.key,
    };
    HistogramView {
        buckets: match b.le {
            Some(le) => h.buckets.insert(
                le,
                wrapping_add(if h.buckets.contains_key(le) { h.buckets[le] } else { 0 }, count),
            ),
            None => h.buckets,
        },
        overflow: match b.le {
            Some(_) => h.overflow,
            None => wrapping_add(h.overflow, count),
        },
        sum: sat_add_u128(h.sum, (count * bound) as u128),
    }
}

/// Per-bucket counts by upper bound, kept as the kernel prints them, not
/// cumulative; the encoder accumulates them.
pub struct BucketHistogram {
    /// Count by inclusive upper bound.
    pub buckets: BTreeMap<u64, u64>,
    /// Count above every bound (`+Inf`).
    pub overflow: u64,
    /// Count times upper bound, summed.
    pub sum: u128,
}

impl BucketHistogram {
    pub open spec fn view(&self) -> HistogramView {
        HistogramView { buckets: self.buckets@, overflow: self.overflow, sum: self.sum }
    }

    /// A histogram that has seen nothing.
    pub fn new() -> (r: BucketHistogram)
        ensures
            r.view() == empty_histogram(),
    {
        BucketHistogram { buckets: BTreeMap::new(), overflow: 0, sum: 0 }
    }

    /// A histogram with the same counts.
    pub fn copy(&self) -> (r: BucketHistogram)
        ensures
            r.view() == self.view(),
    {
        BucketHistogram { buckets: self.buckets.clone(), overflow: self.overflow, sum: self.sum }
    }

    /// `count` more events in bucket `bucket`.
    pub fn observe(&mut self, bucket: Bucket, count: u64)
        ensures
            final(self).view() == observed(old(self).view(), bucket, count),
    {
        let bound = match bucket.le {
            Some(le) => le,
            None => bucket.key,
        };
        match bucket.le {
            Some(le) => {
                let current = match self.buckets.get(&le) {
                    Some(c) => *c,
                    None => 0,
                };
                self.buckets.insert(le, current.wrapping_add(count));
            },
            None => {
                self.overflow = self.overflow.wrapping_add(count);
            },
        }
        assert((count as u128) * (bound as u128) <= u128::MAX) by (nonlinear_arith)
            requires
                count <= u64::MAX,
                bound <= u64::MAX,
        ;
        let product = (count as u128) * (bound as u128);
        self.sum = self.sum.saturating_add(product);
        proof {
            assert(self.view().buckets =~= observed(old(self).view(), bucket, count).buckets);
        }
    }
}

/// The map of a list of `(labels, histogram)` pairs, later pairs winning.
pub open spec fn series_map(s: Seq<(LabelsView, HistogramView)>) -> Map<LabelsView, HistogramView>
    decreases s.len(),
{
    if s.len() == 0 {
        Map::empty()
    } else {
        series_map(s.drop_last()).insert(s.last().0, s.last().1)
    }
}

/// A family of histograms, one per label set.
pub struct HistogramFamily {
    /// Label set and histogram of each series, each label set once.
    pub series: Vec<(LabelContainer, BucketHistogram)>,
}

/// Whether two label sets are equal.
pub fn labels_eq(a: &LabelContainer, b: &LabelContainer) -> (r: bool)
    ensures
        r == (labels_view(a@) == labels_view(b@)),
{
    if a.len() != b.len() {
        proof {
            assert(labels_view(a@).len() != labels_view(b@).len());
        }
        return false;
    }
    let mut i: usize = 0;
    while i < a.len()
        invariant
            a.len() == b.len(),
            i <= a.len(),
            forall|j: int| 0 <= j < i ==> labels_view(a@)[j] == labels_view(b@)[j],
        decreases a.len() - i,
    {
        let (ka, va) = &a[i];
        let (kb, vb) = &b[i];
        let same_name = (*ka).to_owned() == (*kb).to_owned();
        let same_value = va.clone() == vb.clone();
        if !(same_name && same_value) {
            proof {
                assert(labels_view(a@)[i as int] != labels_view(b@)[i as int]);
            }
            return false;
        }
        i += 1;
    }
    proof {
        assert(labels_view(a@) =~= labels_view(b@));
    }
    true
}

/// A copy of a label set.
pub fn copy_labels(labels: &LabelContainer) -> (r: LabelContainer)
    ensures
        r@ == labels@,
{
    let mut xs: LabelContainer = Vec::new();
    let mut i: usize = 0;
    while i < labels.len()
        invariant
            i <= labels.len(),
            xs@ == labels@.take(i as int),
        decreases labels.len() - i,
    {
        let (k, v) = &labels[i];
        xs.push((*k, v.clone()));
        proof {
            assert(labels@.take(i + 1) =~= labels@.take(i as int).push(labels@[i as int]));
        }
        i += 1;
    }
    proof {
        assert(labels@.take(labels.len() as int) =~= labels@);
    }
    xs
}

proof fn lemma_series_map_update(s: Seq<(LabelsView, HistogramView)>, i: int, h: HistogramView)
    requires
        0 <= i < s.len(),
        forall|j: int| 0 <= j < s.len() && j != i ==> s[j].0 != s[i].0,
    ensures
        series_map(s.update(i, (s[i].0, h))) == series_map(s).insert(s[i].0, h),
    decreases s.len(),
{
    let t = s.update(i, (s[i].0, h));
    if i == s.len() - 1 {
        assert(t.drop_last() =~= s.drop_last());
        assert(series_map(t) =~= series_map(s).insert(s[i].0, h));
    } else {
        lemma_series_map_update(s.drop_last(), i, h);
        assert(t.drop_last() =~= s.drop_last().update(i, (s[i].0, h)));
        assert(series_map(t) =~= series_map(s).insert(s[i].0, h));
    }
}

proof fn lemma_series_map_has(s: Seq<(LabelsView, HistogramView)>, k: LabelsView)
    ensures
        series_map(s).contains_key(k) <==> exists|j: int| 0 <= j < s.len() && s[j].0 == k,
    decreases s.len(),
{
    if s.len() > 0 {
        lemma_series_map_has(s.drop_last(), k);
        if series_map(s.drop_last()).contains_key(k) {
            let j = choose|j: int| 0 <= j < s.drop_last().len() && s.drop_last()[j].0 == k;
            assert(s[j].0 == k);
        }
        if exists|j: int| 0 <= j < s.len() && s[j].0 == k {
            let j = choose|j: int| 0 <= j < s.len() && s[j].0 == k;
            if j < s.len() - 1 {
                assert(s.drop_last()[j].0 == k);
            }
        }
    }
}

proof fn lemma_series_map_at(s: Seq<(LabelsView, HistogramView)>, i: int)
    requires
        0 <= i < s.len(),
        forall|j: int| 0 <= j < s.len() && j != i ==> s[j].0 != s[i].0,
    ensures
        series_map(s).contains_key(s[i].0),
        series_map(s)[s[i].0] == s[i].1,
    decreases s.len(),
{
    if i < s.len() - 1 {
        lemma_series_map_at(s.drop_last(), i);
    }
}

/// `m` with a histogram that has seen nothing under `k`, if there was none.
pub open spec fn touched(m: Map<LabelsView, HistogramView>, k: LabelsView) -> Map<LabelsView, HistogramView> {
    if m.contains_key(k) {
        m
    } else {
        m.insert(k, empty_histogram())
    }
}

/// `m` after `count` events fell into bucket `b` of the histogram under `k`,
/// made empty first if there was none.
pub open spec fn observed_in(m: Map<LabelsView, HistogramView>, k: LabelsView, b: Bucket, count: u64) -> Map<
    LabelsView,
    HistogramView,
> {
    m.insert(k, observed(touched(m, k)[k], b, count))
}

impl HistogramFamily {
    /// The label set and histogram of each series, in order.
    pub open spec fn entries(&self) -> Seq<(LabelsView, HistogramView)> {
        self.series@.map_values(|x: (LabelContainer, BucketHistogram)| (labels_view(x.0@), x.1.view()))
    }

    /// Each label set has one series.
    pub open spec fn wf(&self) -> bool {
        forall|i: int, j: int|
            0 <= i < self.series@.len() && 0 <= j < self.series@.len() && i != j ==> #[trigger] self.entries()[i].0
                != #[trigger] self.entries()[j].0
    }

    /// The histogram of each label set.
    pub open spec fn view(&self) -> Map<LabelsView, HistogramView> {
        series_map(self.entries())
    }

    /// A family without series.
    pub fn new() -> (r: HistogramFamily)
        ensures
            r.wf(),
            r.view() == Map::<LabelsView, HistogramView>::empty(),
    {
        let r = HistogramFamily { series: Vec::new() };
        proof {
            assert(r.entries().len() == 0);
        }
        r
    }

    /// The index of the series of `labels`, made empty if there was none.
    fn get_or_create(&mut self, labels: &LabelContainer) -> (idx: usize)
        requires
            old(self).wf(),
        ensures
            final(self).wf(),
            final(self).view() == touched(old(self).view(), labels_view(labels@)),
            idx < final(self).series@.len(),
            final(self).entries()[idx as int].0 == labels_view(labels@),
    {
        let ghost k = labels_view(labels@);
        let mut i: usize = 0;
        while i < self.series.len()
            invariant
                i <= self.series@.len(),
                self == old(self),
                self.wf(),
                k == labels_view(labels@),
                forall|j: int| 0 <= j < i ==> self.entries()[j].0 != k,
            decreases self.series.len() - i,
        {
            let same = labels_eq(&self.series[i].0, labels);
            proof {
                assert(self.entries()[i as int] == (
                    labels_view(self.series@[i as int].0@),
                    self.series@[i as int].1.view(),
                ));
            }
            if same {
                proof {
                    assert(self.entries()[i as int].0 == k);
                    lemma_series_map_at(self.entries(), i as int);
                    assert(touched(self.view(), k) == self.view());
                }
                return i;
            }
            i += 1;
        }
        let ghost before = self.entries();
        proof {
            lemma_series_map_has(before, k);
        }
        self.series.push((copy_labels(labels), BucketHistogram::new()));
        proof {
            assert(self.entries() =~= before.push((k, empty_histogram())));
            assert(self.entries().drop_last() =~= before);
            assert(self.view() =~= touched(series_map(before), k));
        }
        i
    }

    /// A series for `labels`, made empty if there was none.
    pub fn touch(&mut self, labels: &LabelContainer)
        requires
            old(self).wf(),
        ensures
            final(self).wf(),
            final(self).view() == touched(old(self).view(), labels_view(labels@)),
    {
        let _ = self.get_or_create(labels);
    }

    /// `count` more events in bucket `bucket` of the series of `labels`,
    /// made empty first if there was none.
    pub fn observe(&mut self, labels: &LabelContainer, bucket: Bucket, count: u64)
        requires
            old(self).wf(),
        ensures
            final(self).wf(),
            final(self).view() == observed_in(old(self).view(), labels_view(labels@), bucket, count),
    {
        let ghost k = labels_view(labels@);
        let idx = self.get_or_create(labels);
        let ghost mid = self.entries();
        let mut h = self.series[idx].1.copy();
        h.observe(bucket, count);
        let ghost hv = h.view();
        proof {
            lemma_series_map_at(mid, idx as int);
        }
        self.series.set(idx, (copy_labels(labels), h));
        proof {
            assert(self.entries() =~= mid.update(idx as int, (k, hv)));
            lemma_series_map_update(mid, idx as int, hv);
        }
    }
}

/// Bucketed tables as counters or as histograms.
pub enum Bucketed {
    /// One counter per bucket, the bucket's key in a `size` label.
    Counters(CounterFamily),
    /// One histogram per series.
    Histograms(HistogramFamily),
}

/// A bucketed family of the kind `encoding` asks for, without series.
pub open spec fn empty_bucketed(encoding: HistogramEncoding) -> BucketedView {
    match encoding {
        HistogramEncoding::BucketCounters => BucketedView::Counters(Map::empty()),
        HistogramEncoding::Histogram => BucketedView::Histograms(Map::empty()),
    }
}

/// What a bucketed family holds.
pub enum BucketedView {
    Counters(Map<LabelsView, u64>),
    Histograms(Map<LabelsView, HistogramView>),
}

/// The series of a bucket counter: `labels` with the bucket's key as `size`.
pub open spec fn size_labels(l: LabelsView, b: Bucket) -> LabelsView {
    l.push(("size"@, spec_decimal(b.key as nat)))
}

/// The counters after the buckets were counted one after the other.
pub open spec fn counted(m: Map<LabelsView, u64>, l: LabelsView, bs: Seq<(Bucket, u64)>) -> Map<LabelsView, u64>
    decreases bs.len(),
{
    if bs.len() == 0 {
        m
    } else {
        added(counted(m, l, bs.drop_last()), size_labels(l, bs.last().0), bs.last().1)
    }
}

/// The histograms after the buckets were observed one after the other in
/// the series under `k`.
pub open spec fn observed_all(m: Map<LabelsView, HistogramView>, k: LabelsView, bs: Seq<(Bucket, u64)>) -> Map<
    LabelsView,
    HistogramView,
>
    decreases bs.len(),
{
    if bs.len() == 0 {
        m
    } else {
        observed_in(observed_all(m, k, bs.drop_last()), k, bs.last().0, bs.last().1)
    }
}

/// The histograms after the `(bucket, read, write)` buckets were observed
/// one after the other, in the series of `labels` with `operation` set.
pub open spec fn observed_all_rw(m: Map<LabelsView, HistogramView>, l: LabelsView, bs: Seq<(Bucket, u64, u64)>) -> Map<
    LabelsView,
    HistogramView,
>
    decreases bs.len(),
{
    if bs.len() == 0 {
        m
    } else {
        let b = bs.last();
        observed_in(
            observed_in(
                observed_all_rw(m, l, bs.drop_last()),
                l.push(("operation"@, "read"@)),
                b.0,
                b.1,
            ),
            l.push(("operation"@, "write"@)),
            b.0,
            b.2,
        )
    }
}

/// The `(key, read, write)` triples of `(bucket, read, write)` ones.
pub open spec fn keyed(bs: Seq<(Bucket, u64, u64)>) -> Seq<(u64, u64, u64)> {
    bs.map_values(|b: (Bucket, u64, u64)| (b.0.key, b.1, b.2))
}

impl Default for Bucketed {
    fn default() -> (r: Bucketed)
        ensures
            r.wf(),
            r.view() == empty_bucketed(HistogramEncoding::BucketCounters),
    {
        Bucketed::new(HistogramEncoding::BucketCounters)
    }
}

/// A bucketed family after `(bucket, count)` pairs were counted in the
/// series of `l`.
pub open spec fn bucketed_observed(v: BucketedView, l: LabelsView, bs: Seq<(Bucket, u64)>) -> BucketedView {
    match v {
        BucketedView::Counters(m) => BucketedView::Counters(counted(m, l, bs)),
        BucketedView::Histograms(m) => BucketedView::Histograms(observed_all(touched(m, l), l, bs)),
    }
}

/// A bucketed family after `(bucket, read, write)` triples were counted in
/// the series of `l`.
pub open spec fn bucketed_observed_rw(v: BucketedView, l: LabelsView, bs: Seq<(Bucket, u64, u64)>) -> BucketedView {
    match v {
        BucketedView::Counters(m) => BucketedView::Counters(observed_rw(m, l, keyed(bs))),
        BucketedView::Histograms(m) => BucketedView::Histograms(observed_all_rw(m, l, bs)),
    }
}

/// The bucket that `table` prints as `key`.
pub open spec fn spec_bucket(table: Table, key: u64) -> Bucket {
    Bucket { key, le: spec_bound(table, key) }
}

/// `b` with key and bound multiplied by `factor`, saturating.
pub open spec fn spec_scaled(b: Bucket, factor: u64) -> Bucket {
    Bucket {
        key: sat_mul(b.key, factor),
        le: match b.le {
            Some(le) => Some(sat_mul(le, factor)),
            None => None,
        },
    }
}

impl Bucketed {
    pub open spec fn view(&self) -> BucketedView {
        match self {
            Bucketed::Counters(f) => BucketedView::Counters(counter_values(*f)),
            Bucketed::Histograms(f) => BucketedView::Histograms(f.view()),
        }
    }

    pub open spec fn wf(&self) -> bool {
        match self {
            Bucketed::Counters(_) => true,
            Bucketed::Histograms(f) => f.wf(),
        }
    }

    /// An empty family of the kind `encoding` asks for.
    pub fn new(encoding: HistogramEncoding) -> (r: Bucketed)
        ensures
            r.wf(),
            r.view() == empty_bucketed(encoding),
    {
        match encoding {
            HistogramEncoding::BucketCounters => Bucketed::Counters(new_counters()),
            HistogramEncoding::Histogram => Bucketed::Histograms(HistogramFamily::new()),
        }
    }

    /// Counts `(bucket, count)` pairs in the series of `labels`: as one
    /// counter per bucket, or in one histogram, which is made even when
    /// there are no buckets.
    pub fn observe(&mut self, labels: &LabelContainer, buckets: &[(Bucket, u64)])
        requires
            old(self).wf(),
        ensures
            final(self).wf(),
            final(self).view() == bucketed_observed(old(self).view(), labels_view(labels@), buckets@),
    {
        let ghost l = labels_view(labels@);
        match self {
            Bucketed::Counters(family) => {
                let ghost m0 = counter_values(*family);
                let mut i: usize = 0;
                while i < buckets.len()
                    invariant
                        i <= buckets@.len(),
                        l == labels_view(labels@),
                        counter_values(*family) == counted(m0, l, buckets@.take(i as int)),
                    decreases buckets.len() - i,
                {
                    let (bucket, count) = buckets[i];
                    let xs = with(labels, "size", u64_to_string(bucket.key));
                    inc_counter(family, &xs, count);
                    proof {
                        assert(buckets@.take(i + 1).drop_last() =~= buckets@.take(i as int));
                    }
                    i += 1;
                }
                proof {
                    assert(buckets@.take(buckets@.len() as int) =~= buckets@);
                }
            },
            Bucketed::Histograms(family) => {
                family.touch(labels);
                let ghost m0 = family.view();
                let mut i: usize = 0;
                while i < buckets.len()
                    invariant
                        i <= buckets@.len(),
                        l == labels_view(labels@),
                        family.wf(),
                        family.view() == observed_all(m0, l, buckets@.take(i as int)),
                    decreases buckets.len() - i,
                {
                    let (bucket, count) = buckets[i];
                    family.observe(labels, bucket, count);
                    proof {
                        assert(buckets@.take(i + 1).drop_last() =~= buckets@.take(i as int));
                    }
                    i += 1;
                }
                proof {
                    assert(buckets@.take(buckets@.len() as int) =~= buckets@);
                }
            },
        }
    }

    /// Counts `(bucket, read, write)` triples in the `read` and `write`
    /// series of `labels`: as counters labelled `operation` and `size`, or in
    /// two histograms labelled `operation`.
    pub fn observe_rw(&mut self, labels: &LabelContainer, buckets: &[(Bucket, u64, u64)])
        requires
            old(self).wf(),
        ensures
            final(self).wf(),
            final(self).view() == bucketed_observed_rw(old(self).view(), labels_view(labels@), buckets@),
    {
        let ghost l = labels_view(labels@);
        match self {
            Bucketed::Counters(family) => {
                let mut keys: Vec<(u64, u64, u64)> = Vec::new();
                let mut i: usize = 0;
                while i < buckets.len()
                    invariant
                        i <= buckets@.len(),
                        keys@ == keyed(buckets@.take(i as int)),
                    decreases buckets.len() - i,
                {
                    let (bucket, read, write) = buckets[i];
                    keys.push((bucket.key, read, write));
                    proof {
                        assert(keyed(buckets@.take(i + 1)) =~= keyed(buckets@.take(i as int)).push(
                            (bucket.key, read, write),
                        ));
                    }
                    i += 1;
                }
                proof {
                    assert(buckets@.take(buckets@.len() as int) =~= buckets@);
                }
                observe_rw(family, labels, keys.as_slice());
            },
            Bucketed::Histograms(family) => {
                let read = with(labels, "operation", "read".to_owned());
                let write = with(labels, "operation", "write".to_owned());
                let ghost m0 = family.view();
                let mut i: usize = 0;
                while i < buckets.len()
                    invariant
                        i <= buckets@.len(),
                        l == labels_view(labels@),
                        labels_view(read@) == l.push(("operation"@, "read"@)),
                        labels_view(write@) == l.push(("operation"@, "write"@)),
                        family.wf(),
                        family.view() == observed_all_rw(m0, l, buckets@.take(i as int)),
                    decreases buckets.len() - i,
                {
                    let (bucket, r, w) = buckets[i];
                    family.observe(&read, bucket, r);
                    family.observe(&write, bucket, w);
                    proof {
                        assert(buckets@.take(i + 1).drop_last() =~= buckets@.take(i as int));
                    }
                    i += 1;
                }
                proof {
                    assert(buckets@.take(buckets@.len() as int) =~= buckets@);
                }
            },
        }
    }
}

} // verus!
