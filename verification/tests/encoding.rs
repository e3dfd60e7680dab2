use lustrefs_exporter::client::LabelContainer;
use lustrefs_exporter::histogram::{Bucket, HistogramFamily};
use prometheus_client::{
    encoding::{text::encode, EncodeMetric, MetricEncoder, NoLabelSet},
    metrics::{family::Family, MetricType, TypedMetric},
    registry::Registry,
};
use std::sync::RwLock;

/// A histogram of the library as the text encoder takes it: per-bucket
/// counts by upper bound, ascending, and the overflow count as `+Inf`.
#[derive(Debug, Default)]
struct Encoded {
    inner: RwLock<(f64, Vec<(f64, u64)>)>,
}

impl EncodeMetric for Encoded {
    fn encode(&self, mut encoder: MetricEncoder) -> Result<(), std::fmt::Error> {
        let inner = self.inner.read().unwrap();
        let count = inner.1.iter().map(|(_, c)| c).sum();
        encoder.encode_histogram::<NoLabelSet>(inner.0, count, &inner.1, None)
    }

    fn metric_type(&self) -> MetricType {
        MetricType::Histogram
    }
}

impl TypedMetric for Encoded {
    const TYPE: MetricType = MetricType::Histogram;
}

fn encode_buckets(buckets: impl IntoIterator<Item = (Option<u64>, u64)>) -> Vec<String> {
    let labels: LabelContainer = vec![("fs", "a".to_string())];
    let mut histograms = HistogramFamily::new();

    for (le, count) in buckets {
        histograms.observe(&labels, Bucket { key: 1 << 30, le }, count);
    }

    let family: Family<LabelContainer, Encoded> = Family::default();
    for (l, h) in &histograms.series {
        let buckets = h
            .buckets
            .iter()
            .map(|(le, c)| (*le as f64, *c))
            .chain(std::iter::once((f64::INFINITY, h.overflow)))
            .collect();
        *family.get_or_create(l).inner.write().unwrap() = (h.sum as f64, buckets);
    }

    let mut registry = Registry::default();
    registry.register("h", "help", family);

    let mut out = String::new();
    encode(&mut out, &registry).unwrap();

    out.lines()
        .filter(|l| l.starts_with("h_"))
        .map(str::to_string)
        .collect()
}

#[test]
fn buckets_are_cumulative_on_the_wire_and_end_with_inf() {
    assert_eq!(
        encode_buckets([(Some(1), 5), (Some(4), 0), (Some(2), 3), (Some(2), 1)]),
        [
            "h_sum{fs=\"a\"} 13.0",
            "h_count{fs=\"a\"} 9",
            "h_bucket{le=\"1.0\",fs=\"a\"} 5",
            "h_bucket{le=\"2.0\",fs=\"a\"} 9",
            "h_bucket{le=\"4.0\",fs=\"a\"} 9",
            "h_bucket{le=\"+Inf\",fs=\"a\"} 9",
        ]
    );
}

#[test]
fn overflow_bucket_lands_in_inf() {
    assert_eq!(
        encode_buckets([(Some(8), 2), (None, 3)]),
        [
            "h_sum{fs=\"a\"} 3221225488.0",
            "h_count{fs=\"a\"} 5",
            "h_bucket{le=\"8.0\",fs=\"a\"} 2",
            "h_bucket{le=\"+Inf\",fs=\"a\"} 5",
        ]
    );
}
