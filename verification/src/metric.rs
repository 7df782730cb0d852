//! Metrics, as plain values.
use crate::model::{view_option, views};
use crate::number::Float64;
use crate::timestamp::Timestamp;
use vstd::prelude::*;

verus! {

/// A tag: a key with one value. The value, like the key, is text.
#[derive(Clone, Debug, PartialEq, Eq)]
pub struct Tag {
    pub key: String,
    pub value: String,
}

/// The model of a [`Tag`].
pub struct TagView {
    pub key: Seq<char>,
    pub value: Seq<char>,
}

impl View for Tag {
    type V = TagView;

    open spec fn view(&self) -> TagView {
        TagView { key: self.key@, value: self.value@ }
    }
}

/// Whether a value replaces the previous one or adds to it.
#[derive(Clone, Copy, Debug, PartialEq, Eq)]
pub enum MetricKind {
    Incremental,
    Absolute,
}

/// A histogram bucket: how many observations it holds, and its upper limit, written the way a
/// float is displayed.
#[derive(Clone, Debug, PartialEq, Eq)]
pub struct Bucket {
    pub upper_limit: String,
    pub count: u64,
}

/// The model of a [`Bucket`].
pub struct BucketView {
    pub upper_limit: Seq<char>,
    pub count: nat,
}

impl View for Bucket {
    type V = BucketView;

    open spec fn view(&self) -> BucketView {
        BucketView { upper_limit: self.upper_limit@, count: self.count as nat }
    }
}

/// A quantile: its value, and its rank in percent, written the way a float is displayed.
#[derive(Clone, Debug, PartialEq, Eq)]
pub struct Quantile {
    pub percent: String,
    pub value: Float64,
}

/// The model of a [`Quantile`].
pub struct QuantileView {
    pub percent: Seq<char>,
    pub value: u64,
}

impl View for Quantile {
    type V = QuantileView;

    open spec fn view(&self) -> QuantileView {
        QuantileView { percent: self.percent@, value: self.value.bits }
    }
}

/// The statistics of the samples of a distribution.
#[derive(Clone, Debug, PartialEq, Eq)]
pub struct DistributionStatistic {
    pub min: Float64,
    pub max: Float64,
    pub avg: Float64,
    pub sum: Float64,
    pub count: u64,
    pub quantiles: Vec<Quantile>,
}

/// The model of a [`DistributionStatistic`].
pub struct DistributionStatisticView {
    pub min: u64,
    pub max: u64,
    pub avg: u64,
    pub sum: u64,
    pub count: nat,
    pub quantiles: Seq<QuantileView>,
}

impl View for DistributionStatistic {
    type V = DistributionStatisticView;

    open spec fn view(&self) -> DistributionStatisticView {
        DistributionStatisticView {
            min: self.min.bits,
            max: self.max.bits,
            avg: self.avg.bits,
            sum: self.sum.bits,
            count: self.count as nat,
            quantiles: views(self.quantiles@),
        }
    }
}

/// What a sketch knows of the values it has taken in. The quantiles are those of
/// [`DISTRIBUTION_PERCENTILES`](crate::request_builder::DISTRIBUTION_PERCENTILES), in that
/// order. What an empty sketch does not know is `None`.
#[derive(Clone, Debug, PartialEq, Eq)]
pub struct SketchSummary {
    pub count: u32,
    pub min: Option<Float64>,
    pub max: Option<Float64>,
    pub sum: Option<Float64>,
    pub avg: Option<Float64>,
    pub quantiles: [Option<Float64>; 5],
}

/// The value of a metric.
#[derive(Clone, Debug, PartialEq, Eq)]
pub enum MetricValue {
    Counter { value: Float64 },
    Gauge { value: Float64 },
    /// The distinct texts that were seen.
    ValueSet { values: Vec<String> },
    /// The statistics of the samples; `None` where there are none to compute them from.
    Distribution { statistics: Option<DistributionStatistic> },
    AggregatedHistogram { buckets: Vec<Bucket>, count: u64, sum: Float64 },
    AggregatedSummary { quantiles: Vec<Quantile>, count: u64, sum: Float64 },
    Sketch { sketch: SketchSummary },
}

/// The model of a [`MetricValue`].
pub enum MetricValueView {
    Counter { value: u64 },
    Gauge { value: u64 },
    ValueSet { values: Seq<Seq<char>> },
    Distribution { statistics: Option<DistributionStatisticView> },
    AggregatedHistogram { buckets: Seq<BucketView>, count: nat, sum: u64 },
    AggregatedSummary { quantiles: Seq<QuantileView>, count: nat, sum: u64 },
    Sketch { sketch: SketchSummary },
}

impl View for MetricValue {
    type V = MetricValueView;

    open spec fn view(&self) -> MetricValueView {
        match *self {
            MetricValue::Counter { value } => MetricValueView::Counter { value: value.bits },
            MetricValue::Gauge { value } => MetricValueView::Gauge { value: value.bits },
            MetricValue::ValueSet { values } => MetricValueView::ValueSet { values: views(values@) },
            MetricValue::Distribution { statistics } => MetricValueView::Distribution {
                statistics: view_option(statistics),
            },
            MetricValue::AggregatedHistogram { buckets, count, sum } => {
                MetricValueView::AggregatedHistogram {
                    buckets: views(buckets@),
                    count: count as nat,
                    sum: sum.bits,
                }
            },
            MetricValue::AggregatedSummary { quantiles, count, sum } => {
                MetricValueView::AggregatedSummary {
                    quantiles: views(quantiles@),
                    count: count as nat,
                    sum: sum.bits,
                }
            },
            MetricValue::Sketch { sketch } => MetricValueView::Sketch { sketch },
        }
    }
}

/// A metric.
#[derive(Clone, Debug, PartialEq, Eq)]
pub struct Metric {
    pub name: String,
    pub namespace: Option<String>,
    pub timestamp: Option<Timestamp>,
    pub kind: MetricKind,
    /// The tags that have a single value, in the order in which the metric gives them.
    pub tags: Option<Vec<Tag>>,
    pub value: MetricValue,
}

/// The model of a [`Metric`].
pub struct MetricView {
    pub name: Seq<char>,
    pub namespace: Option<Seq<char>>,
    pub timestamp: Option<Timestamp>,
    pub kind: MetricKind,
    pub tags: Seq<TagView>,
    pub value: MetricValueView,
}

impl View for Metric {
    type V = MetricView;

    open spec fn view(&self) -> MetricView {
        MetricView {
            name: self.name@,
            namespace: view_option(self.namespace),
            timestamp: self.timestamp,
            kind: self.kind,
            tags: match self.tags {
                Some(tags) => views(tags@),
                None => Seq::empty(),
            },
            value: self.value@,
        }
    }
}

impl MetricView {
    /// No two tags share a key, and a set holds no text twice.
    pub open spec fn well_formed(self) -> bool {
        &&& forall|i: int, j: int|
            0 <= i < j < self.tags.len() ==> (#[trigger] self.tags[i]).key != (
            #[trigger] self.tags[j]).key
        &&& self.value matches MetricValueView::ValueSet { values } ==> values.no_duplicates()
    }
}

}
