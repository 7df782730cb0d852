//! What a metric becomes: the columns of its row, the table that the row goes into, and the
//! request that inserts it.
use crate::metric::{
    BucketView, DistributionStatisticView, MetricValueView, MetricView, QuantileView,
    SketchSummary, TagView,
};
use crate::number::{is_float_text, FieldValueView, Float64};
use crate::pattern::patterns_match;
use crate::request_builder::{
    OptionsView, Placement, DISTRIBUTION_PERCENTILES, LEGACY_TIME_INDEX_COLUMN_NAME,
    LEGACY_VALUE_COLUMN_NAME, TIME_INDEX_COLUMN_NAME, VALUE_COLUMN_NAME,
};
use crate::row::{
    field_column, one_row_request, text_column, time_column, Column, RowInsertRequestView,
};
use crate::template::{table_error, TemplateRenderingErrorView};
use crate::timestamp::{is_reading, unix_millis};
use vstd::prelude::*;

verus! {

/// The name of the time index column.
pub open spec fn time_index_name(options: OptionsView) -> Seq<char> {
    if options.use_new_naming {
        TIME_INDEX_COLUMN_NAME@
    } else {
        LEGACY_TIME_INDEX_COLUMN_NAME@
    }
}

/// The name of the column that holds the one value of a metric.
pub open spec fn value_name(options: OptionsView) -> Seq<char> {
    if options.use_new_naming {
        VALUE_COLUMN_NAME@
    } else {
        LEGACY_VALUE_COLUMN_NAME@
    }
}

/// The name of a metric, behind its namespace and an underscore where it has one.
pub open spec fn default_table_name(metric: MetricView) -> Seq<char> {
    match metric.namespace {
        Some(namespace) => namespace + "_"@ + metric.name,
        None => metric.name,
    }
}

/// The table of a metric: what the table template renders to, or the default name where there
/// is no template or it fails to render.
pub open spec fn table_name_of(
    metric: MetricView,
    options: OptionsView,
    rendered_table: Option<Seq<char>>,
) -> Seq<char> {
    if options.table is Some && rendered_table is Some {
        rendered_table->0
    } else {
        default_table_name(metric)
    }
}

/// What is reported of rendering the table template, where there is one: that it failed, if it
/// did.
pub open spec fn table_errors(
    options: OptionsView,
    rendered_table: Option<Result<Seq<char>, Seq<char>>>,
) -> Seq<TemplateRenderingErrorView> {
    match rendered_table {
        Some(Err(error)) if options.table is Some => seq![table_error(error)],
        _ => Seq::empty(),
    }
}

/// What becomes of a tag. `matched` says whether one of the patterns matches its key.
pub open spec fn placement(options: OptionsView, tag: TagView, matched: bool) -> Placement {
    if options.tag_columns.contains(tag.key) || matched {
        Placement::Tag
    } else if is_float_text(tag.value) {
        Placement::Field
    } else if options.fallback_behavior is None || options.fallback_behavior == Some("tag"@) {
        Placement::Tag
    } else {
        Placement::Dropped
    }
}

/// The tags with the given placement, in order. `matched` tells of each tag whether one of the
/// patterns matches its key.
pub open spec fn placed(
    options: OptionsView,
    tags: Seq<TagView>,
    matched: Seq<bool>,
    place: Placement,
) -> Seq<(TagView, bool)> {
    tags.zip_with(matched).filter(|tag: (TagView, bool)| placement(options, tag.0, tag.1) == place)
}

/// The columns of the tags that stay tags.
pub open spec fn tag_columns(options: OptionsView, tags: Seq<TagView>, matched: Seq<bool>) -> Seq<
    Column,
> {
    placed(options, tags, matched, Placement::Tag).map_values(
        |tag: (TagView, bool)| text_column(tag.0.key, tag.0.value),
    )
}

/// The columns of the tags that become fields.
pub open spec fn tag_fields(options: OptionsView, tags: Seq<TagView>, matched: Seq<bool>) -> Seq<
    Column,
> {
    placed(options, tags, matched, Placement::Field).map_values(
        |tag: (TagView, bool)| field_column(tag.0.key, FieldValueView::Parsed(tag.0.value)),
    )
}

/// A text, with zeros before it up to a width of two.
pub open spec fn zero_padded(text: Seq<char>) -> Seq<char> {
    if text.len() < 2 {
        Seq::new((2 - text.len()) as nat, |i: int| '0') + text
    } else {
        text
    }
}

/// The name of the column of a quantile.
pub open spec fn percentile_name(percent: Seq<char>) -> Seq<char> {
    "p"@ + zero_padded(percent)
}

/// The name of the column of a histogram bucket.
pub open spec fn bucket_name(upper_limit: Seq<char>) -> Seq<char> {
    "b"@ + upper_limit
}

/// The columns of quantiles.
pub open spec fn quantile_columns(quantiles: Seq<QuantileView>) -> Seq<Column> {
    quantiles.map_values(
        |quantile: QuantileView|
            field_column(percentile_name(quantile.percent), FieldValueView::Given(quantile.value)),
    )
}

/// The columns of histogram buckets.
pub open spec fn bucket_columns(buckets: Seq<BucketView>) -> Seq<Column> {
    buckets.map_values(
        |bucket: BucketView|
            field_column(bucket_name(bucket.upper_limit), FieldValueView::Counted(bucket.count)),
    )
}

/// The columns of how many observations there are, and of their sum.
pub open spec fn total_columns(count: nat, sum: u64) -> Seq<Column> {
    seq![
        field_column("count"@, FieldValueView::Counted(count)),
        field_column("sum"@, FieldValueView::Given(sum)),
    ]
}

/// The columns of a distribution: none at all without statistics.
pub open spec fn distribution_columns(statistics: Option<DistributionStatisticView>) -> Seq<Column> {
    match statistics {
        Some(stats) => seq![
            field_column("min"@, FieldValueView::Given(stats.min)),
            field_column("max"@, FieldValueView::Given(stats.max)),
            field_column("avg"@, FieldValueView::Given(stats.avg)),
            field_column("sum"@, FieldValueView::Given(stats.sum)),
            field_column("count"@, FieldValueView::Counted(stats.count)),
        ] + quantile_columns(stats.quantiles),
        None => Seq::empty(),
    }
}

/// The column of a value that is known, or none.
pub open spec fn known_column(name: Seq<char>, value: Option<Float64>) -> Seq<Column> {
    match value {
        Some(value) => seq![field_column(name, FieldValueView::Given(value.bits))],
        None => Seq::empty(),
    }
}

/// The columns of the first `n` quantiles of a sketch, as far as they are known.
pub open spec fn sketch_quantile_columns(quantiles: Seq<Option<Float64>>, n: nat) -> Seq<Column>
    decreases n,
{
    if n == 0 {
        Seq::empty()
    } else {
        sketch_quantile_columns(quantiles, (n - 1) as nat) + known_column(
            percentile_name(DISTRIBUTION_PERCENTILES@[n - 1]@),
            quantiles[n - 1],
        )
    }
}

/// The columns of a sketch.
pub open spec fn sketch_columns(sketch: SketchSummary) -> Seq<Column> {
    seq![field_column("count"@, FieldValueView::Counted(sketch.count as nat))] + known_column(
        "min"@,
        sketch.min,
    ) + known_column("max"@, sketch.max) + known_column("sum"@, sketch.sum) + known_column(
        "avg"@,
        sketch.avg,
    ) + sketch_quantile_columns(sketch.quantiles@, 5)
}

/// The columns of the value of a metric.
pub open spec fn value_columns(options: OptionsView, value: MetricValueView) -> Seq<Column> {
    match value {
        MetricValueView::Counter { value } => seq![
            field_column(value_name(options), FieldValueView::Given(value)),
        ],
        MetricValueView::Gauge { value } => seq![
            field_column(value_name(options), FieldValueView::Given(value)),
        ],
        MetricValueView::ValueSet { values } => seq![
            field_column(value_name(options), FieldValueView::Counted(values.len())),
        ],
        MetricValueView::Distribution { statistics } => distribution_columns(statistics),
        MetricValueView::AggregatedHistogram { buckets, count, sum } => bucket_columns(buckets)
            + total_columns(count, sum),
        MetricValueView::AggregatedSummary { quantiles, count, sum } => quantile_columns(quantiles)
            + total_columns(count, sum),
        MetricValueView::Sketch { sketch } => sketch_columns(sketch),
    }
}

/// The milliseconds that the time index holds: those of the metric's own timestamp, or `now`
/// where it has none.
pub open spec fn time_index_millis(metric: MetricView, now: int) -> int {
    match metric.timestamp {
        Some(timestamp) => unix_millis(
            timestamp.spec_seconds() as int,
            timestamp.spec_nanos() as int,
        ),
        None => now,
    }
}

/// All columns of a metric: the time index, the tags that stay tags, the tags that become
/// fields, and the value.
pub open spec fn wide_columns(
    metric: MetricView,
    options: OptionsView,
    now: int,
    matched: Seq<bool>,
) -> Seq<Column> {
    seq![time_column(time_index_name(options), time_index_millis(metric, now))] + tag_columns(
        options,
        metric.tags,
        matched,
    ) + tag_fields(options, metric.tags, matched) + value_columns(options, metric.value)
}

/// The request that inserts a metric as one row.
pub open spec fn wide_insert(
    metric: MetricView,
    options: OptionsView,
    rendered_table: Option<Seq<char>>,
    now: int,
    matched: Seq<bool>,
) -> RowInsertRequestView {
    one_row_request(
        table_name_of(metric, options, rendered_table),
        wide_columns(metric, options, now, matched),
    )
}

/// Of each tag, whether one of the patterns in the options matches its key.
pub open spec fn matched_tags(options: OptionsView, tags: Seq<TagView>) -> Seq<bool> {
    tags.map_values(|tag: TagView| patterns_match(options.tag_column_patterns, tag.key))
}

/// A request is what a metric becomes at some reading of the clock. A metric that has a
/// timestamp does not depend on the clock.
pub open spec fn inserts(
    request: RowInsertRequestView,
    metric: MetricView,
    options: OptionsView,
    rendered_table: Option<Seq<char>>,
) -> bool {
    exists|seconds: int, nanos: int|
        #[trigger] is_reading(seconds, nanos) && request == wide_insert(
            metric,
            options,
            rendered_table,
            unix_millis(seconds, nanos),
            matched_tags(options, metric.tags),
        )
}

}
