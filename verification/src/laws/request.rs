//! What a request holds, read off the request itself and the metric itself.
use super::{lemma_listed, lemma_places, lemma_value_columns_are_fields, places};
use crate::metric::{DistributionStatistic, Metric, MetricValue, SketchSummary, TagView};
use crate::model::views;
use crate::number::{is_float_text, FieldValue, FieldValueView, Float64};
use crate::request_builder::{Placement, WideRequestBuilderOptions, DISTRIBUTION_PERCENTILES};
use crate::row::{
    extends, field_column, field_schema, schemas, tag_schema, text_column, time_schema, values,
    Column, ColumnDataType, ColumnSchema, RowInsertRequest, SemanticType, Value, ValueData,
};
use crate::wide::{
    bucket_name, known_column, percentile_name, placement, quantile_columns, sketch_columns,
    sketch_quantile_columns, value_columns, wide_columns, wide_insert,
};
use vstd::prelude::*;

verus! {

/// The schema and the one row of a request, column by column.
proof fn lemma_columns(
    request: RowInsertRequest,
    metric: Metric,
    options: WideRequestBuilderOptions,
    name: Option<Seq<char>>,
    now: int,
    matched: Seq<bool>,
)
    requires
        request@ == wide_insert(metric@, options@, name, now, matched),
    ensures
        ({
            let columns = wide_columns(metric@, options@, now, matched);
            let schema = request.rows->0.schema@;
            let row = request.rows->0.rows@[0].values@;
            &&& request.rows is Some
            &&& request.rows->0.rows@.len() == 1
            &&& schema.len() == columns.len()
            &&& row.len() == columns.len()
            &&& forall|k: int|
                0 <= k < columns.len() ==> (#[trigger] schema[k])@ == columns[k].schema
            &&& forall|k: int| 0 <= k < columns.len() ==> (#[trigger] row[k])@ == columns[k].value
        }),
{
    let columns = wide_columns(metric@, options@, now, matched);
    let view = request@.rows->0;
    let rows = request.rows->0;
    assert(rows@ == view);
    assert(view.schema.len() == columns.len() && rows.schema@.len() == view.schema.len());
    assert(view.rows.len() == 1 && rows.rows@.len() == view.rows.len());
    assert(view.rows[0] == rows.rows@[0]@);
    assert(view.rows[0].len() == columns.len());
    assert(rows.rows@[0]@.len() == rows.rows@[0].values@.len());
    assert forall|k: int| 0 <= k < columns.len() implies (#[trigger] rows.schema@[k])@
        == columns[k].schema by {
        assert(view.schema[k] == rows.schema@[k]@);
    }
    assert forall|k: int| 0 <= k < columns.len() implies (#[trigger] rows.rows@[0].values@[k])@
        == columns[k].value by {
        assert(rows.rows@[0]@[k] == rows.rows@[0].values@[k]@);
    }
}

/// The schemas of the three roles: a field holds a float, a time index milliseconds and a tag
/// text, under the given name.
pub proof fn law_schemas(
    field: ColumnSchema,
    time_index: ColumnSchema,
    tag: ColumnSchema,
    name: Seq<char>,
)
    requires
        field@ == field_schema(name),
        time_index@ == time_schema(name),
        tag@ == tag_schema(name),
    ensures
        field.column_name@ == name,
        field.semantic_type == SemanticType::Field,
        field.datatype == ColumnDataType::Float64,
        time_index.column_name@ == name,
        time_index.semantic_type == SemanticType::Timestamp,
        time_index.datatype == ColumnDataType::TimestampMillisecond,
        tag.column_name@ == name,
        tag.semantic_type == SemanticType::Tag,
        tag.datatype == ColumnDataType::String,
{
}

/// Encoding appends: what was in the schema and in the row stays there, and as many columns come
/// behind it as are added, to both alike.
pub proof fn law_encoding_appends(
    before: (Seq<ColumnSchema>, Seq<Value>),
    after: (Seq<ColumnSchema>, Seq<Value>),
    added: Seq<Column>,
)
    requires
        extends(before.0, before.1, after.0, after.1, added),
    ensures
        after.0.len() == before.0.len() + added.len(),
        after.1.len() == before.1.len() + added.len(),
        forall|k: int|
            0 <= k < before.0.len() ==> (#[trigger] after.0[k]).column_name@
                == before.0[k].column_name@ && after.0[k].semantic_type == before.0[k].semantic_type
                && after.0[k].datatype == before.0[k].datatype,
        forall|k: int| 0 <= k < before.1.len() ==> (#[trigger] after.1[k])@ == before.1[k]@,
        forall|j: int|
            0 <= j < added.len() ==> after.0[before.0.len() + j]@ == (#[trigger] added[j]).schema
                && after.1[before.1.len() + j]@ == added[j].value,
{
    assert(views(after.0).len() == after.0.len() && views(after.1).len() == after.1.len());
    assert(views(before.0).len() == before.0.len() && views(before.1).len() == before.1.len());
    assert forall|k: int| 0 <= k < before.0.len() implies (#[trigger] after.0[k])@ == before.0[k]@ by {
        assert(views(after.0)[k] == views(before.0)[k]);
    }
    assert forall|k: int| 0 <= k < before.1.len() implies (#[trigger] after.1[k])@ == before.1[k]@ by {
        assert(views(after.1)[k] == views(before.1)[k]);
    }
    assert forall|j: int| 0 <= j < added.len() implies after.0[before.0.len() + j]@ == (
    #[trigger] added[j]).schema && after.1[before.1.len() + j]@ == added[j].value by {
        assert(views(after.0)[before.0.len() + j] == schemas(added)[j]);
        assert(views(after.1)[before.1.len() + j] == values(added)[j]);
    }
}

/// Encoding a field appends one column with its name and its value.
pub proof fn law_encoding_a_field(
    before: (Seq<ColumnSchema>, Seq<Value>),
    after: (Seq<ColumnSchema>, Seq<Value>),
    name: Seq<char>,
    value: FieldValue,
)
    requires
        extends(before.0, before.1, after.0, after.1, seq![field_column(name, value@)]),
    ensures
        ({
            let column = after.0[before.0.len() as int];
            &&& after.0.len() == before.0.len() + 1
            &&& after.1.len() == before.1.len() + 1
            &&& column.column_name@ == name
            &&& column.semantic_type == SemanticType::Field
            &&& column.datatype == ColumnDataType::Float64
            &&& after.1[before.1.len() as int].value_data matches Some(ValueData::F64Value(field))
            &&& match value {
                FieldValue::Given(_) => field == value,
                FieldValue::Counted(_) => field == value,
                FieldValue::Parsed(text) => field matches FieldValue::Parsed(same) && same@ == text@,
            }
        }),
{
    let added = seq![field_column(name, value@)];
    law_encoding_appends(before, after, added);
    assert(after.0[before.0.len() as int]@ == added[0].schema);
    assert(after.1[before.1.len() as int]@ == added[0].value);
}

/// The first column is the time index: it is named `ts`, or `greptime_timestamp` with the new
/// naming, and holds milliseconds, a thousand for each second of the metric's timestamp and one
/// for each full million of its nanoseconds. A metric without a timestamp has the given time.
pub proof fn law_time_index_of_a_row(
    request: RowInsertRequest,
    metric: Metric,
    options: WideRequestBuilderOptions,
    name: Option<Seq<char>>,
    now: int,
    matched: Seq<bool>,
)
    requires
        request@ == wide_insert(metric@, options@, name, now, matched),
    ensures
        ({
            let schema = request.rows->0.schema@;
            let row = request.rows->0.rows@[0].values@;
            &&& request.rows is Some
            &&& request.rows->0.rows@.len() == 1
            &&& row.len() == schema.len()
            &&& schema.len() > 0
            &&& options.use_new_naming ==> schema[0].column_name@ == "greptime_timestamp"@
            &&& !options.use_new_naming ==> schema[0].column_name@ == "ts"@
            &&& schema[0].semantic_type == SemanticType::Timestamp
            &&& schema[0].datatype == ColumnDataType::TimestampMillisecond
            &&& row[0].value_data matches Some(ValueData::TimestampMillisecondValue(millis))
            &&& match metric.timestamp {
                Some(timestamp) => millis == timestamp.spec_seconds() * 1000
                    + timestamp.spec_nanos() as int / 1_000_000,
                None => millis == now,
            }
        }),
{
    lemma_columns(request, metric, options, name, now, matched);
    assert(request.rows->0.schema@[0]@ == wide_columns(metric@, options@, now, matched)[0].schema);
    assert(request.rows->0.rows@[0].values@[0]@ == wide_columns(
        metric@,
        options@,
        now,
        matched,
    )[0].value);
}

/// A table name that was rendered is the table of the request, if there is a template for it.
/// Otherwise the table is named by the namespace, an underscore and the name of the metric, or
/// by the name alone where there is no namespace. Nothing else of the metric matters.
pub proof fn law_table_of_a_request(
    request: RowInsertRequest,
    metric: Metric,
    options: WideRequestBuilderOptions,
    name: Option<Seq<char>>,
    now: int,
    matched: Seq<bool>,
)
    requires
        request@ == wide_insert(metric@, options@, name, now, matched),
    ensures
        match (options.table, name, metric.namespace) {
            (Some(_), Some(rendered), _) => request.table_name@ == rendered,
            (_, _, Some(namespace)) => request.table_name@ == namespace@ + seq!['_'] + metric.name@,
            (_, _, None) => request.table_name@ == metric.name@,
        },
{
    reveal_strlit("_");
    assert("_"@ =~= seq!['_']);
}

/// The columns behind the time index are those of the tags, and behind them stand those of the
/// value, as many as its kind calls for.
///
/// The result lists the tags that have a column, in the order of the columns. It lists every tag
/// once that is listed or matched, or is a number, or falls back to a tag, and no other. A tag
/// that is listed or matched, or is no number, has a tag column with its key and its whole text.
/// Any other has a field column with its key and the number that its whole text denotes. Tag
/// columns stand before field columns, and either kind in the order of the tags.
#[verifier::rlimit(60)]
#[verifier::spinoff_prover]
pub proof fn law_tag_columns_of_a_row(
    request: RowInsertRequest,
    metric: Metric,
    options: WideRequestBuilderOptions,
    name: Option<Seq<char>>,
    now: int,
    matched: Seq<bool>,
) -> (origins: Seq<int>)
    requires
        request@ == wide_insert(metric@, options@, name, now, matched),
        matched.len() == (match metric.tags {
            Some(tags) => tags@.len(),
            None => 0,
        }),
    ensures
        ({
            let schema = request.rows->0.schema@;
            let row = request.rows->0.rows@[0].values@;
            let tags = match metric.tags {
                Some(tags) => tags@,
                None => Seq::empty(),
            };
            let kept = |i: int|
                matched[i] || exists|j: int|
                    0 <= j < options.tag_columns@.len() && (#[trigger] options.tag_columns@[j])@
                        == tags[i].key@;
            let number = |i: int| is_float_text(tags[i].value@);
            let falls_back = options.fallback_behavior is None || options.fallback_behavior->0@
                == "tag"@;
            &&& schema.len() == 1 + origins.len() + (match metric.value {
                MetricValue::Counter { .. } => 1,
                MetricValue::Gauge { .. } => 1,
                MetricValue::ValueSet { .. } => 1,
                MetricValue::Distribution { statistics } => match statistics {
                    Some(statistics) => 5 + statistics.quantiles@.len(),
                    None => 0,
                },
                MetricValue::AggregatedHistogram { buckets, .. } => buckets@.len() + 2,
                MetricValue::AggregatedSummary { quantiles, .. } => quantiles@.len() + 2,
                MetricValue::Sketch { sketch } => {
                    let known = |value: Option<Float64>|
                        if value is Some {
                            1nat
                        } else {
                            0nat
                        };
                    1 + known(sketch.min) + known(sketch.max) + known(sketch.sum) + known(sketch.avg)
                        + known(sketch.quantiles@[0]) + known(sketch.quantiles@[1]) + known(
                        sketch.quantiles@[2],
                    ) + known(sketch.quantiles@[3]) + known(sketch.quantiles@[4])
                },
            })
            &&& forall|p: int|
                0 <= p < origins.len() ==> {
                    let i = #[trigger] origins[p];
                    &&& 0 <= i < tags.len()
                    &&& schema[1 + p].column_name@ == tags[i].key@
                    &&& if kept(i) || !number(i) {
                        &&& schema[1 + p].semantic_type == SemanticType::Tag
                        &&& schema[1 + p].datatype == ColumnDataType::String
                        &&& row[1 + p].value_data matches Some(ValueData::StringValue(text))
                        &&& text@ == tags[i].value@
                    } else {
                        &&& schema[1 + p].semantic_type == SemanticType::Field
                        &&& schema[1 + p].datatype == ColumnDataType::Float64
                        &&& row[1 + p].value_data matches Some(
                            ValueData::F64Value(FieldValue::Parsed(text)),
                        )
                        &&& text@ == tags[i].value@
                    }
                }
            &&& forall|i: int|
                0 <= i < tags.len() ==> (#[trigger] origins.contains(i) <==> kept(i) || number(i)
                    || falls_back)
            &&& forall|p: int, q: int|
                0 <= p < q < origins.len() ==> {
                    let i = #[trigger] origins[p];
                    let j = #[trigger] origins[q];
                    let tag_first = kept(i) || !number(i);
                    let tag_second = kept(j) || !number(j);
                    if tag_first == tag_second {
                        i < j
                    } else {
                        tag_first
                    }
                }
        }),
{
    lemma_columns(request, metric, options, name, now, matched);
    let pairs = metric@.tags.zip_with(matched);
    let stays = |tag: (TagView, bool)| placement(options@, tag.0, tag.1) == Placement::Tag;
    let turns = |tag: (TagView, bool)| placement(options@, tag.0, tag.1) == Placement::Field;
    lemma_places(pairs, stays);
    lemma_places(pairs, turns);
    let first = places(pairs, stays);
    let second = places(pairs, turns);
    let origins = first + second;
    let columns = wide_columns(metric@, options@, now, matched);
    let schema = request.rows->0.schema@;
    let row = request.rows->0.rows@[0].values@;
    let tags = match metric.tags {
        Some(tags) => tags@,
        None => Seq::empty(),
    };
    assert(tags.len() == metric@.tags.len());
    assert(forall|i: int| 0 <= i < tags.len() ==> #[trigger] pairs[i] == (tags[i]@, matched[i]));
    lemma_value_columns_count(options, metric.value);
    assert forall|i: int| 0 <= i < tags.len() implies (options@.tag_columns.contains(
        (#[trigger] tags[i]).key@,
    ) <==> exists|j: int|
        0 <= j < options.tag_columns@.len() && (#[trigger] options.tag_columns@[j])@
            == tags[i].key@) by {
        lemma_listed(options, tags[i].key@);
    }
    assert forall|p: int| 0 <= p < origins.len() implies {
        let i = #[trigger] origins[p];
        &&& 0 <= i < tags.len()
        &&& p < first.len() ==> stays(pairs[i]) && columns[1 + p] == text_column(
            tags[i].key@,
            tags[i].value@,
        )
        &&& p >= first.len() ==> turns(pairs[i]) && columns[1 + p] == field_column(
            tags[i].key@,
            FieldValueView::Parsed(tags[i].value@),
        )
    } by {
        if p < first.len() {
            assert(origins[p] == first[p]);
        } else {
            assert(origins[p] == second[p - first.len()]);
        }
    }
    assert forall|p: int| 0 <= p < origins.len() implies (#[trigger] origins[p]) >= 0
        && schema[1 + p]@ == columns[1 + p].schema && row[1 + p]@ == columns[1 + p].value by {
    }
    assert forall|i: int| 0 <= i < tags.len() implies (#[trigger] origins.contains(i) <==> stays(
        pairs[i],
    ) || turns(pairs[i])) by {
        if stays(pairs[i]) {
            assert(first.contains(i));
            let p = choose|p: int| 0 <= p < first.len() && first[p] == i;
            assert(origins[p] == i);
        }
        if turns(pairs[i]) {
            assert(second.contains(i));
            let p = choose|p: int| 0 <= p < second.len() && second[p] == i;
            assert(origins[first.len() + p] == i);
        }
        if origins.contains(i) {
            let p = choose|p: int| 0 <= p < origins.len() && origins[p] == i;
            assert(origins[p] == i);
        }
    }
    assert forall|p: int, q: int| 0 <= p < q < origins.len() implies {
        let i = #[trigger] origins[p];
        let j = #[trigger] origins[q];
        if stays(pairs[i]) == stays(pairs[j]) {
            i < j
        } else {
            stays(pairs[i])
        }
    } by {
        if q < first.len() {
            assert(first[p] < first[q]);
        } else if p >= first.len() {
            assert(second[p - first.len()] < second[q - first.len()]);
        }
    }
    origins
}

/// How many columns a value has.
#[verifier::rlimit(60)]
#[verifier::spinoff_prover]
proof fn lemma_value_columns_count(options: WideRequestBuilderOptions, value: MetricValue)
    ensures
        value_columns(options@, value@).len() == (match value {
            MetricValue::Counter { .. } => 1,
            MetricValue::Gauge { .. } => 1,
            MetricValue::ValueSet { .. } => 1,
            MetricValue::Distribution { statistics } => match statistics {
                Some(statistics) => 5 + statistics.quantiles@.len(),
                None => 0,
            },
            MetricValue::AggregatedHistogram { buckets, .. } => buckets@.len() + 2,
            MetricValue::AggregatedSummary { quantiles, .. } => quantiles@.len() + 2,
            MetricValue::Sketch { sketch } => {
                let known = |value: Option<Float64>|
                    if value is Some {
                        1nat
                    } else {
                        0nat
                    };
                1 + known(sketch.min) + known(sketch.max) + known(sketch.sum) + known(sketch.avg)
                    + known(sketch.quantiles@[0]) + known(sketch.quantiles@[1]) + known(
                    sketch.quantiles@[2],
                ) + known(sketch.quantiles@[3]) + known(sketch.quantiles@[4])
            },
        }),
{
    reveal_with_fuel(sketch_quantile_columns, 6);
}

/// The columns of the value stand at the end of the schema and of the row.
proof fn lemma_value_columns_stand(
    request: RowInsertRequest,
    metric: Metric,
    options: WideRequestBuilderOptions,
    name: Option<Seq<char>>,
    now: int,
    matched: Seq<bool>,
)
    requires
        request@ == wide_insert(metric@, options@, name, now, matched),
    ensures
        ({
            let fields = value_columns(options@, metric.value@);
            let schema = request.rows->0.schema@;
            let row = request.rows->0.rows@[0].values@;
            &&& schema.len() > fields.len()
            &&& row.len() == schema.len()
            &&& forall|j: int|
                0 <= j < fields.len() ==> schema[schema.len() - fields.len() + j]@ == (
                #[trigger] fields[j]).schema && row[schema.len() - fields.len() + j]@
                    == fields[j].value
        }),
{
    lemma_columns(request, metric, options, name, now, matched);
    let fields = value_columns(options@, metric.value@);
    let columns = wide_columns(metric@, options@, now, matched);
    let schema = request.rows->0.schema@;
    let first = columns.len() - fields.len();
    assert forall|j: int| 0 <= j < fields.len() implies schema[first + j]@ == (
    #[trigger] fields[j]).schema && request.rows->0.rows@[0].values@[first + j]@ == fields[j].value by {
        assert(columns[first + j] == fields[j]);
    }
}

/// The last column of a counter, of a gauge and of a set is a field named `val`, or
/// `greptime_value` with the new naming. It holds the value of the counter or gauge, or how many
/// texts there are in the set.
pub proof fn law_one_value_of_a_row(
    request: RowInsertRequest,
    metric: Metric,
    options: WideRequestBuilderOptions,
    name: Option<Seq<char>>,
    now: int,
    matched: Seq<bool>,
)
    requires
        request@ == wide_insert(metric@, options@, name, now, matched),
        metric.value is Counter || metric.value is Gauge || metric.value is ValueSet,
    ensures
        ({
            let schema = request.rows->0.schema@;
            let row = request.rows->0.rows@[0].values@;
            let last = schema.len() - 1;
            &&& schema.len() > 1
            &&& options.use_new_naming ==> schema[last].column_name@ == "greptime_value"@
            &&& !options.use_new_naming ==> schema[last].column_name@ == "val"@
            &&& schema[last].semantic_type == SemanticType::Field
            &&& schema[last].datatype == ColumnDataType::Float64
            &&& row[last].value_data matches Some(ValueData::F64Value(field))
            &&& match metric.value {
                MetricValue::Counter { value } => field == FieldValue::Given(value),
                MetricValue::Gauge { value } => field == FieldValue::Given(value),
                MetricValue::ValueSet { values } => field matches FieldValue::Counted(count) && count
                    == values@.len(),
                _ => false,
            }
        }),
{
    lemma_value_columns_stand(request, metric, options, name, now, matched);
    let field = value_columns(options@, metric.value@)[0];
    assert(request.rows->0.schema@[request.rows->0.schema@.len() - 1]@ == field.schema);
    assert(request.rows->0.rows@[0].values@[request.rows->0.schema@.len() - 1]@ == field.value);
}

/// The last columns of a distribution are fields: `min`, `max`, `avg`, `sum` and `count` with
/// the statistics of those names, and for each quantile, in order, `p` and its rank in percent,
/// with zeros before it up to two characters, with its value.
#[verifier::rlimit(60)]
#[verifier::spinoff_prover]
pub proof fn law_distributions_in_a_row(
    request: RowInsertRequest,
    metric: Metric,
    options: WideRequestBuilderOptions,
    name: Option<Seq<char>>,
    now: int,
    matched: Seq<bool>,
    statistics: DistributionStatistic,
)
    requires
        request@ == wide_insert(metric@, options@, name, now, matched),
        metric.value == (MetricValue::Distribution { statistics: Some(statistics) }),
    ensures
        ({
            let schema = request.rows->0.schema@;
            let row = request.rows->0.rows@[0].values@;
            let quantiles = statistics.quantiles@;
            let first = schema.len() - 5 - quantiles.len();
            &&& first > 0
            &&& schema[first].column_name@ == "min"@
            &&& row[first].value_data == Some(ValueData::F64Value(FieldValue::Given(statistics.min)))
            &&& schema[first + 1].column_name@ == "max"@
            &&& row[first + 1].value_data == Some(
                ValueData::F64Value(FieldValue::Given(statistics.max)),
            )
            &&& schema[first + 2].column_name@ == "avg"@
            &&& row[first + 2].value_data == Some(
                ValueData::F64Value(FieldValue::Given(statistics.avg)),
            )
            &&& schema[first + 3].column_name@ == "sum"@
            &&& row[first + 3].value_data == Some(
                ValueData::F64Value(FieldValue::Given(statistics.sum)),
            )
            &&& schema[first + 4].column_name@ == "count"@
            &&& row[first + 4].value_data == Some(
                ValueData::F64Value(FieldValue::Counted(statistics.count)),
            )
            &&& forall|j: int|
                0 <= j < quantiles.len() ==> {
                    let percent = (#[trigger] quantiles[j]).percent@;
                    &&& percent.len() >= 2 ==> schema[first + 5 + j].column_name@ == seq!['p']
                        + percent
                    &&& percent.len() == 1 ==> schema[first + 5 + j].column_name@ == seq!['p', '0']
                        + percent
                    &&& percent.len() == 0 ==> schema[first + 5 + j].column_name@ == seq![
                        'p',
                        '0',
                        '0',
                    ]
                    &&& row[first + 5 + j].value_data == Some(
                        ValueData::F64Value(FieldValue::Given(quantiles[j].value)),
                    )
                }
            &&& forall|k: int|
                first <= k < schema.len() ==> (#[trigger] schema[k]).semantic_type
                    == SemanticType::Field && schema[k].datatype == ColumnDataType::Float64
        }),
{
    lemma_value_columns_stand(request, metric, options, name, now, matched);
    let fields = value_columns(options@, metric.value@);
    let schema = request.rows->0.schema@;
    let row = request.rows->0.rows@[0].values@;
    let first = schema.len() - fields.len();
    let quantiles = statistics.quantiles@;
    assert(fields.len() == 5 + quantiles.len());
    assert(schema[first]@ == fields[0].schema && row[first]@ == fields[0].value);
    assert(schema[first + 1]@ == fields[1].schema && row[first + 1]@ == fields[1].value);
    assert(schema[first + 2]@ == fields[2].schema && row[first + 2]@ == fields[2].value);
    assert(schema[first + 3]@ == fields[3].schema && row[first + 3]@ == fields[3].value);
    assert(schema[first + 4]@ == fields[4].schema && row[first + 4]@ == fields[4].value);
    assert forall|j: int| 0 <= j < quantiles.len() implies {
        let field = field_column(
            percentile_name((#[trigger] quantiles[j]).percent@),
            FieldValueView::Given(quantiles[j].value.bits),
        );
        schema[first + 5 + j]@ == field.schema && row[first + 5 + j]@ == field.value
    } by {
        assert(quantiles[j]@ == statistics@.quantiles[j]);
        assert(fields[5 + j] == quantile_columns(statistics@.quantiles)[j]);
    }
    assert forall|j: int| 0 <= j < quantiles.len() implies {
        let percent = (#[trigger] quantiles[j]).percent@;
        &&& percent.len() >= 2 ==> percentile_name(percent) == seq!['p'] + percent
        &&& percent.len() == 1 ==> percentile_name(percent) == seq!['p', '0'] + percent
        &&& percent.len() == 0 ==> percentile_name(percent) == seq!['p', '0', '0']
    } by {
        lemma_percentile_name(quantiles[j].percent@);
    }
    assert forall|k: int| first <= k < schema.len() implies (#[trigger] schema[k]).semantic_type
        == SemanticType::Field && schema[k].datatype == ColumnDataType::Float64 by {
        let j = k - first;
        assert(schema[first + j]@ == fields[j].schema);
        if j >= 5 {
            assert(fields[j] == quantile_columns(statistics@.quantiles)[j - 5]);
        }
    }
}

/// The characters of the name of a quantile's column.
proof fn lemma_percentile_name(percent: Seq<char>)
    ensures
        percent.len() >= 2 ==> percentile_name(percent) == seq!['p'] + percent,
        percent.len() == 1 ==> percentile_name(percent) == seq!['p', '0'] + percent,
        percent.len() == 0 ==> percentile_name(percent) == seq!['p', '0', '0'],
{
    reveal_strlit("p");
    if percent.len() >= 2 {
        assert(percentile_name(percent) =~= seq!['p'] + percent);
    } else if percent.len() == 1 {
        assert(percentile_name(percent) =~= seq!['p', '0'] + percent);
    } else {
        assert(percentile_name(percent) =~= seq!['p', '0', '0']);
    }
}

/// The last two columns of a histogram and of a summary are the fields `count` and `sum`, with
/// the metric's own count and sum, whatever its buckets or quantiles are.
pub proof fn law_totals_in_a_row(
    request: RowInsertRequest,
    metric: Metric,
    options: WideRequestBuilderOptions,
    name: Option<Seq<char>>,
    now: int,
    matched: Seq<bool>,
    total: u64,
    total_sum: Float64,
)
    requires
        request@ == wide_insert(metric@, options@, name, now, matched),
        match metric.value {
            MetricValue::AggregatedHistogram { count, sum, .. } => count == total && sum == total_sum,
            MetricValue::AggregatedSummary { count, sum, .. } => count == total && sum == total_sum,
            _ => false,
        },
    ensures
        ({
            let schema = request.rows->0.schema@;
            let row = request.rows->0.rows@[0].values@;
            let last = schema.len() - 1;
            &&& schema.len() > 2
            &&& schema[last - 1].column_name@ == "count"@
            &&& schema[last - 1].semantic_type == SemanticType::Field
            &&& schema[last - 1].datatype == ColumnDataType::Float64
            &&& row[last - 1].value_data == Some(ValueData::F64Value(FieldValue::Counted(total)))
            &&& schema[last].column_name@ == "sum"@
            &&& schema[last].semantic_type == SemanticType::Field
            &&& schema[last].datatype == ColumnDataType::Float64
            &&& row[last].value_data == Some(ValueData::F64Value(FieldValue::Given(total_sum)))
        }),
{
    lemma_value_columns_stand(request, metric, options, name, now, matched);
    let fields = value_columns(options@, metric.value@);
    let schema = request.rows->0.schema@;
    let row = request.rows->0.rows@[0].values@;
    let count = fields[fields.len() - 2];
    let sum = fields[fields.len() - 1];
    assert(count == field_column("count"@, FieldValueView::Counted(total as nat)));
    assert(sum == field_column("sum"@, FieldValueView::Given(total_sum.bits)));
    assert(schema[schema.len() - 2]@ == count.schema && row[schema.len() - 2]@ == count.value);
    assert(schema[schema.len() - 1]@ == sum.schema && row[schema.len() - 1]@ == sum.value);
}

/// Before its last two columns a histogram has a field for each bucket, in order: named `b` and
/// the upper limit of the bucket, with the count of the bucket.
pub proof fn law_buckets_in_a_row(
    request: RowInsertRequest,
    metric: Metric,
    options: WideRequestBuilderOptions,
    name: Option<Seq<char>>,
    now: int,
    matched: Seq<bool>,
    j: int,
)
    requires
        request@ == wide_insert(metric@, options@, name, now, matched),
        metric.value is AggregatedHistogram,
        0 <= j < metric.value->AggregatedHistogram_buckets@.len(),
    ensures
        ({
            let schema = request.rows->0.schema@;
            let row = request.rows->0.rows@[0].values@;
            let buckets = metric.value->AggregatedHistogram_buckets@;
            let k = schema.len() - 2 - buckets.len() + j;
            &&& k > 0
            &&& schema[k].column_name@ == seq!['b'] + buckets[j].upper_limit@
            &&& schema[k].semantic_type == SemanticType::Field
            &&& schema[k].datatype == ColumnDataType::Float64
            &&& row[k].value_data == Some(
                ValueData::F64Value(FieldValue::Counted(buckets[j].count)),
            )
        }),
{
    reveal_strlit("b");
    lemma_value_columns_stand(request, metric, options, name, now, matched);
    let fields = value_columns(options@, metric.value@);
    let schema = request.rows->0.schema@;
    let row = request.rows->0.rows@[0].values@;
    let buckets = metric.value->AggregatedHistogram_buckets@;
    assert("b"@ =~= seq!['b']);
    assert(buckets[j]@ == views(buckets)[j]);
    assert(fields[j] == field_column(
        bucket_name(buckets[j].upper_limit@),
        FieldValueView::Counted(buckets[j].count as nat),
    ));
    let k = schema.len() - 2 - buckets.len() + j;
    assert(schema[k]@ == fields[j].schema && row[k]@ == fields[j].value);
}

/// Before its last two columns a summary has a field for each quantile, in order: named `p` and
/// its rank in percent, with zeros before it up to two characters, with its value.
pub proof fn law_quantiles_in_a_row(
    request: RowInsertRequest,
    metric: Metric,
    options: WideRequestBuilderOptions,
    name: Option<Seq<char>>,
    now: int,
    matched: Seq<bool>,
    j: int,
)
    requires
        request@ == wide_insert(metric@, options@, name, now, matched),
        metric.value is AggregatedSummary,
        0 <= j < metric.value->AggregatedSummary_quantiles@.len(),
    ensures
        ({
            let schema = request.rows->0.schema@;
            let row = request.rows->0.rows@[0].values@;
            let quantiles = metric.value->AggregatedSummary_quantiles@;
            let percent = quantiles[j].percent@;
            let k = schema.len() - 2 - quantiles.len() + j;
            &&& k > 0
            &&& percent.len() >= 2 ==> schema[k].column_name@ == seq!['p'] + percent
            &&& percent.len() == 1 ==> schema[k].column_name@ == seq!['p', '0'] + percent
            &&& percent.len() == 0 ==> schema[k].column_name@ == seq!['p', '0', '0']
            &&& schema[k].semantic_type == SemanticType::Field
            &&& schema[k].datatype == ColumnDataType::Float64
            &&& row[k].value_data == Some(
                ValueData::F64Value(FieldValue::Given(quantiles[j].value)),
            )
        }),
{
    lemma_value_columns_stand(request, metric, options, name, now, matched);
    let fields = value_columns(options@, metric.value@);
    let schema = request.rows->0.schema@;
    let row = request.rows->0.rows@[0].values@;
    let quantiles = metric.value->AggregatedSummary_quantiles@;
    lemma_percentile_name(quantiles[j].percent@);
    assert(quantiles[j]@ == views(quantiles)[j]);
    assert(fields[j] == field_column(
        percentile_name(quantiles[j].percent@),
        FieldValueView::Given(quantiles[j].value.bits),
    ));
    let k = schema.len() - 2 - quantiles.len() + j;
    assert(schema[k]@ == fields[j].schema && row[k]@ == fields[j].value);
}

/// The last columns of a sketch are fields, one behind the other as far as the values are known:
/// `count`, which always is, `min`, `max`, `sum`, `avg`, `p50`, `p75`, `p90`, `p95` and `p99`.
/// Each holds the value of that name.
#[verifier::rlimit(60)]
#[verifier::spinoff_prover]
pub proof fn law_sketches_in_a_row(
    request: RowInsertRequest,
    metric: Metric,
    options: WideRequestBuilderOptions,
    name: Option<Seq<char>>,
    now: int,
    matched: Seq<bool>,
    sketch: SketchSummary,
)
    requires
        request@ == wide_insert(metric@, options@, name, now, matched),
        metric.value == (MetricValue::Sketch { sketch }),
    ensures
        ({
            let schema = request.rows->0.schema@;
            let row = request.rows->0.rows@[0].values@;
            let quantiles = sketch.quantiles@;
            let known = |value: Option<Float64>|
                if value is Some {
                    1int
                } else {
                    0int
                };
            let holds = |k: int, column_name: Seq<char>, value: Option<Float64>|
                value is Some ==> 0 < k < schema.len() && schema[k].column_name@ == column_name
                    && row[k].value_data == Some(ValueData::F64Value(FieldValue::Given(value->0)));
            let total = 1 + known(sketch.min) + known(sketch.max) + known(sketch.sum) + known(
                sketch.avg,
            ) + known(quantiles[0]) + known(quantiles[1]) + known(quantiles[2]) + known(
                quantiles[3],
            ) + known(quantiles[4]);
            let count = schema.len() - total;
            let min = count + 1;
            let max = min + known(sketch.min);
            let sum = max + known(sketch.max);
            let avg = sum + known(sketch.sum);
            let p50 = avg + known(sketch.avg);
            let p75 = p50 + known(quantiles[0]);
            let p90 = p75 + known(quantiles[1]);
            let p95 = p90 + known(quantiles[2]);
            let p99 = p95 + known(quantiles[3]);
            &&& count > 0
            &&& schema[count].column_name@ == "count"@
            &&& row[count].value_data == Some(
                ValueData::F64Value(FieldValue::Counted(sketch.count as u64)),
            )
            &&& holds(min, "min"@, sketch.min)
            &&& holds(max, "max"@, sketch.max)
            &&& holds(sum, "sum"@, sketch.sum)
            &&& holds(avg, "avg"@, sketch.avg)
            &&& holds(p50, "p50"@, quantiles[0])
            &&& holds(p75, "p75"@, quantiles[1])
            &&& holds(p90, "p90"@, quantiles[2])
            &&& holds(p95, "p95"@, quantiles[3])
            &&& holds(p99, "p99"@, quantiles[4])
            &&& forall|k: int|
                count <= k < schema.len() ==> (#[trigger] schema[k]).semantic_type
                    == SemanticType::Field && schema[k].datatype == ColumnDataType::Float64
        }),
{
    lemma_sketch_in_a_row(request, metric, options, name, now, matched, sketch);
    lemma_sketch_values(sketch);
    let list = sketch_values(sketch);
    let schema = request.rows->0.schema@;
    assert(list[0].0 == "min"@ && list[1].0 == "max"@ && list[2].0 == "sum"@ && list[3].0 == "avg"@);
    assert(list[4].0 == "p50"@ && list[5].0 == "p75"@ && list[6].0 == "p90"@);
    assert(list[7].0 == "p95"@ && list[8].0 == "p99"@);
}

/// How many values of a sketch are known before each.
proof fn lemma_sketch_values(sketch: SketchSummary)
    ensures
        ({
            let list = sketch_values(sketch);
            let known = |value: Option<Float64>|
                if value is Some {
                    1int
                } else {
                    0int
                };
            &&& known_before(list, 0) == 0
            &&& known_before(list, 1) == known(sketch.min)
            &&& known_before(list, 2) == known_before(list, 1) + known(sketch.max)
            &&& known_before(list, 3) == known_before(list, 2) + known(sketch.sum)
            &&& known_before(list, 4) == known_before(list, 3) + known(sketch.avg)
            &&& known_before(list, 5) == known_before(list, 4) + known(sketch.quantiles@[0])
            &&& known_before(list, 6) == known_before(list, 5) + known(sketch.quantiles@[1])
            &&& known_before(list, 7) == known_before(list, 6) + known(sketch.quantiles@[2])
            &&& known_before(list, 8) == known_before(list, 7) + known(sketch.quantiles@[3])
            &&& known_before(list, 9) == known_before(list, 8) + known(sketch.quantiles@[4])
        }),
{
    reveal_with_fuel(known_before, 2);
}

/// Where the columns of a sketch stand in the row.
#[verifier::rlimit(60)]
#[verifier::spinoff_prover]
proof fn lemma_sketch_in_a_row(
    request: RowInsertRequest,
    metric: Metric,
    options: WideRequestBuilderOptions,
    name: Option<Seq<char>>,
    now: int,
    matched: Seq<bool>,
    sketch: SketchSummary,
)
    requires
        request@ == wide_insert(metric@, options@, name, now, matched),
        metric.value == (MetricValue::Sketch { sketch }),
    ensures
        ({
            let list = sketch_values(sketch);
            let schema = request.rows->0.schema@;
            let row = request.rows->0.rows@[0].values@;
            let first = schema.len() - 1 - known_before(list, 9);
            &&& first > 0
            &&& schema[first].column_name@ == "count"@
            &&& row[first].value_data == Some(
                ValueData::F64Value(FieldValue::Counted(sketch.count as u64)),
            )
            &&& forall|j: int|
                0 <= j < 9 && (#[trigger] list[j]).1 is Some ==> {
                    let k = first + 1 + known_before(list, j as nat);
                    &&& first < k < schema.len()
                    &&& schema[k].column_name@ == list[j].0
                    &&& row[k].value_data == Some(
                        ValueData::F64Value(FieldValue::Given(list[j].1->0)),
                    )
                }
            &&& forall|k: int|
                first <= k < schema.len() ==> (#[trigger] schema[k]).semantic_type
                    == SemanticType::Field && schema[k].datatype == ColumnDataType::Float64
        }),
{
    lemma_value_columns_stand(request, metric, options, name, now, matched);
    lemma_value_columns_are_fields(options@, metric.value@);
    lemma_sketch_columns(sketch);
    let list = sketch_values(sketch);
    lemma_known_count(list, 9);
    let fields = value_columns(options@, metric.value@);
    let schema = request.rows->0.schema@;
    let row = request.rows->0.rows@[0].values@;
    let first = schema.len() - fields.len();
    assert(fields == sketch_columns(sketch));
    assert(fields[0] == field_column("count"@, FieldValueView::Counted(sketch.count as nat)));
    assert(schema[first]@ == fields[0].schema && row[first]@ == fields[0].value);
    assert forall|j: int| 0 <= j < 9 && (#[trigger] list[j]).1 is Some implies {
        let k = first + 1 + known_before(list, j as nat);
        &&& first < k < schema.len()
        &&& schema[k].column_name@ == list[j].0
        &&& row[k].value_data == Some(ValueData::F64Value(FieldValue::Given(list[j].1->0)))
    } by {
        lemma_known_column(list, j, 9);
        let at: int = 1int + known_before(list, j as nat);
        assert(fields[at] == known_columns(list, 9)[at - 1]);
        assert(schema[first + at]@ == fields[at].schema && row[first + at]@ == fields[at].value);
    }
    assert forall|k: int| first <= k < schema.len() implies (#[trigger] schema[k]).semantic_type
        == SemanticType::Field && schema[k].datatype == ColumnDataType::Float64 by {
        let at = k - first;
        assert(schema[first + at]@ == fields[at].schema);
    }
}

/// The values that a sketch may know, with the names of their columns.
spec fn sketch_values(sketch: SketchSummary) -> Seq<(Seq<char>, Option<Float64>)> {
    seq![
        ("min"@, sketch.min),
        ("max"@, sketch.max),
        ("sum"@, sketch.sum),
        ("avg"@, sketch.avg),
        ("p50"@, sketch.quantiles@[0]),
        ("p75"@, sketch.quantiles@[1]),
        ("p90"@, sketch.quantiles@[2]),
        ("p95"@, sketch.quantiles@[3]),
        ("p99"@, sketch.quantiles@[4]),
    ]
}

/// The columns of the first `n` values in a list, as far as they are known.
spec fn known_columns(list: Seq<(Seq<char>, Option<Float64>)>, n: nat) -> Seq<Column>
    decreases n,
{
    if n == 0 {
        Seq::empty()
    } else {
        known_columns(list, (n - 1) as nat) + known_column(list[n - 1].0, list[n - 1].1)
    }
}

/// How many of the first `n` values in a list are known.
spec fn known_before(list: Seq<(Seq<char>, Option<Float64>)>, n: nat) -> nat
    decreases n,
{
    if n == 0 {
        0
    } else {
        known_before(list, (n - 1) as nat) + if list[n - 1].1 is Some {
            1nat
        } else {
            0nat
        }
    }
}

/// A known value has its column behind those of the known values before it.
proof fn lemma_known_column(list: Seq<(Seq<char>, Option<Float64>)>, j: int, n: nat)
    requires
        0 <= j < n,
        list[j].1 is Some,
    ensures
        known_before(list, j as nat) < known_columns(list, n).len(),
        known_columns(list, n)[known_before(list, j as nat) as int] == field_column(
            list[j].0,
            FieldValueView::Given(list[j].1->0.bits),
        ),
    decreases n,
{
    lemma_known_count(list, (n - 1) as nat);
    if j < n - 1 {
        lemma_known_column(list, j, (n - 1) as nat);
    }
}

/// There are as many columns as known values.
proof fn lemma_known_count(list: Seq<(Seq<char>, Option<Float64>)>, n: nat)
    ensures
        known_columns(list, n).len() == known_before(list, n),
    decreases n,
{
    if n > 0 {
        lemma_known_count(list, (n - 1) as nat);
    }
}

/// The columns of a sketch are that of the count and those of the known values.
#[verifier::rlimit(60)]
#[verifier::spinoff_prover]
proof fn lemma_sketch_columns(sketch: SketchSummary)
    ensures
        sketch_columns(sketch) == seq![
            field_column("count"@, FieldValueView::Counted(sketch.count as nat)),
        ] + known_columns(sketch_values(sketch), 9),
{
    let list = sketch_values(sketch);
    let quantiles = sketch.quantiles@;
    let count = seq![field_column("count"@, FieldValueView::Counted(sketch.count as nat))];
    lemma_percent_names();
    assert(known_columns(list, 4) =~= known_column("min"@, sketch.min) + known_column(
        "max"@,
        sketch.max,
    ) + known_column("sum"@, sketch.sum) + known_column("avg"@, sketch.avg)) by {
        reveal_with_fuel(known_columns, 5);
    }
    lemma_sketch_quantiles(sketch, 5);
    assert(sketch_columns(sketch) =~= count + (known_columns(list, 4) + sketch_quantile_columns(
        quantiles,
        5,
    )));
}

/// The quantiles of a sketch come behind the first four values.
proof fn lemma_sketch_quantiles(sketch: SketchSummary, n: nat)
    requires
        n <= 5,
    ensures
        known_columns(sketch_values(sketch), 4 + n) == known_columns(sketch_values(sketch), 4)
            + sketch_quantile_columns(sketch.quantiles@, n),
    decreases n,
{
    let list = sketch_values(sketch);
    let first = known_columns(list, 4);
    if n == 0 {
        assert(first =~= first + sketch_quantile_columns(sketch.quantiles@, 0));
    } else {
        lemma_sketch_quantiles(sketch, (n - 1) as nat);
        lemma_percent_names();
        let rest = sketch_quantile_columns(sketch.quantiles@, (n - 1) as nat);
        let last = known_column(list[n + 3int].0, list[n + 3int].1);
        assert(list[n + 3int].0 == percentile_name(DISTRIBUTION_PERCENTILES@[n - 1]@));
        assert(list[n + 3int].1 == sketch.quantiles@[n - 1]);
        assert(first + rest + last =~= first + (rest + last));
    }
}

/// The names of the columns of the quantiles of a sketch.
proof fn lemma_percent_names()
    ensures
        percentile_name(DISTRIBUTION_PERCENTILES@[0]@) == "p50"@,
        percentile_name(DISTRIBUTION_PERCENTILES@[1]@) == "p75"@,
        percentile_name(DISTRIBUTION_PERCENTILES@[2]@) == "p90"@,
        percentile_name(DISTRIBUTION_PERCENTILES@[3]@) == "p95"@,
        percentile_name(DISTRIBUTION_PERCENTILES@[4]@) == "p99"@,
{
    reveal_strlit("p");
    reveal_strlit("50");
    reveal_strlit("75");
    reveal_strlit("90");
    reveal_strlit("95");
    reveal_strlit("99");
    reveal_strlit("p50");
    reveal_strlit("p75");
    reveal_strlit("p90");
    reveal_strlit("p95");
    reveal_strlit("p99");
    assert(percentile_name(DISTRIBUTION_PERCENTILES@[0]@) =~= "p50"@);
    assert(percentile_name(DISTRIBUTION_PERCENTILES@[1]@) =~= "p75"@);
    assert(percentile_name(DISTRIBUTION_PERCENTILES@[2]@) =~= "p90"@);
    assert(percentile_name(DISTRIBUTION_PERCENTILES@[3]@) =~= "p95"@);
    assert(percentile_name(DISTRIBUTION_PERCENTILES@[4]@) =~= "p99"@);
}

}
