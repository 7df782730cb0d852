//! What holds of every metric, every batch and all options.
pub mod batch;
pub mod insert;
pub mod number;
pub mod request;
pub mod settings;
pub mod time;

use crate::metric::{BucketView, MetricValueView, MetricView, QuantileView, TagView};
use crate::model::{lemma_contains_push, lemma_filter_push, views};
use crate::number::{is_float_text, FieldValueView, Float64};
use crate::pattern::{pattern_compiles, pattern_texts, patterns_match};
use crate::request_builder::{
    OptionsView, Placement, WideRequestBuilderOptions, DISTRIBUTION_STAT_FIELD_COUNT,
    SUMMARY_STAT_FIELD_COUNT,
};
use crate::row::{
    extends, field_column, lemma_extends_by_nothing, lemma_extends_twice, text_column, values,
    Column, ColumnDataType, ColumnSchema, RowInsertRequestView, SemanticType, Value, ValueDataView,
};
use crate::sink::{
    answers, batch_errors, database_names, dbname_errors, for_database, group_errors, groups,
    lemma_database_names, DatabaseGroupView, GreptimeDBGrpcRequest, RenderedMetricView,
};
use crate::template::{dbname_error, rendered_name, TemplateRenderingErrorView};
use crate::timestamp::{is_reading, unix_millis};
use crate::wide::{
    bucket_columns, default_table_name, inserts, matched_tags, placed, placement,
    quantile_columns, sketch_columns, sketch_quantile_columns, table_errors, table_name_of,
    tag_columns, tag_fields, time_index_name, value_columns, value_name, wide_columns, wide_insert,
};
use vstd::prelude::*;

verus! {

/// A column whose role, type and value go together: a time index holds milliseconds, a tag
/// holds text, a field holds a float. No value is null.
pub open spec fn is_coherent(column: Column) -> bool {
    match column.schema.semantic_type {
        SemanticType::Timestamp => column.schema.datatype == ColumnDataType::TimestampMillisecond
            && column.value is Some && column.value->0 is TimestampMillisecondValue,
        SemanticType::Tag => column.schema.datatype == ColumnDataType::String && column.value is Some
            && column.value->0 is StringValue,
        SemanticType::Field => column.schema.datatype == ColumnDataType::Float64
            && column.value is Some && column.value->0 is F64Value,
    }
}

/// All columns are fields that came as floats or counts.
spec fn are_fields(columns: Seq<Column>) -> bool {
    forall|i: int|
        0 <= i < columns.len() ==> is_coherent(#[trigger] columns[i])
            && columns[i].schema.semantic_type == SemanticType::Field
            && columns[i].value->0->F64Value_0 !is Parsed
}

/// The columns of the quantiles of a sketch are fields, and no more than the quantiles.
proof fn lemma_sketch_quantile_columns(quantiles: Seq<Option<Float64>>, n: nat)
    ensures
        are_fields(sketch_quantile_columns(quantiles, n)),
        sketch_quantile_columns(quantiles, n).len() <= n,
    decreases n,
{
    if n > 0 {
        lemma_sketch_quantile_columns(quantiles, (n - 1) as nat);
    }
}

/// The columns of a value are fields.
proof fn lemma_value_columns_are_fields(options: OptionsView, value: MetricValueView)
    ensures
        are_fields(value_columns(options, value)),
{
    match value {
        MetricValueView::Sketch { sketch } => {
            lemma_sketch_quantile_columns(sketch.quantiles@, 5);
            let first = sketch_columns(sketch).take(
                sketch_columns(sketch).len() - sketch_quantile_columns(sketch.quantiles@, 5).len(),
            );
            assert(are_fields(first));
            assert(sketch_columns(sketch) =~= first + sketch_quantile_columns(
                sketch.quantiles@,
                5,
            ));
        },
        _ => {},
    }
}

/// Every column is coherent, and there is one row with one value for each column.
pub proof fn law_one_row_of_coherent_columns(
    metric: MetricView,
    options: OptionsView,
    rendered_table: Option<Seq<char>>,
    now: int,
    matched: Seq<bool>,
)
    ensures
        ({
            let rows = wide_insert(metric, options, rendered_table, now, matched).rows;
            &&& rows is Some
            &&& rows->0.rows.len() == 1
            &&& rows->0.rows[0].len() == rows->0.schema.len()
            &&& forall|i: int|
                0 <= i < rows->0.schema.len() ==> is_coherent(
                    Column { schema: #[trigger] rows->0.schema[i], value: rows->0.rows[0][i] },
                )
        }),
{
    let columns = wide_columns(metric, options, now, matched);
    let rows = wide_insert(metric, options, rendered_table, now, matched).rows->0;
    lemma_value_columns_are_fields(options, metric.value);
    assert forall|i: int| 0 <= i < rows.schema.len() implies is_coherent(
        Column { schema: #[trigger] rows.schema[i], value: rows.rows[0][i] },
    ) by {
        assert(rows.schema[i] == columns[i].schema);
        assert(rows.rows[0][i] == columns[i].value);
        assert(is_coherent(columns[i]));
    }
}

/// The time index is the first column, and there is no other.
pub proof fn law_one_time_index(
    metric: MetricView,
    options: OptionsView,
    now: int,
    matched: Seq<bool>,
)
    ensures
        wide_columns(metric, options, now, matched).len() > 0,
        wide_columns(metric, options, now, matched)[0].schema.column_name == time_index_name(options),
        forall|i: int|
            0 <= i < wide_columns(metric, options, now, matched).len() ==> (#[trigger] wide_columns(
                metric,
                options,
                now,
                matched,
            )[i].schema.semantic_type == SemanticType::Timestamp <==> i == 0),
{
    lemma_value_columns_are_fields(options, metric.value);
}

/// All tag columns stand before all field columns.
pub proof fn law_tags_before_fields(
    metric: MetricView,
    options: OptionsView,
    now: int,
    matched: Seq<bool>,
    i: int,
    j: int,
)
    requires
        0 <= i < wide_columns(metric, options, now, matched).len(),
        0 <= j < wide_columns(metric, options, now, matched).len(),
        wide_columns(metric, options, now, matched)[i].schema.semantic_type == SemanticType::Tag,
        wide_columns(metric, options, now, matched)[j].schema.semantic_type == SemanticType::Field,
    ensures
        i < j,
{
    lemma_value_columns_are_fields(options, metric.value);
}

/// A tag is among the tags with its placement.
proof fn lemma_placed_contains(
    options: OptionsView,
    tags: Seq<TagView>,
    matched: Seq<bool>,
    i: int,
)
    requires
        0 <= i < tags.len(),
        matched.len() == tags.len(),
    ensures
        placed(options, tags, matched, placement(options, tags[i], matched[i])).contains(
            (tags[i], matched[i]),
        ),
{
    let place = placement(options, tags[i], matched[i]);
    let pairs = tags.zip_with(matched);
    let keep = |tag: (TagView, bool)| placement(options, tag.0, tag.1) == place;
    assert(pairs[i] == (tags[i], matched[i]));
    lemma_filter_keeps(pairs, keep, i);
}

/// Filtering keeps what satisfies the predicate.
proof fn lemma_filter_keeps<A>(items: Seq<A>, keep: spec_fn(A) -> bool, i: int)
    requires
        0 <= i < items.len(),
        keep(items[i]),
    ensures
        items.filter(keep).contains(items[i]),
    decreases items.len(),
{
    let rest = items.drop_last();
    assert(items =~= rest.push(items.last()));
    lemma_filter_push(rest, items.last(), keep);
    if i < rest.len() {
        lemma_filter_keeps(rest, keep, i);
        let kept = rest.filter(keep);
        let k = choose|k: int| 0 <= k < kept.len() && kept[k] == items[i];
        assert(items.filter(keep)[k] == items[i]);
    } else {
        assert(items.filter(keep)[rest.filter(keep).len() as int] == items[i]);
    }
}

/// Filtering gives only items that satisfy the predicate, each from some place.
proof fn lemma_filter_only<A>(items: Seq<A>, keep: spec_fn(A) -> bool, k: int) -> (i: int)
    requires
        0 <= k < items.filter(keep).len(),
    ensures
        0 <= i < items.len(),
        items[i] == items.filter(keep)[k],
        keep(items[i]),
    decreases items.len(),
{
    reveal(Seq::filter);
    let rest = items.drop_last();
    if k < rest.filter(keep).len() {
        lemma_filter_only(rest, keep, k)
    } else {
        items.len() - 1
    }
}

/// The places of the items that satisfy a predicate, in order.
spec fn places<A>(items: Seq<A>, keep: spec_fn(A) -> bool) -> Seq<int>
    decreases items.len(),
{
    if items.len() == 0 {
        Seq::empty()
    } else {
        let rest = places(items.drop_last(), keep);
        if keep(items.last()) {
            rest.push(items.len() - 1)
        } else {
            rest
        }
    }
}

/// Filtering gives the items at the places where the predicate holds.
proof fn lemma_places<A>(items: Seq<A>, keep: spec_fn(A) -> bool)
    ensures
        places(items, keep).len() == items.filter(keep).len(),
        forall|p: int|
            0 <= p < places(items, keep).len() ==> {
                let i = #[trigger] places(items, keep)[p];
                0 <= i < items.len() && keep(items[i]) && items[i] == items.filter(keep)[p]
            },
        forall|p: int, q: int|
            0 <= p < q < places(items, keep).len() ==> #[trigger] places(items, keep)[p]
                < #[trigger] places(items, keep)[q],
        forall|i: int|
            0 <= i < items.len() && keep(items[i]) ==> #[trigger] places(items, keep).contains(i),
    decreases items.len(),
{
    reveal(Seq::filter);
    if items.len() > 0 {
        let rest = items.drop_last();
        lemma_places(rest, keep);
        let found = places(rest, keep);
        assert forall|i: int| 0 <= i < items.len() && keep(items[i]) implies #[trigger] places(
            items,
            keep,
        ).contains(i) by {
            if keep(items.last()) {
                lemma_contains_push(found, items.len() - 1, i);
            }
            if i < rest.len() {
                assert(rest[i] == items[i]);
                assert(found.contains(i));
            }
        }
        assert forall|p: int| 0 <= p < places(items, keep).len() implies {
            let i = #[trigger] places(items, keep)[p];
            0 <= i < items.len() && keep(items[i]) && items[i] == items.filter(keep)[p]
        } by {
            if p < found.len() {
                assert(found[p] == places(items, keep)[p]);
            }
        }
        assert forall|p: int, q: int|
            0 <= p < q < places(items, keep).len() implies #[trigger] places(items, keep)[p]
            < #[trigger] places(items, keep)[q] by {
            assert(found[p] == places(items, keep)[p]);
            if q < found.len() {
                assert(found[q] == places(items, keep)[q]);
            }
        }
    }
}

/// The texts in a list, and their views.
proof fn lemma_listed(options: WideRequestBuilderOptions, key: Seq<char>)
    ensures
        options@.tag_columns.contains(key) <==> exists|j: int|
            0 <= j < options.tag_columns@.len() && (#[trigger] options.tag_columns@[j])@ == key,
{
    if options@.tag_columns.contains(key) {
        let j = choose|j: int|
            0 <= j < options@.tag_columns.len() && options@.tag_columns[j] == key;
        assert(options.tag_columns@[j]@ == key);
    }
    if exists|j: int|
        0 <= j < options.tag_columns@.len() && (#[trigger] options.tag_columns@[j])@ == key {
        let j = choose|j: int|
            0 <= j < options.tag_columns@.len() && (#[trigger] options.tag_columns@[j])@ == key;
        assert(options@.tag_columns[j] == key);
    }
}

/// A column of the tags stands in the row.
proof fn lemma_tag_column_stands(
    metric: MetricView,
    options: OptionsView,
    now: int,
    matched: Seq<bool>,
    i: int,
)
    requires
        0 <= i < metric.tags.len(),
        matched.len() == metric.tags.len(),
    ensures
        placement(options, metric.tags[i], matched[i]) == Placement::Tag ==> wide_columns(
            metric,
            options,
            now,
            matched,
        ).contains(text_column(metric.tags[i].key, metric.tags[i].value)),
        placement(options, metric.tags[i], matched[i]) == Placement::Field ==> wide_columns(
            metric,
            options,
            now,
            matched,
        ).contains(
            field_column(metric.tags[i].key, FieldValueView::Parsed(metric.tags[i].value)),
        ),
{
    let tag = metric.tags[i];
    let all = wide_columns(metric, options, now, matched);
    lemma_placed_contains(options, metric.tags, matched, i);
    let place = placement(options, tag, matched[i]);
    let found = placed(options, metric.tags, matched, place);
    let k = choose|k: int| 0 <= k < found.len() && found[k] == (tag, matched[i]);
    let tags = tag_columns(options, metric.tags, matched);
    if place == Placement::Tag {
        assert(all[1 + k] == tags[k]);
    }
    if place == Placement::Field {
        assert(all[1 + tags.len() + k] == tag_fields(options, metric.tags, matched)[k]);
    }
}

/// A tag whose key is listed, or matched by a pattern, stays a tag with its text, even where
/// the text is a number.
pub proof fn law_kept_tags_stay_tags(
    metric: MetricView,
    options: OptionsView,
    now: int,
    matched: Seq<bool>,
    i: int,
)
    requires
        0 <= i < metric.tags.len(),
        matched.len() == metric.tags.len(),
        options.tag_columns.contains(metric.tags[i].key) || matched[i],
    ensures
        wide_columns(metric, options, now, matched).contains(
            text_column(metric.tags[i].key, metric.tags[i].value),
        ),
{
    lemma_tag_column_stands(metric, options, now, matched, i);
}

/// Any other tag whose text is a number becomes a field with that number, whatever the fallback
/// is.
pub proof fn law_numbers_become_fields(
    metric: MetricView,
    options: OptionsView,
    now: int,
    matched: Seq<bool>,
    i: int,
)
    requires
        0 <= i < metric.tags.len(),
        matched.len() == metric.tags.len(),
        !options.tag_columns.contains(metric.tags[i].key) && !matched[i],
        is_float_text(metric.tags[i].value),
    ensures
        wide_columns(metric, options, now, matched).contains(
            field_column(metric.tags[i].key, FieldValueView::Parsed(metric.tags[i].value)),
        ),
{
    lemma_tag_column_stands(metric, options, now, matched, i);
}

/// A request has a column: its schema, and its value in the one row.
pub open spec fn has_column(request: RowInsertRequestView, column: Column) -> bool {
    exists|k: int|
        0 <= k < request.rows->0.schema.len() && #[trigger] request.rows->0.schema[k] == column.schema
            && request.rows->0.rows[0][k] == column.value
}

/// What the request for a metric has of each tag: listed tags and tags that a pattern selects
/// as tags, any other number as a field, and any other text as a tag unless the fallback says
/// otherwise. In that case, where the keys are distinct, no column is made from the tag: none
/// bears its key, unless it is the time index, which comes first, or belongs to the value, whose
/// columns come last.
pub proof fn law_what_becomes_of_a_tag(
    request: RowInsertRequestView,
    metric: MetricView,
    options: OptionsView,
    rendered_table: Option<Seq<char>>,
    tag: TagView,
)
    requires
        inserts(request, metric, options, rendered_table),
        metric.tags.contains(tag),
    ensures
        ({
            let kept = options.tag_columns.contains(tag.key) || patterns_match(
                options.tag_column_patterns,
                tag.key,
            );
            let fallback = options.fallback_behavior;
            &&& kept ==> has_column(request, text_column(tag.key, tag.value))
            &&& !kept && is_float_text(tag.value) ==> has_column(
                request,
                field_column(tag.key, FieldValueView::Parsed(tag.value)),
            )
            &&& !kept && !is_float_text(tag.value) && (fallback is None || fallback == Some("tag"@))
                ==> has_column(request, text_column(tag.key, tag.value))
            &&& metric.well_formed() && !kept && !is_float_text(tag.value) && fallback is Some
                && fallback != Some("tag"@) ==> {
                let schema = request.rows->0.schema;
                let fields = value_columns(options, metric.value).len();
                &&& !has_column(request, text_column(tag.key, tag.value))
                &&& forall|k: int|
                    0 <= k < schema.len() && (#[trigger] schema[k]).column_name == tag.key ==> k == 0
                        || k >= schema.len() - fields
            }
        }),
{
    let matched = matched_tags(options, metric.tags);
    let (seconds, nanos) = choose|seconds: int, nanos: int|
        #[trigger] is_reading(seconds, nanos) && request == wide_insert(
            metric,
            options,
            rendered_table,
            unix_millis(seconds, nanos),
            matched,
        );
    let now = unix_millis(seconds, nanos);
    let columns = wide_columns(metric, options, now, matched);
    let i = choose|i: int| 0 <= i < metric.tags.len() && metric.tags[i] == tag;
    lemma_tag_column_stands(metric, options, now, matched, i);
    assert forall|column: Column| columns.contains(column) implies has_column(request, column) by {
        let k = choose|k: int| 0 <= k < columns.len() && columns[k] == column;
        assert(request.rows->0.schema[k] == column.schema);
    }
    if metric.well_formed() && placement(options, tag, matched[i]) == Placement::Dropped {
        let schema = request.rows->0.schema;
        let fields = value_columns(options, metric.value);
        let first = schema.len() - fields.len();
        assert forall|k: int|
            0 <= k < schema.len() && (#[trigger] schema[k]).column_name == tag.key implies k == 0
            || k >= first by {
            if 0 < k < first {
                let from = lemma_origin(metric, options, now, matched, k);
                assert(metric.tags[from].key == metric.tags[i].key);
            }
        }
        lemma_value_columns_are_fields(options, metric.value);
        assert forall|k: int| k == 0 || first <= k < schema.len() implies (
        #[trigger] schema[k]).semantic_type != SemanticType::Tag by {
            if k > 0 {
                assert(columns[k] == fields[k - first]);
            }
        }
    }
}

/// Every tag with a fallback of `tag`, or with none, has a column; so the row has one for the
/// time index, one for each tag and those of the value.
pub proof fn law_no_tag_is_lost_by_default(
    metric: MetricView,
    options: OptionsView,
    now: int,
    matched: Seq<bool>,
)
    requires
        matched.len() == metric.tags.len(),
        options.fallback_behavior is None || options.fallback_behavior == Some("tag"@),
    ensures
        wide_columns(metric, options, now, matched).len() == 1 + metric.tags.len() + value_columns(
            options,
            metric.value,
        ).len(),
        forall|i: int|
            0 <= i < metric.tags.len() && !is_float_text((#[trigger] metric.tags[i]).value)
                ==> wide_columns(metric, options, now, matched).contains(
                text_column(metric.tags[i].key, metric.tags[i].value),
            ),
{
    law_tags_are_partitioned(options, metric.tags, matched);
    let pairs = metric.tags.zip_with(matched);
    let dropped = placed(options, metric.tags, matched, Placement::Dropped);
    if dropped.len() > 0 {
        let i = lemma_filter_only(
            pairs,
            |tag: (TagView, bool)| placement(options, tag.0, tag.1) == Placement::Dropped,
            0,
        );
    }
    assert forall|i: int|
        0 <= i < metric.tags.len() && !is_float_text(
            (#[trigger] metric.tags[i]).value,
        ) implies wide_columns(metric, options, now, matched).contains(
        text_column(metric.tags[i].key, metric.tags[i].value),
    ) by {
        lemma_tag_column_stands(metric, options, now, matched, i);
    }
}

/// Each tag is kept as a tag, turned into a field or dropped, and only one of the three.
pub proof fn law_tags_are_partitioned(
    options: OptionsView,
    tags: Seq<TagView>,
    matched: Seq<bool>,
)
    requires
        matched.len() == tags.len(),
    ensures
        tag_columns(options, tags, matched).len() + tag_fields(options, tags, matched).len()
            + placed(options, tags, matched, Placement::Dropped).len() == tags.len(),
{
    lemma_three_ways(options, tags.zip_with(matched));
}

/// Three filters that no item passes twice, and every item passes once.
proof fn lemma_three_ways(options: OptionsView, pairs: Seq<(TagView, bool)>)
    ensures
        pairs.filter(|tag: (TagView, bool)| placement(options, tag.0, tag.1) == Placement::Tag).len()
            + pairs.filter(
            |tag: (TagView, bool)| placement(options, tag.0, tag.1) == Placement::Field,
        ).len() + pairs.filter(
            |tag: (TagView, bool)| placement(options, tag.0, tag.1) == Placement::Dropped,
        ).len() == pairs.len(),
    decreases pairs.len(),
{
    reveal(Seq::filter);
    if pairs.len() > 0 {
        lemma_three_ways(options, pairs.drop_last());
    }
}

/// With a fallback other than `tag`, a tag that is neither kept nor a number has no column:
/// where the keys are distinct, no column made from a tag bears its key.
pub proof fn law_other_texts_are_dropped(
    options: OptionsView,
    metric: MetricView,
    matched: Seq<bool>,
    i: int,
)
    requires
        metric.well_formed(),
        0 <= i < metric.tags.len(),
        matched.len() == metric.tags.len(),
        !options.tag_columns.contains(metric.tags[i].key) && !matched[i],
        !is_float_text(metric.tags[i].value),
        options.fallback_behavior is Some && options.fallback_behavior != Some("tag"@),
    ensures
        forall|k: int|
            0 <= k < tag_columns(options, metric.tags, matched).len() ==> (#[trigger] tag_columns(
                options,
                metric.tags,
                matched,
            )[k]).schema.column_name != metric.tags[i].key,
        forall|k: int|
            0 <= k < tag_fields(options, metric.tags, matched).len() ==> (#[trigger] tag_fields(
                options,
                metric.tags,
                matched,
            )[k]).schema.column_name != metric.tags[i].key,
{
    let pairs = metric.tags.zip_with(matched);
    let key = metric.tags[i].key;
    assert forall|k: int| 0 <= k < tag_columns(options, metric.tags, matched).len() implies (
    #[trigger] tag_columns(options, metric.tags, matched)[k]).schema.column_name != key by {
        let j = lemma_filter_only(
            pairs,
            |tag: (TagView, bool)| placement(options, tag.0, tag.1) == Placement::Tag,
            k,
        );
        assert(metric.tags[j].key == tag_columns(options, metric.tags, matched)[k].schema.column_name);
    }
    assert forall|k: int| 0 <= k < tag_fields(options, metric.tags, matched).len() implies (
    #[trigger] tag_fields(options, metric.tags, matched)[k]).schema.column_name != key by {
        let j = lemma_filter_only(
            pairs,
            |tag: (TagView, bool)| placement(options, tag.0, tag.1) == Placement::Field,
            k,
        );
        assert(metric.tags[j].key == tag_fields(options, metric.tags, matched)[k].schema.column_name);
    }
}

/// Listing more keys, or matching more, keeps every tag a tag that was one.
pub proof fn law_keeping_more_loses_no_tag(
    options: OptionsView,
    more: OptionsView,
    tag: TagView,
    matched: bool,
    more_matched: bool,
)
    requires
        forall|key: Seq<char>| options.tag_columns.contains(key) ==> more.tag_columns.contains(key),
        matched ==> more_matched,
        more.fallback_behavior == options.fallback_behavior,
        placement(options, tag, matched) == Placement::Tag,
    ensures
        placement(more, tag, more_matched) == Placement::Tag,
{
}

/// A table name that fails to render costs the metric nothing but that name: the row is the
/// same, and it goes into the table with the default name. All in all it is as if there were no
/// table template.
pub proof fn law_failed_table_rendering_keeps_the_row(
    metric: MetricView,
    options: OptionsView,
    name: Seq<char>,
    rendered_table: Option<Seq<char>>,
    now: int,
    matched: Seq<bool>,
)
    ensures
        wide_insert(metric, options, None, now, matched).rows == wide_insert(
            metric,
            options,
            Some(name),
            now,
            matched,
        ).rows,
        wide_insert(metric, options, None, now, matched).table_name == default_table_name(metric),
        wide_insert(metric, options, None, now, matched) == wide_insert(
            metric,
            OptionsView { table: None, ..options },
            rendered_table,
            now,
            matched,
        ),
        options.table is Some ==> wide_insert(
            metric,
            options,
            Some(name),
            now,
            matched,
        ).table_name == name,
{
    lemma_table_moves_no_tag(options, metric.tags, matched, Placement::Tag);
    lemma_table_moves_no_tag(options, metric.tags, matched, Placement::Field);
}

/// The table template does not matter for what becomes of tags.
proof fn lemma_table_moves_no_tag(
    options: OptionsView,
    tags: Seq<TagView>,
    matched: Seq<bool>,
    place: Placement,
)
    ensures
        placed(options, tags, matched, place) == placed(
            OptionsView { table: None, ..options },
            tags,
            matched,
            place,
        ),
{
    let untabled = OptionsView { table: None, ..options };
    let before = |tag: (TagView, bool)| placement(options, tag.0, tag.1) == place;
    let after = |tag: (TagView, bool)| placement(untabled, tag.0, tag.1) == place;
    assert(before =~= after);
}

/// When the table template fails to render for a metric, the metric is not dropped: the requests
/// that it can become are those that it can become without a table template, and it becomes one
/// and the same if it has a timestamp. One failure is reported, for the table, as one for which
/// nothing is dropped; without a failure, or without a template, nothing is reported.
pub proof fn law_failed_table_rendering_is_as_no_template(
    metric: MetricView,
    options: OptionsView,
    error: Seq<char>,
    rendered_table: Option<Result<Seq<char>, Seq<char>>>,
    request: RowInsertRequestView,
    other: RowInsertRequestView,
)
    requires
        options.table is Some,
    ensures
        inserts(request, metric, options, rendered_name(Some(Err(error)))) <==> inserts(
            request,
            metric,
            OptionsView { table: None, ..options },
            rendered_name(rendered_table),
        ),
        metric.timestamp is Some && inserts(
            request,
            metric,
            options,
            rendered_name(Some(Err(error))),
        ) && inserts(
            other,
            metric,
            OptionsView { table: None, ..options },
            rendered_name(rendered_table),
        ) ==> request == other,
        table_errors(options, Some(Err(error))) == seq![
            TemplateRenderingErrorView { error, field: Some("table"@), drop_event: false },
        ],
        table_errors(options, rendered_table).len() > 0 <==> rendered_table matches Some(Err(_)),
        table_errors(OptionsView { table: None, ..options }, rendered_table).len() == 0,
{
    let name = rendered_name(rendered_table);
    lemma_untabled(metric, options, name, request);
    lemma_untabled(metric, options, name, other);
    if metric.timestamp is Some && inserts(request, metric, options, None) && inserts(
        other,
        metric,
        options,
        None,
    ) {
        law_timestamped_metrics_ignore_the_clock(metric, options, None, request, other);
    }
}

/// What a metric can become when the table template fails is what it can become without one.
proof fn lemma_untabled(
    metric: MetricView,
    options: OptionsView,
    name: Option<Seq<char>>,
    request: RowInsertRequestView,
)
    ensures
        inserts(request, metric, options, None) <==> inserts(
            request,
            metric,
            OptionsView { table: None, ..options },
            name,
        ),
{
    let untabled = OptionsView { table: None, ..options };
    let matched = matched_tags(options, metric.tags);
    assert(matched =~= matched_tags(untabled, metric.tags));
    assert forall|seconds: int, nanos: int| #[trigger] is_reading(seconds, nanos) implies wide_insert(
        metric,
        options,
        None,
        unix_millis(seconds, nanos),
        matched,
    ) == wide_insert(metric, untabled, name, unix_millis(seconds, nanos), matched) by {
        let now = unix_millis(seconds, nanos);
        law_failed_table_rendering_keeps_the_row(metric, options, ""@, name, now, matched);
    }
}

/// A pattern that does not compile has no effect.
pub proof fn law_invalid_patterns_are_ignored(
    options: OptionsView,
    fewer: OptionsView,
    tags: Seq<TagView>,
    i: int,
)
    requires
        0 <= i < options.tag_column_patterns.len(),
        !pattern_compiles(options.tag_column_patterns[i], usize::BITS),
        fewer == (OptionsView {
            tag_column_patterns: options.tag_column_patterns.remove(i),
            ..options
        }),
    ensures
        matched_tags(options, tags) == matched_tags(fewer, tags),
{
    let all = options.tag_column_patterns;
    let rest = all.remove(i);
    assert forall|text: Seq<char>| patterns_match(all, text) == patterns_match(rest, text) by {
        if patterns_match(all, text) {
            let k = choose|k: int|
                0 <= k < all.len() && #[trigger] pattern_compiles(all[k], usize::BITS)
                    && pattern_texts(all[k]).contains(text);
            let j = if k < i {
                k
            } else {
                k - 1
            };
            assert(rest[j] == all[k]);
            assert(pattern_compiles(rest[j], usize::BITS));
        }
        if patterns_match(rest, text) {
            let j = choose|j: int|
                0 <= j < rest.len() && #[trigger] pattern_compiles(rest[j], usize::BITS)
                    && pattern_texts(rest[j]).contains(text);
            let k = if j < i {
                j
            } else {
                j + 1
            };
            assert(rest[j] == all[k]);
            assert(pattern_compiles(all[k], usize::BITS));
        }
    }
    assert(matched_tags(options, tags) =~= matched_tags(fewer, tags));
}

/// The naming changes names only, and only two of them: every column keeps its role, its type
/// and its value, and its name too, unless it is the time index, which comes first, or the one
/// value of a counter, a gauge or a set, which comes last.
pub proof fn law_naming_changes_names_only(
    metric: MetricView,
    options: OptionsView,
    renamed: OptionsView,
    now: int,
    matched: Seq<bool>,
)
    requires
        renamed == (OptionsView { use_new_naming: !options.use_new_naming, ..options }),
    ensures
        values(wide_columns(metric, options, now, matched)) == values(
            wide_columns(metric, renamed, now, matched),
        ),
        forall|i: int|
            0 <= i < wide_columns(metric, options, now, matched).len() ==> {
                let columns = wide_columns(metric, options, now, matched);
                let column = #[trigger] wide_columns(metric, options, now, matched)[i].schema;
                let other = wide_columns(metric, renamed, now, matched)[i].schema;
                &&& column.semantic_type == other.semantic_type
                &&& column.datatype == other.datatype
                &&& if i == 0 {
                    column.column_name == time_index_name(options) && other.column_name
                        == time_index_name(renamed)
                } else if i == columns.len() - 1 && (metric.value is Counter || metric.value is Gauge
                    || metric.value is ValueSet) {
                    column.column_name == value_name(options) && other.column_name == value_name(
                        renamed,
                    )
                } else {
                    column.column_name == other.column_name
                }
            },
{
    lemma_naming_moves_no_tag(options, renamed, metric.tags, matched, Placement::Tag);
    lemma_naming_moves_no_tag(options, renamed, metric.tags, matched, Placement::Field);
    assert(values(wide_columns(metric, options, now, matched)) =~= values(
        wide_columns(metric, renamed, now, matched),
    ));
}

/// The naming does not matter for what becomes of tags.
proof fn lemma_naming_moves_no_tag(
    options: OptionsView,
    renamed: OptionsView,
    tags: Seq<TagView>,
    matched: Seq<bool>,
    place: Placement,
)
    requires
        renamed == (OptionsView { use_new_naming: !options.use_new_naming, ..options }),
    ensures
        placed(options, tags, matched, place) == placed(renamed, tags, matched, place),
{
    let before = |tag: (TagView, bool)| placement(options, tag.0, tag.1) == place;
    let after = |tag: (TagView, bool)| placement(renamed, tag.0, tag.1) == place;
    assert(before =~= after);
}

/// How many columns a value has: a counter, a gauge and a set have one; a distribution with
/// statistics, a histogram and a summary have a fixed number besides their quantiles or
/// buckets; a sketch has a count and at most nine more.
pub proof fn law_number_of_value_columns(options: OptionsView, value: MetricValueView)
    ensures
        match value {
            MetricValueView::Counter { .. } => value_columns(options, value).len() == 1,
            MetricValueView::Gauge { .. } => value_columns(options, value).len() == 1,
            MetricValueView::ValueSet { .. } => value_columns(options, value).len() == 1,
            MetricValueView::Distribution { statistics } => value_columns(options, value).len() == (
            match statistics {
                Some(stats) => DISTRIBUTION_STAT_FIELD_COUNT + stats.quantiles.len(),
                None => 0,
            }),
            MetricValueView::AggregatedHistogram { buckets, .. } => value_columns(
                options,
                value,
            ).len() == SUMMARY_STAT_FIELD_COUNT + buckets.len(),
            MetricValueView::AggregatedSummary { quantiles, .. } => value_columns(
                options,
                value,
            ).len() == SUMMARY_STAT_FIELD_COUNT + quantiles.len(),
            MetricValueView::Sketch { .. } => 1 <= value_columns(options, value).len() <= 10,
        },
{
    if let MetricValueView::Sketch { sketch } = value {
        lemma_sketch_quantile_columns(sketch.quantiles@, 5);
    }
}

/// Buckets in a row have their columns in a row, and no buckets have none.
pub proof fn law_bucket_columns_follow_the_buckets(first: Seq<BucketView>, second: Seq<BucketView>)
    ensures
        bucket_columns(first + second) == bucket_columns(first) + bucket_columns(second),
        first.len() == 0 ==> bucket_columns(first) == Seq::<Column>::empty(),
{
    assert(bucket_columns(first + second) =~= bucket_columns(first) + bucket_columns(second));
    if first.len() == 0 {
        assert(bucket_columns(first) =~= Seq::<Column>::empty());
    }
}

/// Encoding some buckets and then others appends what encoding all of them at once appends, and
/// encoding none changes nothing.
pub proof fn law_buckets_are_encoded_one_after_the_other(
    first: Seq<BucketView>,
    second: Seq<BucketView>,
    start: (Seq<ColumnSchema>, Seq<Value>),
    between: (Seq<ColumnSchema>, Seq<Value>),
    in_turn: (Seq<ColumnSchema>, Seq<Value>),
    at_once: (Seq<ColumnSchema>, Seq<Value>),
)
    requires
        extends(start.0, start.1, between.0, between.1, bucket_columns(first)),
        extends(between.0, between.1, in_turn.0, in_turn.1, bucket_columns(second)),
        extends(start.0, start.1, at_once.0, at_once.1, bucket_columns(first + second)),
    ensures
        views(at_once.0) == views(in_turn.0),
        views(at_once.1) == views(in_turn.1),
        first.len() == 0 ==> views(between.0) == views(start.0) && views(between.1) == views(start.1),
{
    law_bucket_columns_follow_the_buckets(first, second);
    lemma_extends_twice(
        start.0,
        start.1,
        between.0,
        between.1,
        in_turn.0,
        in_turn.1,
        bucket_columns(first),
        bucket_columns(second),
    );
    if first.len() == 0 {
        lemma_extends_by_nothing(start.0, start.1, bucket_columns(first));
    }
}

/// Quantiles in a row have their columns in a row, and no quantiles have none.
pub proof fn law_quantile_columns_follow_the_quantiles(
    first: Seq<QuantileView>,
    second: Seq<QuantileView>,
)
    ensures
        quantile_columns(first + second) == quantile_columns(first) + quantile_columns(second),
        first.len() == 0 ==> quantile_columns(first) == Seq::<Column>::empty(),
{
    assert(quantile_columns(first + second) =~= quantile_columns(first) + quantile_columns(second));
    if first.len() == 0 {
        assert(quantile_columns(first) =~= Seq::<Column>::empty());
    }
}

/// Encoding some quantiles and then others appends what encoding all of them at once appends, and
/// encoding none changes nothing.
pub proof fn law_quantiles_are_encoded_one_after_the_other(
    first: Seq<QuantileView>,
    second: Seq<QuantileView>,
    start: (Seq<ColumnSchema>, Seq<Value>),
    between: (Seq<ColumnSchema>, Seq<Value>),
    in_turn: (Seq<ColumnSchema>, Seq<Value>),
    at_once: (Seq<ColumnSchema>, Seq<Value>),
)
    requires
        extends(start.0, start.1, between.0, between.1, quantile_columns(first)),
        extends(between.0, between.1, in_turn.0, in_turn.1, quantile_columns(second)),
        extends(start.0, start.1, at_once.0, at_once.1, quantile_columns(first + second)),
    ensures
        views(at_once.0) == views(in_turn.0),
        views(at_once.1) == views(in_turn.1),
        first.len() == 0 ==> views(between.0) == views(start.0) && views(between.1) == views(start.1),
{
    law_quantile_columns_follow_the_quantiles(first, second);
    lemma_extends_twice(
        start.0,
        start.1,
        between.0,
        between.1,
        in_turn.0,
        in_turn.1,
        quantile_columns(first),
        quantile_columns(second),
    );
    if first.len() == 0 {
        lemma_extends_by_nothing(start.0, start.1, quantile_columns(first));
    }
}

/// A metric that has a timestamp becomes the same request whatever the clock says.
pub proof fn law_timestamped_metrics_ignore_the_clock(
    metric: MetricView,
    options: OptionsView,
    rendered_table: Option<Seq<char>>,
    first: RowInsertRequestView,
    second: RowInsertRequestView,
)
    requires
        metric.timestamp is Some,
        inserts(first, metric, options, rendered_table),
        inserts(second, metric, options, rendered_table),
    ensures
        first == second,
{
}

/// Two items that a filter keeps come from two places, in the same order.
proof fn lemma_filter_in_order<A>(items: Seq<A>, keep: spec_fn(A) -> bool, k: int, l: int) -> (from: (
    int,
    int,
))
    requires
        0 <= k < l < items.filter(keep).len(),
    ensures
        0 <= from.0 < from.1 < items.len(),
        items[from.0] == items.filter(keep)[k],
        items[from.1] == items.filter(keep)[l],
    decreases items.len(),
{
    reveal(Seq::filter);
    let rest = items.drop_last();
    if l < rest.filter(keep).len() {
        lemma_filter_in_order(rest, keep, k, l)
    } else {
        (lemma_filter_only(rest, keep, k), items.len() - 1)
    }
}

/// The tag that a column of the tags comes from.
proof fn lemma_origin(
    metric: MetricView,
    options: OptionsView,
    now: int,
    matched: Seq<bool>,
    i: int,
) -> (from: int)
    requires
        matched.len() == metric.tags.len(),
        0 < i <= tag_columns(options, metric.tags, matched).len() + tag_fields(
            options,
            metric.tags,
            matched,
        ).len(),
    ensures
        0 <= from < metric.tags.len(),
        wide_columns(metric, options, now, matched)[i].schema.column_name == metric.tags[from].key,
        placement(options, metric.tags[from], matched[from]) == if i <= tag_columns(
            options,
            metric.tags,
            matched,
        ).len() {
            Placement::Tag
        } else {
            Placement::Field
        },
{
    let pairs = metric.tags.zip_with(matched);
    let tags = tag_columns(options, metric.tags, matched);
    if i <= tags.len() {
        lemma_filter_only(
            pairs,
            |tag: (TagView, bool)| placement(options, tag.0, tag.1) == Placement::Tag,
            i - 1,
        )
    } else {
        lemma_filter_only(
            pairs,
            |tag: (TagView, bool)| placement(options, tag.0, tag.1) == Placement::Field,
            i - 1 - tags.len(),
        )
    }
}

/// Two columns of the tags come from two tags.
proof fn lemma_origins(
    metric: MetricView,
    options: OptionsView,
    now: int,
    matched: Seq<bool>,
    i: int,
    j: int,
) -> (from: (int, int))
    requires
        matched.len() == metric.tags.len(),
        0 < i < j <= tag_columns(options, metric.tags, matched).len() + tag_fields(
            options,
            metric.tags,
            matched,
        ).len(),
    ensures
        0 <= from.0 < metric.tags.len(),
        0 <= from.1 < metric.tags.len(),
        from.0 != from.1,
        wide_columns(metric, options, now, matched)[i].schema.column_name == metric.tags[from.0].key,
        wide_columns(metric, options, now, matched)[j].schema.column_name == metric.tags[from.1].key,
{
    let pairs = metric.tags.zip_with(matched);
    let tags = tag_columns(options, metric.tags, matched);
    if j <= tags.len() {
        lemma_filter_in_order(
            pairs,
            |tag: (TagView, bool)| placement(options, tag.0, tag.1) == Placement::Tag,
            i - 1,
            j - 1,
        )
    } else if i > tags.len() {
        lemma_filter_in_order(
            pairs,
            |tag: (TagView, bool)| placement(options, tag.0, tag.1) == Placement::Field,
            i - 1 - tags.len(),
            j - 1 - tags.len(),
        )
    } else {
        (
            lemma_origin(metric, options, now, matched, i),
            lemma_origin(metric, options, now, matched, j),
        )
    }
}

/// The columns of a metric have distinct names, when its tags have distinct keys, the columns of
/// its value have distinct names, and no tag that has a column is named like the time index or
/// like a column of the value.
pub proof fn law_column_names_are_distinct(
    metric: MetricView,
    options: OptionsView,
    now: int,
    matched: Seq<bool>,
    i: int,
    j: int,
)
    requires
        metric.well_formed(),
        matched.len() == metric.tags.len(),
        forall|k: int, l: int|
            0 <= k < l < value_columns(options, metric.value).len() ==> (#[trigger] value_columns(
                options,
                metric.value,
            )[k]).schema.column_name != (#[trigger] value_columns(
                options,
                metric.value,
            )[l]).schema.column_name,
        forall|l: int|
            0 <= l < value_columns(options, metric.value).len() ==> (#[trigger] value_columns(
                options,
                metric.value,
            )[l]).schema.column_name != time_index_name(options),
        forall|k: int|
            0 <= k < metric.tags.len() && placement(options, #[trigger] metric.tags[k], matched[k])
                != Placement::Dropped ==> metric.tags[k].key != time_index_name(options),
        forall|k: int, l: int|
            0 <= k < metric.tags.len() && placement(options, #[trigger] metric.tags[k], matched[k])
                != Placement::Dropped && 0 <= l < value_columns(options, metric.value).len()
                ==> metric.tags[k].key != (#[trigger] value_columns(
                options,
                metric.value,
            )[l]).schema.column_name,
        0 <= i < j < wide_columns(metric, options, now, matched).len(),
    ensures
        wide_columns(metric, options, now, matched)[i].schema.column_name != wide_columns(
            metric,
            options,
            now,
            matched,
        )[j].schema.column_name,
{
    let columns = wide_columns(metric, options, now, matched);
    let fields = value_columns(options, metric.value);
    let first = columns.len() - fields.len();
    if j >= first {
        assert(columns[j] == fields[j - first]);
        if i >= first {
            assert(columns[i] == fields[i - first]);
        } else if i > 0 {
            let from = lemma_origin(metric, options, now, matched, i);
            assert(metric.tags[from].key != fields[j - first].schema.column_name);
        }
    } else if i == 0 {
        let from = lemma_origin(metric, options, now, matched, j);
        assert(metric.tags[from].key != time_index_name(options));
    } else {
        let from = lemma_origins(metric, options, now, matched, i, j);
        assert(metric.tags[from.0].key != metric.tags[from.1].key);
    }
}

/// A counter, a gauge and a set have columns with distinct names, when the tags have distinct
/// keys and none that has a column is named like the time index or the value.
pub proof fn law_column_names_around_one_value_are_distinct(
    metric: MetricView,
    options: OptionsView,
    now: int,
    matched: Seq<bool>,
    i: int,
    j: int,
)
    requires
        metric.well_formed(),
        matched.len() == metric.tags.len(),
        metric.value is Counter || metric.value is Gauge || metric.value is ValueSet,
        forall|k: int|
            0 <= k < metric.tags.len() && placement(options, #[trigger] metric.tags[k], matched[k])
                != Placement::Dropped ==> metric.tags[k].key != time_index_name(options)
                && metric.tags[k].key != value_name(options),
        0 <= i < j < wide_columns(metric, options, now, matched).len(),
    ensures
        wide_columns(metric, options, now, matched)[i].schema.column_name != wide_columns(
            metric,
            options,
            now,
            matched,
        )[j].schema.column_name,
{
    reveal_strlit("ts");
    reveal_strlit("val");
    reveal_strlit("greptime_timestamp");
    reveal_strlit("greptime_value");
    assert(time_index_name(options).len() != value_name(options).len());
    law_column_names_are_distinct(metric, options, now, matched, i, j);
}

/// A field that is carried as text is one that denotes a float.
pub proof fn law_parsed_fields_are_numbers(
    metric: MetricView,
    options: OptionsView,
    now: int,
    matched: Seq<bool>,
    i: int,
    text: Seq<char>,
)
    requires
        matched.len() == metric.tags.len(),
        0 <= i < wide_columns(metric, options, now, matched).len(),
        wide_columns(metric, options, now, matched)[i].value == Some(
            ValueDataView::F64Value(FieldValueView::Parsed(text)),
        ),
    ensures
        is_float_text(text),
{
    let tags = tag_columns(options, metric.tags, matched);
    let fields = tag_fields(options, metric.tags, matched);
    let columns = wide_columns(metric, options, now, matched);
    lemma_value_columns_are_fields(options, metric.value);
    if i > tags.len() + fields.len() {
        assert(columns[i] == value_columns(options, metric.value)[i - 1 - tags.len() - fields.len()]);
    } else if i > tags.len() {
        assert(columns[i] == fields[i - 1 - tags.len()]);
        let from = lemma_filter_only(
            metric.tags.zip_with(matched),
            |tag: (TagView, bool)| placement(options, tag.0, tag.1) == Placement::Field,
            i - 1 - tags.len(),
        );
    }
}

/// The one column of a set counts the distinct texts in it.
pub proof fn law_sets_count_distinct_texts(
    metric: MetricView,
    options: OptionsView,
    texts: Seq<Seq<char>>,
)
    requires
        metric.well_formed(),
        metric.value == (MetricValueView::ValueSet { values: texts }),
    ensures
        value_columns(options, metric.value) == seq![
            field_column(value_name(options), FieldValueView::Counted(texts.to_set().len())),
        ],
{
    texts.unique_seq_to_set();
}

/// In one request every insert goes into the table of its own metric, so that one request can
/// fill many tables.
pub proof fn law_each_insert_has_its_own_table(
    request: GreptimeDBGrpcRequest,
    group: DatabaseGroupView,
    options: OptionsView,
    i: int,
)
    requires
        request.is_for(group, options),
        0 <= i < group.metrics.len(),
    ensures
        request.inserts@[i]@.table_name == table_name_of(
            group.metrics[i].metric,
            options,
            rendered_name(group.metrics[i].table),
        ),
{
    assert(inserts(
        request.inserts@[i]@,
        group.metrics[i].metric,
        options,
        rendered_name(group.metrics[i].table),
    ));
}

/// The databases of a batch are distinct, and none gets an empty request.
pub proof fn law_one_group_for_each_database(batch: Seq<RenderedMetricView>, i: int)
    requires
        0 <= i < groups(batch).len(),
    ensures
        groups(batch)[i].metrics.len() > 0,
        forall|j: int|
            0 <= j < groups(batch).len() && j != i ==> (#[trigger] groups(batch)[j]).dbname != groups(
                batch,
            )[i].dbname,
{
    lemma_database_names(batch);
    let names = database_names(batch);
    assert(names.contains(names[i]));
    assert forall|j: int| 0 <= j < groups(batch).len() && j != i implies (#[trigger] groups(
        batch,
    )[j]).dbname != groups(batch)[i].dbname by {
        assert(names[j] != names[i]);
    }
}

/// A metric goes to the group of its database and to no other; one without a database goes to
/// none.
pub proof fn law_metrics_go_to_their_database(batch: Seq<RenderedMetricView>, i: int)
    requires
        0 <= i < batch.len(),
    ensures
        batch[i].dbname is Ok ==> exists|k: int|
            0 <= k < groups(batch).len() && (#[trigger] groups(batch)[k]).dbname == batch[i].dbname->Ok_0
                && groups(batch)[k].metrics.contains(batch[i]),
        forall|k: int|
            0 <= k < groups(batch).len() && (#[trigger] groups(batch)[k]).metrics.contains(batch[i])
                ==> batch[i].goes_to(groups(batch)[k].dbname),
{
    lemma_database_names(batch);
    let names = database_names(batch);
    if batch[i].dbname is Ok {
        let name = batch[i].dbname->Ok_0;
        lemma_filter_keeps(
            batch,
            |rendered: RenderedMetricView| rendered.goes_to(name),
            i,
        );
        assert(for_database(batch, name).contains(batch[i]));
        assert(names.contains(name));
        let k = choose|k: int| 0 <= k < names.len() && names[k] == name;
        assert(groups(batch)[k].dbname == name);
    }
    assert forall|k: int|
        0 <= k < groups(batch).len() && (#[trigger] groups(batch)[k]).metrics.contains(
            batch[i],
        ) implies batch[i].goes_to(groups(batch)[k].dbname) by {
        let found = for_database(batch, names[k]);
        let l = choose|l: int| 0 <= l < found.len() && found[l] == batch[i];
        let from = lemma_filter_only(
            batch,
            |rendered: RenderedMetricView| rendered.goes_to(names[k]),
            l,
        );
    }
}

/// A metric with a database is inserted by the request for that database, whether or not its
/// table name rendered.
pub proof fn law_metrics_with_a_database_are_inserted(
    requests: Seq<GreptimeDBGrpcRequest>,
    batch: Seq<RenderedMetricView>,
    options: OptionsView,
    i: int,
)
    requires
        answers(requests, batch, options),
        0 <= i < batch.len(),
        batch[i].dbname is Ok,
    ensures
        exists|k: int, l: int|
            0 <= k < requests.len() && 0 <= l < requests[k].inserts@.len() && requests[k].dbname@
                == batch[i].dbname->Ok_0 && inserts(
                (#[trigger] requests[k].inserts@[l])@,
                batch[i].metric,
                options,
                rendered_name(batch[i].table),
            ),
{
    law_metrics_go_to_their_database(batch, i);
    let k = choose|k: int|
        0 <= k < groups(batch).len() && (#[trigger] groups(batch)[k]).dbname == batch[i].dbname->Ok_0
            && groups(batch)[k].metrics.contains(batch[i]);
    let metrics = groups(batch)[k].metrics;
    let l = choose|l: int| 0 <= l < metrics.len() && metrics[l] == batch[i];
    assert(requests[k].is_for(groups(batch)[k], options));
    assert(inserts(
        requests[k].inserts@[l]@,
        batch[i].metric,
        options,
        rendered_name(batch[i].table),
    ));
}

/// A metric whose database name failed to render is dropped and leaves no other trace than one
/// report, for the database name, as one for which a metric is dropped: the groups and the
/// requests are those for the batch without it, and so is everything else that is reported.
pub proof fn law_metrics_without_a_database_are_only_reported(
    requests: Seq<GreptimeDBGrpcRequest>,
    batch: Seq<RenderedMetricView>,
    options: OptionsView,
    i: int,
)
    requires
        0 <= i < batch.len(),
        batch[i].dbname is Err,
    ensures
        groups(batch) == groups(batch.remove(i)),
        answers(requests, batch, options) <==> answers(requests, batch.remove(i), options),
        ({
            let before = dbname_errors(batch.take(i));
            let after = dbname_errors(batch.skip(i + 1)) + group_errors(
                groups(batch.remove(i)),
                options,
            );
            let report = TemplateRenderingErrorView {
                error: batch[i].dbname->Err_0,
                field: Some("dbname"@),
                drop_event: true,
            };
            &&& batch_errors(batch.remove(i), options) == before + after
            &&& batch_errors(batch, options) == before + seq![report] + after
        }),
{
    let has_none = |rendered: RenderedMetricView| rendered.dbname is Err;
    let rest = batch.remove(i);
    lemma_names_without(batch, i);
    assert forall|name: Seq<char>| #[trigger] for_database(batch, name) == for_database(rest, name) by {
        lemma_filter_split(
            batch,
            |rendered: RenderedMetricView| rendered.goes_to(name),
            i,
        );
    }
    assert(groups(batch) =~= groups(rest));
    lemma_filter_split(batch, has_none, i);
    let before = dbname_errors(batch.take(i));
    let after = dbname_errors(batch.skip(i + 1));
    let report = dbname_error(batch[i].dbname->Err_0);
    assert(dbname_errors(rest) =~= before + after);
    assert(dbname_errors(batch) =~= before + seq![report] + after);
    let of_groups = group_errors(groups(rest), options);
    assert(batch_errors(rest, options) =~= before + (after + of_groups));
    assert(batch_errors(batch, options) =~= before + seq![report] + (after + of_groups));
}

/// A batch whose database names all failed to render gives no request, and one report for each
/// metric.
pub proof fn law_batches_without_databases_give_no_request(
    requests: Seq<GreptimeDBGrpcRequest>,
    batch: Seq<RenderedMetricView>,
    options: OptionsView,
)
    requires
        forall|i: int| 0 <= i < batch.len() ==> (#[trigger] batch[i]).dbname is Err,
    ensures
        groups(batch).len() == 0,
        answers(requests, batch, options) ==> requests.len() == 0,
        batch_errors(batch, options).len() == batch.len(),
        forall|i: int|
            0 <= i < batch.len() ==> #[trigger] batch_errors(batch, options)[i] == dbname_error(
                batch[i].dbname->Err_0,
            ),
    decreases batch.len(),
{
    reveal(Seq::filter);
    if batch.len() > 0 {
        let rest = batch.drop_last();
        law_batches_without_databases_give_no_request(requests, rest, options);
        let has_none = |rendered: RenderedMetricView| rendered.dbname is Err;
        assert(batch.filter(has_none) =~= rest.filter(has_none).push(batch.last()));
        assert(dbname_errors(rest) =~= batch_errors(rest, options));
        assert(dbname_errors(batch) =~= dbname_errors(rest).push(
            dbname_error(batch.last().dbname->Err_0),
        ));
        assert(dbname_errors(batch) =~= batch_errors(batch, options));
    }
}

/// Filtering a sequence filters what stands before an item, the item, and what stands after it;
/// without the item, the other two.
proof fn lemma_filter_split<A>(items: Seq<A>, keep: spec_fn(A) -> bool, i: int)
    requires
        0 <= i < items.len(),
    ensures
        items.filter(keep) == items.take(i).filter(keep) + (if keep(items[i]) {
            seq![items[i]]
        } else {
            Seq::empty()
        }) + items.skip(i + 1).filter(keep),
        items.remove(i).filter(keep) == items.take(i).filter(keep) + items.skip(i + 1).filter(keep),
    decreases items.len(),
{
    reveal(Seq::filter);
    let last = items.last();
    let rest = items.drop_last();
    if i == items.len() - 1 {
        assert(items.take(i) =~= rest);
        assert(items.remove(i) =~= rest);
        assert(items.skip(i + 1).filter(keep) =~= Seq::empty());
    } else {
        lemma_filter_split(rest, keep, i);
        assert(items.take(i) =~= rest.take(i));
        assert(items.skip(i + 1) =~= rest.skip(i + 1).push(last));
        assert(items.remove(i) =~= rest.remove(i).push(last));
        lemma_filter_push(rest.skip(i + 1), last, keep);
        lemma_filter_push(rest.remove(i), last, keep);
    }
    assert(items.filter(keep) =~= items.take(i).filter(keep) + (if keep(items[i]) {
        seq![items[i]]
    } else {
        Seq::empty()
    }) + items.skip(i + 1).filter(keep));
    assert(items.remove(i).filter(keep) =~= items.take(i).filter(keep) + items.skip(i + 1).filter(
        keep,
    ));
}

/// A metric without a database does not matter for which databases a batch goes to.
proof fn lemma_names_without(batch: Seq<RenderedMetricView>, i: int)
    requires
        0 <= i < batch.len(),
        batch[i].dbname is Err,
    ensures
        database_names(batch) == database_names(batch.remove(i)),
    decreases batch.len(),
{
    let rest = batch.drop_last();
    if i == batch.len() - 1 {
        assert(batch.remove(i) =~= rest);
    } else {
        lemma_names_without(rest, i);
        assert(batch.remove(i).drop_last() =~= rest.remove(i));
    }
}

/// How many metrics a batch sends to the databases in a list.
pub open spec fn metrics_for(batch: Seq<RenderedMetricView>, names: Seq<Seq<char>>) -> nat
    decreases names.len(),
{
    if names.len() == 0 {
        0
    } else {
        metrics_for(batch, names.drop_last()) + for_database(batch, names.last()).len()
    }
}

/// Sorting a batch by database neither loses nor duplicates a metric that has a database: the
/// groups together hold as many metrics as there are with a database.
pub proof fn law_sorting_loses_nothing(batch: Seq<RenderedMetricView>)
    ensures
        metrics_for(batch, database_names(batch)) == batch.filter(
            |rendered: RenderedMetricView| rendered.dbname is Ok,
        ).len(),
    decreases batch.len(),
{
    reveal(Seq::filter);
    if batch.len() == 0 {
    } else {
        let rest = batch.drop_last();
        let last = batch.last();
        assert(batch =~= rest.push(last));
        lemma_database_names(rest);
        law_sorting_loses_nothing(rest);
        let names = database_names(rest);
        lemma_metrics_for_push(rest, last, names);
        if last.dbname is Ok && !names.contains(last.dbname->Ok_0) {
            let name = last.dbname->Ok_0;
            assert(names.push(name).drop_last() =~= names);
            lemma_filter_push(
                rest,
                last,
                |rendered: RenderedMetricView| rendered.goes_to(name),
            );
        }
    }
}

/// One more metric counts once, if its database is in the list.
proof fn lemma_metrics_for_push(
    batch: Seq<RenderedMetricView>,
    rendered: RenderedMetricView,
    names: Seq<Seq<char>>,
)
    requires
        names.no_duplicates(),
    ensures
        metrics_for(batch.push(rendered), names) == metrics_for(batch, names) + if rendered.dbname
            is Ok && names.contains(rendered.dbname->Ok_0) {
            1nat
        } else {
            0nat
        },
    decreases names.len(),
{
    if names.len() > 0 {
        let fewer = names.drop_last();
        let name = names.last();
        lemma_metrics_for_push(batch, rendered, fewer);
        lemma_filter_push(
            batch,
            rendered,
            |rendered: RenderedMetricView| rendered.goes_to(name),
        );
        if rendered.dbname is Ok {
            let sought = rendered.dbname->Ok_0;
            assert(names =~= fewer.push(name));
            lemma_contains_push(fewer, name, sought);
            if sought == name && fewer.contains(sought) {
                let k = choose|k: int| 0 <= k < fewer.len() && fewer[k] == sought;
                assert(names[k] == names[names.len() - 1]);
            }
        }
    }
}

}
