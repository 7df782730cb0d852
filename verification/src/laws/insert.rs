//! What becomes of a metric with everything from outside filled in: the patterns, the clock and
//! the rendering of the table template.
use super::request::{law_table_of_a_request, law_tag_columns_of_a_row, law_time_index_of_a_row};
use super::settings::law_patterns_that_match;
use crate::metric::Metric;
use crate::model::views;
use crate::number::{is_float_text, FieldValue};
use crate::pattern::{pattern_compiles, pattern_texts, patterns_match};
use crate::request_builder::WideRequestBuilderOptions;
use crate::row::{ColumnDataType, RowInsertRequest, SemanticType, ValueData};
use crate::template::{rendered_name, view_optional_rendering, TemplateRenderingError};
use crate::timestamp::{is_reading, unix_millis};
use crate::wide::{inserts, matched_tags, table_errors, wide_insert};
use vstd::prelude::*;

verus! {

/// The outside that a request was made with: a reading of the clock, in seconds and nanoseconds,
/// and of each tag whether some pattern that compiles matches its key. The request is what the
/// metric becomes with these, and with the table name if it rendered.
pub proof fn law_requests_are_made_from_outside_values(
    request: RowInsertRequest,
    metric: Metric,
    options: WideRequestBuilderOptions,
    rendered_table: Option<Result<String, String>>,
) -> (outside: ((int, int), Seq<bool>))
    requires
        inserts(
            request@,
            metric@,
            options@,
            rendered_name(view_optional_rendering(rendered_table)),
        ),
    ensures
        ({
            let ((seconds, nanos), matched) = outside;
            let tags = match metric.tags {
                Some(tags) => tags@,
                None => Seq::empty(),
            };
            let name = match rendered_table {
                Some(Ok(name)) => Some(name@),
                _ => None,
            };
            &&& -8_334_601_228_800 <= seconds <= 8_210_266_876_799
            &&& 0 <= nanos < 1_000_000_000
            &&& matched.len() == tags.len()
            &&& forall|i: int|
                0 <= i < tags.len() ==> (#[trigger] matched[i] <==> exists|j: int|
                    0 <= j < options.tag_column_patterns@.len() && pattern_compiles(
                        (#[trigger] options.tag_column_patterns@[j])@,
                        usize::BITS,
                    ) && pattern_texts(options.tag_column_patterns@[j]@).contains(tags[i].key@))
            &&& request@ == wide_insert(
                metric@,
                options@,
                name,
                seconds * 1000 + nanos / 1_000_000,
                matched,
            )
        }),
{
    let name = rendered_name(view_optional_rendering(rendered_table));
    let matched = matched_tags(options@, metric@.tags);
    let tags = match metric.tags {
        Some(tags) => tags@,
        None => Seq::empty(),
    };
    let (seconds, nanos) = choose|seconds: int, nanos: int|
        #[trigger] is_reading(seconds, nanos) && request@ == wide_insert(
            metric@,
            options@,
            name,
            unix_millis(seconds, nanos),
            matched,
        );
    assert(metric@.tags =~= views(tags));
    assert forall|i: int| 0 <= i < tags.len() implies (#[trigger] matched[i] <==> exists|j: int|
        0 <= j < options.tag_column_patterns@.len() && pattern_compiles(
            (#[trigger] options.tag_column_patterns@[j])@,
            usize::BITS,
        ) && pattern_texts(options.tag_column_patterns@[j]@).contains(tags[i].key@)) by {
        assert(metric@.tags[i].key == tags[i].key@);
        assert(matched[i] == patterns_match(options@.tag_column_patterns, tags[i].key@));
        law_patterns_that_match(options.tag_column_patterns@, tags[i].key@);
    }
    ((seconds, nanos), matched)
}

/// A metric of any kind with any value goes into the table that its table name rendered to.
/// Where there is no template, or it failed, the table is named by the namespace, an underscore
/// and the name of the metric, or by the name alone.
pub proof fn law_table_of_a_metric(
    request: RowInsertRequest,
    metric: Metric,
    options: WideRequestBuilderOptions,
    rendered_table: Option<Result<String, String>>,
)
    requires
        inserts(
            request@,
            metric@,
            options@,
            rendered_name(view_optional_rendering(rendered_table)),
        ),
    ensures
        match (options.table, rendered_table, metric.namespace) {
            (Some(_), Some(Ok(rendered)), _) => request.table_name@ == rendered@,
            (_, _, Some(namespace)) => request.table_name@ == namespace@ + seq!['_'] + metric.name@,
            (_, _, None) => request.table_name@ == metric.name@,
        },
{
    let ((seconds, nanos), matched) = law_requests_are_made_from_outside_values(
        request,
        metric,
        options,
        rendered_table,
    );
    law_table_of_a_request(
        request,
        metric,
        options,
        rendered_name(view_optional_rendering(rendered_table)),
        seconds * 1000 + nanos / 1_000_000,
        matched,
    );
}

/// Two metrics with the same namespace and name, for which no table name was rendered, go into
/// the same table.
pub proof fn law_same_name_same_table(
    first: (Metric, RowInsertRequest),
    second: (Metric, RowInsertRequest),
    options: WideRequestBuilderOptions,
    rendered_table: Option<Result<String, String>>,
)
    requires
        rendered_table is None || rendered_table->0 is Err,
        inserts(
            first.1@,
            first.0@,
            options@,
            rendered_name(view_optional_rendering(rendered_table)),
        ),
        inserts(
            second.1@,
            second.0@,
            options@,
            rendered_name(view_optional_rendering(rendered_table)),
        ),
        first.0.name@ == second.0.name@,
        match (first.0.namespace, second.0.namespace) {
            (Some(one), Some(other)) => one@ == other@,
            (None, None) => true,
            _ => false,
        },
    ensures
        first.1.table_name@ == second.1.table_name@,
{
    law_table_of_a_metric(first.1, first.0, options, rendered_table);
    law_table_of_a_metric(second.1, second.0, options, rendered_table);
}

/// The first value in the row is the time index in milliseconds: of the timestamp of the metric,
/// or else of some point in time that the clock can give.
pub proof fn law_time_of_a_metric(
    request: RowInsertRequest,
    metric: Metric,
    options: WideRequestBuilderOptions,
    rendered_table: Option<Result<String, String>>,
) -> (reading: (int, int))
    requires
        inserts(
            request@,
            metric@,
            options@,
            rendered_name(view_optional_rendering(rendered_table)),
        ),
    ensures
        ({
            let row = request.rows->0.rows@[0].values@;
            &&& request.rows is Some
            &&& request.rows->0.rows@.len() == 1
            &&& row.len() > 0
            &&& row[0].value_data matches Some(ValueData::TimestampMillisecondValue(millis))
            &&& match metric.timestamp {
                Some(timestamp) => millis == timestamp.spec_seconds() * 1000
                    + timestamp.spec_nanos() as int / 1_000_000,
                None => millis == reading.0 * 1000 + reading.1 / 1_000_000
                    && -8_334_601_228_800 <= reading.0 <= 8_210_266_876_799 && 0 <= reading.1
                    < 1_000_000_000,
            }
        }),
{
    let ((seconds, nanos), matched) = law_requests_are_made_from_outside_values(
        request,
        metric,
        options,
        rendered_table,
    );
    law_time_index_of_a_row(
        request,
        metric,
        options,
        rendered_name(view_optional_rendering(rendered_table)),
        seconds * 1000 + nanos / 1_000_000,
        matched,
    );
    (seconds, nanos)
}

/// The column of a tag. A tag whose key is listed, or matched by a pattern that compiles, has a
/// tag column that bears its key and holds its text, character for character. So has any other
/// tag that is no number, if the fallback is `tag` or none is given. A number has a field column
/// instead, with the number that its text denotes.
pub proof fn law_column_of_a_tag(
    request: RowInsertRequest,
    metric: Metric,
    options: WideRequestBuilderOptions,
    rendered_table: Option<Result<String, String>>,
    i: int,
) -> (k: int)
    requires
        inserts(
            request@,
            metric@,
            options@,
            rendered_name(view_optional_rendering(rendered_table)),
        ),
        metric.tags is Some,
        0 <= i < metric.tags->0@.len(),
    ensures
        ({
            let tag = metric.tags->0@[i];
            let schema = request.rows->0.schema@;
            let row = request.rows->0.rows@[0].values@;
            let listed = exists|j: int|
                0 <= j < options.tag_columns@.len() && (#[trigger] options.tag_columns@[j])@
                    == tag.key@;
            let matched = exists|j: int|
                0 <= j < options.tag_column_patterns@.len() && pattern_compiles(
                    (#[trigger] options.tag_column_patterns@[j])@,
                    usize::BITS,
                ) && pattern_texts(options.tag_column_patterns@[j]@).contains(tag.key@);
            let number = is_float_text(tag.value@);
            let falls_back = options.fallback_behavior is None || options.fallback_behavior->0@
                == "tag"@;
            &&& listed || matched || (!number && falls_back) ==> {
                &&& 0 < k < schema.len()
                &&& schema[k].column_name@ == tag.key@
                &&& schema[k].semantic_type == SemanticType::Tag
                &&& schema[k].datatype == ColumnDataType::String
                &&& row[k].value_data matches Some(ValueData::StringValue(text))
                &&& text@ == tag.value@
            }
            &&& !listed && !matched && number ==> {
                &&& 0 < k < schema.len()
                &&& schema[k].column_name@ == tag.key@
                &&& schema[k].semantic_type == SemanticType::Field
                &&& schema[k].datatype == ColumnDataType::Float64
                &&& row[k].value_data matches Some(ValueData::F64Value(FieldValue::Parsed(text)))
                &&& text@ == tag.value@
            }
        }),
{
    let ((seconds, nanos), matched) = law_requests_are_made_from_outside_values(
        request,
        metric,
        options,
        rendered_table,
    );
    let origins = law_tag_columns_of_a_row(
        request,
        metric,
        options,
        rendered_name(view_optional_rendering(rendered_table)),
        seconds * 1000 + nanos / 1_000_000,
        matched,
    );
    let tag = metric.tags->0@[i];
    assert(matched[i] <==> exists|j: int|
        0 <= j < options.tag_column_patterns@.len() && pattern_compiles(
            (#[trigger] options.tag_column_patterns@[j])@,
            usize::BITS,
        ) && pattern_texts(options.tag_column_patterns@[j]@).contains(tag.key@));
    if origins.contains(i) {
        let p = choose|p: int| 0 <= p < origins.len() && origins[p] == i;
        1 + p
    } else {
        0
    }
}

/// What is reported of the table name of a metric: if there is a template and it failed to
/// render, one more report, with its reason, for the field `table`, which does not drop the
/// metric; otherwise nothing. Earlier reports stay.
pub proof fn law_report_of_a_table_name(
    before: Seq<TemplateRenderingError>,
    after: Seq<TemplateRenderingError>,
    options: WideRequestBuilderOptions,
    rendered_table: Option<Result<String, String>>,
)
    requires
        views(after) == views(before) + table_errors(
            options@,
            view_optional_rendering(rendered_table),
        ),
    ensures
        match (options.table, rendered_table) {
            (Some(_), Some(Err(error))) => {
                let report = after[before.len() as int];
                &&& after.len() == before.len() + 1
                &&& report.error@ == error@
                &&& report.field is Some && report.field->0@ == "table"@
                &&& !report.drop_event
            },
            _ => after.len() == before.len(),
        },
        forall|p: int|
            0 <= p < before.len() ==> {
                let report = #[trigger] after[p];
                &&& report.error@ == before[p].error@
                &&& report.drop_event == before[p].drop_event
                &&& report.field is Some <==> before[p].field is Some
                &&& report.field is Some ==> report.field->0@ == before[p].field->0@
            },
{
    let reports = table_errors(options@, view_optional_rendering(rendered_table));
    assert(views(after).len() == after.len());
    assert(views(before).len() == before.len());
    assert forall|p: int| 0 <= p < before.len() implies (#[trigger] after[p])@ == before[p]@ by {
        assert(views(after)[p] == views(before)[p]);
    }
    if reports.len() > 0 {
        assert(views(after)[before.len() as int] == reports[0]);
        assert(after[before.len() as int]@ == reports[0]);
    }
}

}
