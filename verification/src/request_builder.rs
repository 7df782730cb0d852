//! From a metric to the request that inserts it as one row of a wide table.
use crate::metric::{
    Bucket, DistributionStatistic, Metric, MetricValue, Quantile, SketchSummary, Tag, TagView,
};
use crate::model::{lemma_filter_push, lemma_views_push, view_option, views};
use crate::number::{is_number, FieldValue, FieldValueView, Float64};
use crate::pattern::{any_matches, compile_patterns, matches_any, patterns_match};
use crate::row::{
    extends, field_column, field_schema, lemma_extends_by_nothing, lemma_extends_twice, schemas,
    tag_schema, text_column, time_column, time_schema, values, ColumnDataType, ColumnSchema, Row,
    RowInsertRequest, Rows, SemanticType, Value, ValueData,
};
use crate::template::{
    rendered_name, view_optional_rendering, Template, TemplateRenderingError,
};
use crate::timestamp::{is_reading, now_millis, unix_millis};
use crate::wide::{
    bucket_columns, distribution_columns, inserts, known_column, matched_tags, percentile_name,
    placement, quantile_columns, sketch_columns, sketch_quantile_columns, table_errors, table_name_of,
    tag_columns, tag_fields, time_index_millis, time_index_name, total_columns, value_columns,
    wide_columns, wide_insert,
};
use vstd::prelude::*;
use vstd::string::*;

verus! {

/// How metrics become rows.
#[derive(Clone, Debug, PartialEq, Eq)]
pub struct WideRequestBuilderOptions {
    /// Whether the time index and the value column get the names that GreptimeDB gives them.
    pub use_new_naming: bool,
    /// The keys of the tags that stay tags.
    pub tag_columns: Vec<String>,
    /// Patterns for further keys of tags that stay tags.
    pub tag_column_patterns: Vec<String>,
    /// What becomes of any other tag whose value is no number: `tag` or nothing keeps it as a
    /// tag, anything else drops it.
    pub fallback_behavior: Option<String>,
    /// The template for the names of tables.
    pub table: Option<Template>,
}

/// The model of [`WideRequestBuilderOptions`].
pub struct OptionsView {
    pub use_new_naming: bool,
    pub tag_columns: Seq<Seq<char>>,
    pub tag_column_patterns: Seq<Seq<char>>,
    pub fallback_behavior: Option<Seq<char>>,
    pub table: Option<Seq<char>>,
}

impl View for WideRequestBuilderOptions {
    type V = OptionsView;

    open spec fn view(&self) -> OptionsView {
        OptionsView {
            use_new_naming: self.use_new_naming,
            tag_columns: views(self.tag_columns@),
            tag_column_patterns: views(self.tag_column_patterns@),
            fallback_behavior: view_option(self.fallback_behavior),
            table: view_option(self.table),
        }
    }
}

/// The quantiles that are taken of a sketch, in percent.
pub const DISTRIBUTION_PERCENTILES: [&'static str; 5] = ["50", "75", "90", "95", "99"];

/// How many columns a distribution has besides its quantiles.
pub const DISTRIBUTION_STAT_FIELD_COUNT: usize = 5;

/// How many columns a histogram or a summary has besides its buckets or quantiles.
pub const SUMMARY_STAT_FIELD_COUNT: usize = 2;

pub const LEGACY_TIME_INDEX_COLUMN_NAME: &'static str = "ts";

pub const TIME_INDEX_COLUMN_NAME: &'static str = "greptime_timestamp";

pub const LEGACY_VALUE_COLUMN_NAME: &'static str = "val";

pub const VALUE_COLUMN_NAME: &'static str = "greptime_value";

/// What becomes of a tag.
#[derive(Clone, Copy, Debug, PartialEq, Eq)]
pub enum Placement {
    /// It stays a tag.
    Tag,
    /// It becomes a field.
    Field,
    /// It is left out.
    Dropped,
}

/// The schema of a field column.
pub fn f64_column(name: &str) -> (column: ColumnSchema)
    ensures
        column@ == field_schema(name@),
{
    ColumnSchema {
        column_name: name.to_owned(),
        semantic_type: SemanticType::Field,
        datatype: ColumnDataType::Float64,
    }
}

/// The schema of the time index column.
pub fn ts_column(name: &str) -> (column: ColumnSchema)
    ensures
        column@ == time_schema(name@),
{
    ColumnSchema {
        column_name: name.to_owned(),
        semantic_type: SemanticType::Timestamp,
        datatype: ColumnDataType::TimestampMillisecond,
    }
}

/// The schema of a tag column.
pub fn tag_column(name: &str) -> (column: ColumnSchema)
    ensures
        column@ == tag_schema(name@),
{
    ColumnSchema {
        column_name: name.to_owned(),
        semantic_type: SemanticType::Tag,
        datatype: ColumnDataType::String,
    }
}

/// Appends a field column.
pub fn encode_f64_value(
    name: &str,
    value: FieldValue,
    schema: &mut Vec<ColumnSchema>,
    columns: &mut Vec<Value>,
)
    ensures
        extends(
            old(schema)@,
            old(columns)@,
            final(schema)@,
            final(columns)@,
            seq![field_column(name@, value@)],
        ),
{
    broadcast use lemma_views_push;

    let ghost column = field_column(name@, value@);
    schema.push(f64_column(name));
    columns.push(Value { value_data: Some(ValueData::F64Value(value)) });
    assert(views(schema@) =~= views(old(schema)@) + schemas(seq![column]));
    assert(views(columns@) =~= views(old(columns)@) + values(seq![column]));
}

/// Appends a field column for a value that is known.
fn encode_known(
    name: &str,
    value: Option<Float64>,
    schema: &mut Vec<ColumnSchema>,
    columns: &mut Vec<Value>,
)
    ensures
        extends(
            old(schema)@,
            old(columns)@,
            final(schema)@,
            final(columns)@,
            known_column(name@, value),
        ),
{
    match value {
        Some(value) => encode_f64_value(name, FieldValue::Given(value), schema, columns),
        None => {
            assert(views(schema@) =~= views(old(schema)@) + schemas(known_column(name@, value)));
            assert(views(columns@) =~= views(old(columns)@) + values(known_column(name@, value)));
        },
    }
}

/// Appends the column of a tag that stays a tag.
fn encode_tag(tag: &Tag, schema: &mut Vec<ColumnSchema>, columns: &mut Vec<Value>)
    ensures
        extends(
            old(schema)@,
            old(columns)@,
            final(schema)@,
            final(columns)@,
            seq![text_column(tag@.key, tag@.value)],
        ),
{
    broadcast use lemma_views_push;

    let ghost column = text_column(tag@.key, tag@.value);
    schema.push(tag_column(tag.key.as_str()));
    columns.push(Value { value_data: Some(ValueData::StringValue(tag.value.clone())) });
    assert(views(schema@) =~= views(old(schema)@) + schemas(seq![column]));
    assert(views(columns@) =~= views(old(columns)@) + values(seq![column]));
}

/// The name of the column of a quantile.
fn percentile_column_name(percent: &str) -> (name: String)
    ensures
        name@ == percentile_name(percent@),
{
    proof {
        reveal_strlit("p0");
        reveal_strlit("p00");
        reveal_strlit("p");
    }
    let len: usize = percent.unicode_len();
    let prefix = if len == 0 {
        "p00"
    } else if len == 1 {
        "p0"
    } else {
        "p"
    };
    let name = prefix.to_owned().concat(percent);
    assert(name@ =~= percentile_name(percent@));
    name
}

/// Appends the columns of quantiles.
pub fn encode_quantiles(
    quantiles: &Vec<Quantile>,
    schema: &mut Vec<ColumnSchema>,
    columns: &mut Vec<Value>,
)
    ensures
        extends(
            old(schema)@,
            old(columns)@,
            final(schema)@,
            final(columns)@,
            quantile_columns(views(quantiles@)),
        ),
{
    let ghost all = quantile_columns(views(quantiles@));
    assert(extends(schema@, columns@, schema@, columns@, all.take(0))) by {
        lemma_extends_by_nothing(schema@, columns@, all.take(0));
    }
    for i in 0..quantiles.len()
        invariant
            all == quantile_columns(views(quantiles@)),
            extends(old(schema)@, old(columns)@, schema@, columns@, all.take(i as int)),
    {
        let ghost before = (schema@, columns@);
        let column_name = percentile_column_name(quantiles[i].percent.as_str());
        encode_f64_value(
            column_name.as_str(),
            FieldValue::Given(quantiles[i].value),
            schema,
            columns,
        );
        proof {
            lemma_extends_twice(
                old(schema)@,
                old(columns)@,
                before.0,
                before.1,
                schema@,
                columns@,
                all.take(i as int),
                seq![all[i as int]],
            );
            assert(all.take(i + 1) =~= all.take(i as int) + seq![all[i as int]]);
        }
    }
    assert(all.take(quantiles@.len() as int) =~= all);
}

/// Appends the columns of histogram buckets.
pub fn encode_histogram(
    buckets: &Vec<Bucket>,
    schema: &mut Vec<ColumnSchema>,
    columns: &mut Vec<Value>,
)
    ensures
        extends(
            old(schema)@,
            old(columns)@,
            final(schema)@,
            final(columns)@,
            bucket_columns(views(buckets@)),
        ),
{
    let ghost all = bucket_columns(views(buckets@));
    assert(extends(schema@, columns@, schema@, columns@, all.take(0))) by {
        lemma_extends_by_nothing(schema@, columns@, all.take(0));
    }
    for i in 0..buckets.len()
        invariant
            all == bucket_columns(views(buckets@)),
            extends(old(schema)@, old(columns)@, schema@, columns@, all.take(i as int)),
    {
        let ghost before = (schema@, columns@);
        let column_name = "b".to_owned().concat(buckets[i].upper_limit.as_str());
        encode_f64_value(
            column_name.as_str(),
            FieldValue::Counted(buckets[i].count),
            schema,
            columns,
        );
        proof {
            lemma_extends_twice(
                old(schema)@,
                old(columns)@,
                before.0,
                before.1,
                schema@,
                columns@,
                all.take(i as int),
                seq![all[i as int]],
            );
            assert(all.take(i + 1) =~= all.take(i as int) + seq![all[i as int]]);
        }
    }
    assert(all.take(buckets@.len() as int) =~= all);
}

/// Appends the columns of how many observations there are, and of their sum.
fn encode_totals(
    count: u64,
    sum: Float64,
    schema: &mut Vec<ColumnSchema>,
    columns: &mut Vec<Value>,
)
    ensures
        extends(
            old(schema)@,
            old(columns)@,
            final(schema)@,
            final(columns)@,
            total_columns(count as nat, sum.bits),
        ),
{
    encode_f64_value("count", FieldValue::Counted(count), schema, columns);
    encode_f64_value("sum", FieldValue::Given(sum), schema, columns);
    let ghost added = total_columns(count as nat, sum.bits);
    assert(views(schema@) =~= views(old(schema)@) + schemas(added));
    assert(views(columns@) =~= views(old(columns)@) + values(added));
}

/// Appends the columns of a distribution.
pub fn encode_distribution(
    statistics: &Option<DistributionStatistic>,
    schema: &mut Vec<ColumnSchema>,
    columns: &mut Vec<Value>,
)
    ensures
        extends(
            old(schema)@,
            old(columns)@,
            final(schema)@,
            final(columns)@,
            distribution_columns(view_option(*statistics)),
        ),
{
    if let Some(stats) = statistics {
        encode_f64_value("min", FieldValue::Given(stats.min), schema, columns);
        encode_f64_value("max", FieldValue::Given(stats.max), schema, columns);
        encode_f64_value("avg", FieldValue::Given(stats.avg), schema, columns);
        encode_f64_value("sum", FieldValue::Given(stats.sum), schema, columns);
        encode_f64_value("count", FieldValue::Counted(stats.count), schema, columns);
        let ghost before = (schema@, columns@);
        let ghost first = distribution_columns(view_option(*statistics)).take(5);
        assert(views(schema@) =~= views(old(schema)@) + schemas(first));
        assert(views(columns@) =~= views(old(columns)@) + values(first));
        encode_quantiles(&stats.quantiles, schema, columns);
        proof {
            let second = quantile_columns(stats@.quantiles);
            lemma_extends_twice(
                old(schema)@,
                old(columns)@,
                before.0,
                before.1,
                schema@,
                columns@,
                first,
                second,
            );
            assert(distribution_columns(view_option(*statistics)) =~= first + second);
        }
    } else {
        proof {
            lemma_extends_by_nothing(schema@, columns@, distribution_columns(None));
        }
    }
}

/// Appends the columns of a sketch.
pub fn encode_sketch(
    sketch: &SketchSummary,
    schema: &mut Vec<ColumnSchema>,
    columns: &mut Vec<Value>,
)
    ensures
        extends(
            old(schema)@,
            old(columns)@,
            final(schema)@,
            final(columns)@,
            sketch_columns(*sketch),
        ),
{
    let ghost start = (schema@, columns@);
    let ghost count = seq![field_column("count"@, FieldValueView::Counted(sketch.count as nat))];
    encode_f64_value("count", FieldValue::Counted(sketch.count as u64), schema, columns);
    let ghost s1 = (schema@, columns@);
    encode_known("min", sketch.min, schema, columns);
    let ghost s2 = (schema@, columns@);
    encode_known("max", sketch.max, schema, columns);
    let ghost s3 = (schema@, columns@);
    encode_known("sum", sketch.sum, schema, columns);
    let ghost s4 = (schema@, columns@);
    encode_known("avg", sketch.avg, schema, columns);
    let ghost min = known_column("min"@, sketch.min);
    let ghost max = known_column("max"@, sketch.max);
    let ghost sum = known_column("sum"@, sketch.sum);
    let ghost avg = known_column("avg"@, sketch.avg);
    let ghost first = count + min + max + sum + avg;
    proof {
        lemma_extends_twice(start.0, start.1, s1.0, s1.1, s2.0, s2.1, count, min);
        lemma_extends_twice(start.0, start.1, s2.0, s2.1, s3.0, s3.1, count + min, max);
        lemma_extends_twice(start.0, start.1, s3.0, s3.1, s4.0, s4.1, count + min + max, sum);
        lemma_extends_twice(
            start.0,
            start.1,
            s4.0,
            s4.1,
            schema@,
            columns@,
            count + min + max + sum,
            avg,
        );
        assert(first + sketch_quantile_columns(sketch.quantiles@, 0) =~= first);
    }
    for i in 0..5
        invariant
            start == (old(schema)@, old(columns)@),
            extends(
                start.0,
                start.1,
                schema@,
                columns@,
                first + sketch_quantile_columns(sketch.quantiles@, i as nat),
            ),
    {
        let ghost before = (schema@, columns@);
        let column_name = percentile_column_name(DISTRIBUTION_PERCENTILES[i]);
        encode_known(column_name.as_str(), sketch.quantiles[i], schema, columns);
        proof {
            let done = sketch_quantile_columns(sketch.quantiles@, i as nat);
            let quantile = known_column(column_name@, sketch.quantiles@[i as int]);
            lemma_extends_twice(
                start.0,
                start.1,
                before.0,
                before.1,
                schema@,
                columns@,
                first + done,
                quantile,
            );
            assert(first + done + quantile =~= first + (done + quantile));
        }
    }
}

/// Appends the columns of the value of a metric.
fn encode_value(
    value: &MetricValue,
    options: &WideRequestBuilderOptions,
    schema: &mut Vec<ColumnSchema>,
    columns: &mut Vec<Value>,
)
    ensures
        extends(
            old(schema)@,
            old(columns)@,
            final(schema)@,
            final(columns)@,
            value_columns(options@, value@),
        ),
{
    let value_column_name = if options.use_new_naming {
        VALUE_COLUMN_NAME
    } else {
        LEGACY_VALUE_COLUMN_NAME
    };
    match value {
        MetricValue::Counter { value } => {
            encode_f64_value(value_column_name, FieldValue::Given(*value), schema, columns);
        },
        MetricValue::Gauge { value } => {
            encode_f64_value(value_column_name, FieldValue::Given(*value), schema, columns);
        },
        MetricValue::ValueSet { values } => {
            encode_f64_value(
                value_column_name,
                FieldValue::Counted(values.len() as u64),
                schema,
                columns,
            );
        },
        MetricValue::Distribution { statistics } => {
            encode_distribution(statistics, schema, columns);
        },
        MetricValue::AggregatedHistogram { buckets, count, sum } => {
            encode_histogram(buckets, schema, columns);
            let ghost before = (schema@, columns@);
            encode_totals(*count, *sum, schema, columns);
            proof {
                lemma_extends_twice(
                    old(schema)@,
                    old(columns)@,
                    before.0,
                    before.1,
                    schema@,
                    columns@,
                    bucket_columns(views(buckets@)),
                    total_columns(*count as nat, sum.bits),
                );
            }
        },
        MetricValue::AggregatedSummary { quantiles, count, sum } => {
            encode_quantiles(quantiles, schema, columns);
            let ghost before = (schema@, columns@);
            encode_totals(*count, *sum, schema, columns);
            proof {
                lemma_extends_twice(
                    old(schema)@,
                    old(columns)@,
                    before.0,
                    before.1,
                    schema@,
                    columns@,
                    quantile_columns(views(quantiles@)),
                    total_columns(*count as nat, sum.bits),
                );
            }
        },
        MetricValue::Sketch { sketch } => {
            encode_sketch(sketch, schema, columns);
        },
    }
}

/// What becomes of a tag. `matched` says whether one of the patterns matches its key.
pub fn place_tag(options: &WideRequestBuilderOptions, tag: &Tag, matched: bool) -> (place: Placement)
    ensures
        place == placement(options@, tag@, matched),
{
    if matched || contains_text(&options.tag_columns, &tag.key) {
        return Placement::Tag;
    }
    if is_number(tag.value.as_str()) {
        return Placement::Field;
    }
    match &options.fallback_behavior {
        None => Placement::Tag,
        Some(behavior) => {
            if *behavior == "tag".to_owned() {
                Placement::Tag
            } else {
                Placement::Dropped
            }
        },
    }
}

/// Whether a text is in a list.
fn contains_text(texts: &Vec<String>, text: &String) -> (found: bool)
    ensures
        found == views(texts@).contains(text@),
{
    for i in 0..texts.len()
        invariant
            forall|j: int| 0 <= j < i ==> views(texts@)[j] != text@,
    {
        if texts[i] == *text {
            assert(views(texts@)[i as int] == text@);
            return true;
        }
    }
    false
}

/// Appends the columns of the tags that stay tags, and then those of the tags that become
/// fields.
fn encode_tags(
    tags: &Vec<Tag>,
    matched: &Vec<bool>,
    options: &WideRequestBuilderOptions,
    schema: &mut Vec<ColumnSchema>,
    columns: &mut Vec<Value>,
)
    requires
        matched@.len() == tags@.len(),
    ensures
        extends(
            old(schema)@,
            old(columns)@,
            final(schema)@,
            final(columns)@,
            tag_columns(options@, views(tags@), matched@) + tag_fields(
                options@,
                views(tags@),
                matched@,
            ),
        ),
{
    let ghost pairs = views(tags@).zip_with(matched@);
    let ghost stays = |tag: (TagView, bool)| placement(options@, tag.0, tag.1) == Placement::Tag;
    let ghost turns = |tag: (TagView, bool)| placement(options@, tag.0, tag.1) == Placement::Field;
    let ghost as_tag = |tag: (TagView, bool)| text_column(tag.0.key, tag.0.value);
    let ghost as_field = |tag: (TagView, bool)|
        field_column(tag.0.key, FieldValueView::Parsed(tag.0.value));
    let ghost plain = |tag: Tag| field_column(tag@.key, FieldValueView::Parsed(tag@.value));
    let mut field_tags: Vec<Tag> = Vec::new();
    proof {
        reveal(Seq::filter);
        lemma_extends_by_nothing(
            schema@,
            columns@,
            pairs.take(0).filter(stays).map_values(as_tag),
        );
        assert(field_tags@.map_values(plain) =~= pairs.take(0).filter(turns).map_values(as_field));
    }
    for i in 0..tags.len()
        invariant
            matched@.len() == tags@.len(),
            pairs == views(tags@).zip_with(matched@),
            stays == (|tag: (TagView, bool)| placement(options@, tag.0, tag.1) == Placement::Tag),
            turns == (|tag: (TagView, bool)| placement(options@, tag.0, tag.1) == Placement::Field),
            as_tag == (|tag: (TagView, bool)| text_column(tag.0.key, tag.0.value)),
            as_field == (|tag: (TagView, bool)|
                field_column(tag.0.key, FieldValueView::Parsed(tag.0.value))),
            plain == (|tag: Tag| field_column(tag@.key, FieldValueView::Parsed(tag@.value))),
            extends(
                old(schema)@,
                old(columns)@,
                schema@,
                columns@,
                pairs.take(i as int).filter(stays).map_values(as_tag),
            ),
            field_tags@.map_values(plain) == pairs.take(i as int).filter(turns).map_values(as_field),
    {
        let ghost before = (schema@, columns@);
        let ghost fields = field_tags@;
        let ghost seen = pairs.take(i as int);
        let ghost pair = pairs[i as int];
        proof {
            assert(pairs.take(i + 1) =~= seen.push(pair));
            lemma_filter_push(seen, pair, stays);
            lemma_filter_push(seen, pair, turns);
        }
        match place_tag(options, &tags[i], matched[i]) {
            Placement::Tag => {
                encode_tag(&tags[i], schema, columns);
                proof {
                    lemma_extends_twice(
                        old(schema)@,
                        old(columns)@,
                        before.0,
                        before.1,
                        schema@,
                        columns@,
                        seen.filter(stays).map_values(as_tag),
                        seq![as_tag(pair)],
                    );
                    assert(seen.filter(stays).push(pair).map_values(as_tag) =~= seen.filter(
                        stays,
                    ).map_values(as_tag) + seq![as_tag(pair)]);
                }
            },
            Placement::Field => {
                let tag = Tag { key: tags[i].key.clone(), value: tags[i].value.clone() };
                field_tags.push(tag);
                proof {
                    assert(field_tags@.map_values(plain) =~= fields.map_values(plain).push(
                        plain(tag),
                    ));
                    assert(seen.filter(turns).push(pair).map_values(as_field) =~= seen.filter(
                        turns,
                    ).map_values(as_field).push(as_field(pair)));
                }
            },
            Placement::Dropped => {},
        }
    }
    let ghost first = tag_columns(options@, views(tags@), matched@);
    let ghost second = tag_fields(options@, views(tags@), matched@);
    proof {
        assert(pairs.take(tags@.len() as int) =~= pairs);
        assert(first + second.take(0) =~= first);
    }
    for i in 0..field_tags.len()
        invariant
            plain == (|tag: Tag| field_column(tag@.key, FieldValueView::Parsed(tag@.value))),
            field_tags@.map_values(plain) == second,
            extends(
                old(schema)@,
                old(columns)@,
                schema@,
                columns@,
                first + second.take(i as int),
            ),
    {
        let ghost before = (schema@, columns@);
        assert(second[i as int] == plain(field_tags@[i as int]));
        encode_f64_value(
            field_tags[i].key.as_str(),
            FieldValue::Parsed(field_tags[i].value.clone()),
            schema,
            columns,
        );
        proof {
            lemma_extends_twice(
                old(schema)@,
                old(columns)@,
                before.0,
                before.1,
                schema@,
                columns@,
                first + second.take(i as int),
                seq![second[i as int]],
            );
            assert(first + second.take(i as int) + seq![second[i as int]] =~= first + second.take(
                i + 1,
            ));
        }
    }
    assert(second.take(field_tags@.len() as int) =~= second);
}

/// The table of a metric.
fn table_name(
    metric: &Metric,
    options: &WideRequestBuilderOptions,
    rendered_table: Option<String>,
) -> (name: String)
    ensures
        name@ == table_name_of(metric@, options@, view_option(rendered_table)),
{
    if options.table.is_some() {
        if let Some(name) = rendered_table {
            return name;
        }
    }
    match &metric.namespace {
        Some(namespace) => namespace.clone().concat("_").concat(metric.name.as_str()),
        None => metric.name.clone(),
    }
}

/// The request that inserts a metric as one row, when everything from outside is given:
/// `rendered_table` is what the table template renders to for this metric, if it does; `now` is
/// the time for a metric that has none; `matched` tells of each tag whether one of the patterns
/// in the options matches its key.
pub fn wide_insert_request(
    metric: &Metric,
    options: &WideRequestBuilderOptions,
    rendered_table: Option<String>,
    now: i64,
    matched: &Vec<bool>,
) -> (request: RowInsertRequest)
    requires
        matched@.len() == metric@.tags.len(),
    ensures
        request@ == wide_insert(
            metric@,
            options@,
            view_option(rendered_table),
            now as int,
            matched@,
        ),
{
    broadcast use lemma_views_push;

    let table_name = table_name(metric, options, rendered_table);
    let mut schema: Vec<ColumnSchema> = Vec::new();
    let mut columns: Vec<Value> = Vec::new();
    let ghost start = (schema@, columns@);

    // timestamp
    let timestamp: i64 = match &metric.timestamp {
        Some(timestamp) => timestamp.timestamp_millis(),
        None => now,
    };
    schema.push(
        ts_column(
            if options.use_new_naming {
                TIME_INDEX_COLUMN_NAME
            } else {
                LEGACY_TIME_INDEX_COLUMN_NAME
            },
        ),
    );
    columns.push(Value { value_data: Some(ValueData::TimestampMillisecondValue(timestamp)) });
    let ghost time = seq![
        time_column(time_index_name(options@), time_index_millis(metric@, now as int)),
    ];
    assert(views(schema@) =~= views(start.0) + schemas(time));
    assert(views(columns@) =~= views(start.1) + values(time));

    // tags, and fields converted from tags
    let ghost timed = (schema@, columns@);
    let ghost of_tags = tag_columns(options@, metric@.tags, matched@) + tag_fields(
        options@,
        metric@.tags,
        matched@,
    );
    if let Some(tags) = &metric.tags {
        encode_tags(tags, matched, options, &mut schema, &mut columns);
    } else {
        proof {
            reveal(Seq::filter);
            lemma_extends_by_nothing(schema@, columns@, of_tags);
        }
    }
    let ghost tagged = (schema@, columns@);

    // fields
    encode_value(&metric.value, options, &mut schema, &mut columns);
    let ghost fields = value_columns(options@, metric@.value);
    let ghost all = wide_columns(metric@, options@, now as int, matched@);
    proof {
        lemma_extends_twice(
            start.0,
            start.1,
            timed.0,
            timed.1,
            tagged.0,
            tagged.1,
            time,
            of_tags,
        );
        lemma_extends_twice(
            start.0,
            start.1,
            tagged.0,
            tagged.1,
            schema@,
            columns@,
            time + of_tags,
            fields,
        );
        assert(time + of_tags + fields =~= all);
        assert(views(schema@) =~= schemas(all));
        assert(views(columns@) =~= values(all));
    }
    let row = Row { values: columns };
    let rows = vec![row];
    assert(views(rows@) =~= seq![values(all)]);
    RowInsertRequest { table_name, rows: Some(Rows { schema, rows }) }
}

/// Of each tag, whether one of the patterns in the options matches its key.
pub fn match_tags(options: &WideRequestBuilderOptions, tags: &Vec<Tag>) -> (matched: Vec<bool>)
    ensures
        matched@ == matched_tags(options@, views(tags@)),
{
    let patterns = compile_patterns(&options.tag_column_patterns);
    let mut matched: Vec<bool> = Vec::new();
    for i in 0..tags.len()
        invariant
            forall|text: Seq<char>| #[trigger]
                any_matches(patterns@, text) == patterns_match(options@.tag_column_patterns, text),
            matched@ == matched_tags(options@, views(tags@)).take(i as int),
    {
        let found: bool = matches_any(&patterns, tags[i].key.as_str());
        matched.push(found);
        assert(matched@ =~= matched_tags(options@, views(tags@)).take(i + 1));
    }
    assert(matched_tags(options@, views(tags@)).take(tags@.len() as int) =~= matched_tags(
        options@,
        views(tags@),
    ));
    matched
}

/// The request that inserts a metric as one row. A metric without a timestamp gets the current
/// time.
///
/// `rendered_table` is what rendering the table template for this metric came to, `None` where
/// there is no template. If it failed, the metric goes into the table with the default name, and
/// the failure is added to `errors`.
pub fn metric_to_wide_insert_request(
    metric: Metric,
    options: &WideRequestBuilderOptions,
    rendered_table: Option<Result<String, String>>,
    errors: &mut Vec<TemplateRenderingError>,
) -> (request: RowInsertRequest)
    ensures
        inserts(
            request@,
            metric@,
            options@,
            rendered_name(view_optional_rendering(rendered_table)),
        ),
        views(final(errors)@) == views(old(errors)@) + table_errors(
            options@,
            view_optional_rendering(rendered_table),
        ),
{
    broadcast use lemma_views_push;

    let ghost rendering = view_optional_rendering(rendered_table);
    let name = match rendered_table {
        Some(Ok(name)) => Some(name),
        Some(Err(error)) => {
            if options.table.is_some() {
                errors.push(
                    TemplateRenderingError { error, field: Some("table"), drop_event: false },
                );
            }
            None
        },
        None => None,
    };
    assert(views(errors@) =~= views(old(errors)@) + table_errors(options@, rendering));
    let matched = match &metric.tags {
        Some(tags) => match_tags(options, tags),
        None => Vec::new(),
    };
    assert(matched@ =~= matched_tags(options@, metric@.tags));
    // The clock is read only where it matters.
    let now: i64 = if metric.timestamp.is_some() {
        0
    } else {
        now_millis()
    };
    assert(is_reading(0, 0) && unix_millis(0, 0) == 0);
    wide_insert_request(&metric, options, name, now, &matched)
}

}
