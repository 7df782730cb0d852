use chrono::Utc;
use greptimedb_wide_metrics::metric::{
    Bucket, DistributionStatistic, Metric, MetricKind, MetricValue, Quantile, SketchSummary, Tag,
};
use greptimedb_wide_metrics::number::{FieldValue, Float64};
use greptimedb_wide_metrics::request_builder::{
    encode_histogram, encode_quantiles, match_tags, metric_to_wide_insert_request, place_tag,
    wide_insert_request, Placement, WideRequestBuilderOptions, DISTRIBUTION_PERCENTILES, DISTRIBUTION_STAT_FIELD_COUNT,
    LEGACY_TIME_INDEX_COLUMN_NAME, LEGACY_VALUE_COLUMN_NAME, SUMMARY_STAT_FIELD_COUNT,
    TIME_INDEX_COLUMN_NAME, VALUE_COLUMN_NAME,
};
use greptimedb_wide_metrics::row::{
    ColumnDataType, ColumnSchema, Rows, SemanticType, Value, ValueData,
};
use greptimedb_wide_metrics::template::{Template, TemplateRenderingError};
use greptimedb_wide_metrics::timestamp::Timestamp;

fn float(value: f64) -> Float64 {
    Float64 { bits: value.to_bits() }
}

fn to_f64(value: &FieldValue) -> f64 {
    match value {
        FieldValue::Given(value) => f64::from_bits(value.bits),
        FieldValue::Parsed(text) => text.parse::<f64>().unwrap(),
        FieldValue::Counted(count) => *count as f64,
    }
}

fn now() -> Option<Timestamp> {
    let now = Utc::now();
    Timestamp::new(now.timestamp(), now.timestamp_subsec_nanos())
}

fn tag(key: &str, value: &str) -> Tag {
    Tag { key: key.to_owned(), value: value.to_owned() }
}

fn metric(name: &str, namespace: Option<&str>, tags: Vec<Tag>, value: MetricValue) -> Metric {
    Metric {
        name: name.to_owned(),
        namespace: namespace.map(|ns| ns.to_owned()),
        timestamp: now(),
        kind: MetricKind::Absolute,
        tags: Some(tags),
        value,
    }
}

fn options() -> WideRequestBuilderOptions {
    WideRequestBuilderOptions {
        use_new_naming: false,
        tag_columns: vec![],
        tag_column_patterns: vec![],
        fallback_behavior: None,
        table: None,
    }
}

fn index_of(rows: &Rows, name: &str) -> usize {
    rows.schema.iter().position(|c| c.column_name == name).unwrap()
}

fn get_column(rows: &Rows, name: &str) -> f64 {
    match rows.rows[0].values[index_of(rows, name)].value_data.as_ref().expect("null value") {
        ValueData::F64Value(v) => to_f64(v),
        _ => unreachable!(),
    }
}

fn get_tag(rows: &Rows, name: &str) -> String {
    match rows.rows[0].values[index_of(rows, name)].value_data.as_ref().expect("null value") {
        ValueData::StringValue(v) => v.clone(),
        _ => unreachable!(),
    }
}

fn names(rows: &Rows) -> Vec<&str> {
    rows.schema.iter().map(|c| c.column_name.as_ref()).collect()
}

fn value_rows(value: MetricValue) -> Rows {
    let metric = metric("m", None, vec![], value);
    metric_to_wide_insert_request(metric, &options(), None, &mut vec![]).rows.expect("Empty insert request")
}

#[test]
fn test_wide_default_all_fields() {
    let metric = metric(
        "aocs_tm",
        Some("ssw_test"),
        vec![tag("alpha_0", "1.5"), tag("gps_altitude", "500"), tag("host", "node1")],
        MetricValue::Gauge { value: float(99.0) },
    );

    let insert = metric_to_wide_insert_request(metric, &options(), None, &mut vec![]);
    assert_eq!(insert.table_name, "ssw_test_aocs_tm");
    let rows = insert.rows.expect("Empty insert request");
    // ts + alpha_0(FIELD) + gps_altitude(FIELD) + host(TAG fallback) + val = 5
    assert_eq!(rows.rows[0].values.len(), 5);

    assert_eq!(get_column(&rows, "alpha_0"), 1.5);
    assert_eq!(get_column(&rows, "gps_altitude"), 500.0);
    assert_eq!(get_column(&rows, LEGACY_VALUE_COLUMN_NAME), 99.0);
    assert_eq!(get_tag(&rows, "host"), "node1");
}

#[test]
fn test_wide_whitelist_tag_columns() {
    let metric = metric(
        "aocs_tm",
        Some("ssw_test"),
        vec![
            tag("task_instance_id", "399"),
            tag("alpha_0", "1.5"),
            tag("gps_altitude", "500"),
            tag("host", "node1"),
        ],
        MetricValue::Gauge { value: float(99.0) },
    );
    let options = WideRequestBuilderOptions {
        tag_columns: vec!["task_instance_id".to_owned(), "host".to_owned()],
        ..options()
    };

    let insert = metric_to_wide_insert_request(metric, &options, None, &mut vec![]);
    let rows = insert.rows.expect("Empty insert request");
    // ts + task_instance_id(TAG) + host(TAG) + alpha_0(FIELD) + gps_altitude(FIELD) + val = 6
    assert_eq!(rows.rows[0].values.len(), 6);

    let column_names = names(&rows);
    assert!(column_names.contains(&"task_instance_id"));
    assert!(column_names.contains(&"host"));
    assert!(column_names.contains(&"alpha_0"));
    assert!(column_names.contains(&"gps_altitude"));
    assert!(column_names.contains(&LEGACY_VALUE_COLUMN_NAME));

    assert_eq!(get_column(&rows, "alpha_0"), 1.5);
    assert_eq!(get_column(&rows, "gps_altitude"), 500.0);
    assert_eq!(get_column(&rows, LEGACY_VALUE_COLUMN_NAME), 99.0);
}

#[test]
fn test_wide_tag_column_patterns() {
    let metric = metric(
        "aocs_tm",
        Some("ssw_test"),
        vec![
            tag("task_instance_id", "399"),
            tag("aocs_alpha", "2.0"),
            tag("aocs_beta", "3.0"),
            tag("host", "node1"),
        ],
        MetricValue::Gauge { value: float(99.0) },
    );
    let options = WideRequestBuilderOptions {
        tag_columns: vec!["task_instance_id".to_owned()],
        tag_column_patterns: vec!["^aocs_.*".to_owned()],
        ..options()
    };

    let insert = metric_to_wide_insert_request(metric, &options, None, &mut vec![]);
    let rows = insert.rows.expect("Empty insert request");
    // ts + task_instance_id(TAG) + aocs_alpha(TAG) + aocs_beta(TAG) + host(TAG) + val = 6
    assert_eq!(rows.rows[0].values.len(), 6);

    assert_eq!(get_tag(&rows, "aocs_alpha"), "2.0");
    assert_eq!(get_tag(&rows, "aocs_beta"), "3.0");
    // "node1" is no number, so it falls back to a tag.
    assert_eq!(rows.schema[index_of(&rows, "host")].semantic_type, SemanticType::Tag);
    assert_eq!(get_tag(&rows, "host"), "node1");
}

#[test]
fn test_wide_fallback_drop() {
    let metric = metric(
        "aocs_tm",
        Some("ssw_test"),
        vec![tag("task_instance_id", "399"), tag("alpha_0", "1.5"), tag("host", "node1")],
        MetricValue::Gauge { value: float(99.0) },
    );
    let options = WideRequestBuilderOptions {
        tag_columns: vec!["task_instance_id".to_owned()],
        fallback_behavior: Some("drop".to_owned()),
        ..options()
    };

    let insert = metric_to_wide_insert_request(metric, &options, None, &mut vec![]);
    let rows = insert.rows.expect("Empty insert request");
    // ts + task_instance_id(TAG) + alpha_0(FIELD) + val = 4 (host dropped)
    assert_eq!(rows.rows[0].values.len(), 4);

    assert_eq!(get_column(&rows, "alpha_0"), 1.5);
    assert_eq!(get_column(&rows, LEGACY_VALUE_COLUMN_NAME), 99.0);
}

#[test]
fn test_counter() {
    let metric = Metric {
        name: "cpu_seconds_total".to_owned(),
        namespace: None,
        timestamp: None,
        kind: MetricKind::Incremental,
        tags: None,
        value: MetricValue::Counter { value: float(1.1) },
    };

    let insert = metric_to_wide_insert_request(metric, &options(), None, &mut vec![]);
    let rows = insert.rows.expect("Empty insert request");
    assert_eq!(rows.rows[0].values.len(), 2);

    assert_eq!(get_column(&rows, LEGACY_VALUE_COLUMN_NAME), 1.1);
}

#[test]
fn one_row_with_one_value_for_each_column() {
    let metric = metric(
        "m",
        None,
        vec![tag("a", "x"), tag("b", "1"), tag("c", "y")],
        MetricValue::Gauge { value: float(2.5) },
    );
    let rows = metric_to_wide_insert_request(metric, &options(), None, &mut vec![]).rows.unwrap();
    assert_eq!(rows.rows.len(), 1);
    assert_eq!(rows.rows[0].values.len(), rows.schema.len());
    assert_eq!(names(&rows), vec!["ts", "a", "c", "b", "val"]);
    let types: Vec<SemanticType> = rows.schema.iter().map(|c| c.semantic_type).collect();
    assert_eq!(
        types,
        vec![
            SemanticType::Timestamp,
            SemanticType::Tag,
            SemanticType::Tag,
            SemanticType::Field,
            SemanticType::Field,
        ]
    );
    let datatypes: Vec<ColumnDataType> = rows.schema.iter().map(|c| c.datatype).collect();
    assert_eq!(
        datatypes,
        vec![
            ColumnDataType::TimestampMillisecond,
            ColumnDataType::String,
            ColumnDataType::String,
            ColumnDataType::Float64,
            ColumnDataType::Float64,
        ]
    );
    assert!(rows.rows[0].values.iter().all(|v| v.value_data.is_some()));
}

#[test]
fn time_index_holds_the_timestamp_of_the_metric() {
    let mut metric = metric("m", None, vec![], MetricValue::Gauge { value: float(0.0) });
    metric.timestamp = Timestamp::new(1_000_000_000, 555_999_999);
    let request = wide_insert_request(&metric, &options(), None, 7, &vec![]);
    let rows = request.rows.unwrap();
    assert_eq!(
        rows.rows[0].values[0].value_data,
        Some(ValueData::TimestampMillisecondValue(1_000_000_000_555))
    );
    metric.timestamp = None;
    let rows = wide_insert_request(&metric, &options(), None, 7, &vec![]).rows.unwrap();
    assert_eq!(rows.rows[0].values[0].value_data, Some(ValueData::TimestampMillisecondValue(7)));
}

#[test]
fn timestamped_metrics_do_not_depend_on_the_clock() {
    let metric = metric("m", None, vec![], MetricValue::Gauge { value: float(0.0) });
    let first = metric_to_wide_insert_request(metric.clone(), &options(), None, &mut vec![]);
    let second = metric_to_wide_insert_request(metric, &options(), None, &mut vec![]);
    assert_eq!(first, second);
}

#[test]
fn metrics_without_a_timestamp_get_the_current_time() {
    let mut metric = metric("m", None, vec![], MetricValue::Gauge { value: float(0.0) });
    metric.timestamp = None;
    let before = Utc::now().timestamp_millis();
    let rows = metric_to_wide_insert_request(metric, &options(), None, &mut vec![]).rows.unwrap();
    let after = Utc::now().timestamp_millis();
    match rows.rows[0].values[0].value_data {
        Some(ValueData::TimestampMillisecondValue(millis)) => {
            assert!(before <= millis && millis <= after)
        }
        _ => unreachable!(),
    }
}

#[test]
fn new_naming_changes_two_names() {
    let metric = metric("m", None, vec![tag("a", "1")], MetricValue::Counter { value: float(3.0) });
    let renamed = WideRequestBuilderOptions { use_new_naming: true, ..options() };
    let old = metric_to_wide_insert_request(metric.clone(), &options(), None, &mut vec![]).rows.unwrap();
    let new = metric_to_wide_insert_request(metric, &renamed, None, &mut vec![]).rows.unwrap();
    assert_eq!(
        names(&old),
        vec![LEGACY_TIME_INDEX_COLUMN_NAME, "a", LEGACY_VALUE_COLUMN_NAME]
    );
    assert_eq!(names(&new), vec![TIME_INDEX_COLUMN_NAME, "a", VALUE_COLUMN_NAME]);
    assert_eq!(names(&old), vec!["ts", "a", "val"]);
    assert_eq!(names(&new), vec!["greptime_timestamp", "a", "greptime_value"]);
    assert_eq!(old.rows, new.rows);
}

#[test]
fn new_naming_leaves_tags_and_statistics_alone() {
    let renamed = WideRequestBuilderOptions { use_new_naming: true, ..options() };
    let tags = vec![tag("val", "x"), tag("ts", "1")];
    let gauge = metric("m", None, tags.clone(), MetricValue::Gauge { value: float(3.0) });
    let new = metric_to_wide_insert_request(gauge, &renamed, None, &mut vec![]).rows.unwrap();
    assert_eq!(names(&new), vec!["greptime_timestamp", "val", "ts", "greptime_value"]);

    let histogram = Metric { tags: Some(tags), ..metric_with_two_buckets() };
    let new = metric_to_wide_insert_request(histogram, &renamed, None, &mut vec![]).rows.unwrap();
    assert_eq!(
        names(&new),
        vec!["greptime_timestamp", "val", "ts", "b1", "b2", "count", "sum"]
    );
}

#[test]
fn table_names() {
    let templated = WideRequestBuilderOptions {
        table: Some(Template { text: "{{ tags.task_id }}_{{ metric.name }}".to_owned() }),
        ..options()
    };
    let metric = metric("aocs_tm", Some("ssw_test"), vec![], MetricValue::Gauge { value: float(1.0) });
    let build = |options: &WideRequestBuilderOptions, rendered: Option<Result<&str, &str>>| {
        let rendered = rendered.map(|r| r.map(|n| n.to_owned()).map_err(|e| e.to_owned()));
        let mut errors = vec![];
        let request =
            metric_to_wide_insert_request(metric.clone(), options, rendered, &mut errors);
        (request, errors)
    };

    // The template overrides the default name.
    let (overridden, errors) = build(&templated, Some(Ok("399_aocs_tm")));
    assert_eq!(overridden.table_name, "399_aocs_tm");
    assert_eq!(errors, vec![]);
    // A template that fails to render costs only the name, and is reported.
    let (failed, errors) = build(&templated, Some(Err("missing field: tags.task_id")));
    assert_eq!(failed.table_name, "ssw_test_aocs_tm");
    assert_eq!(failed.rows, overridden.rows);
    assert_eq!(
        errors,
        vec![TemplateRenderingError {
            error: "missing field: tags.task_id".to_owned(),
            field: Some("table"),
            drop_event: false,
        }]
    );
    // It is as if there were no template.
    let (plain, errors) = build(&options(), None);
    assert_eq!(plain, failed);
    assert_eq!(errors, vec![]);
    // Without a template no rendering matters.
    for rendered in [Ok("399_aocs_tm"), Err("missing field: tags.task_id")] {
        assert_eq!(build(&options(), Some(rendered)), (plain.clone(), vec![]));
    }

    let bare = Metric { namespace: None, ..metric.clone() };
    assert_eq!(metric_to_wide_insert_request(bare, &options(), None, &mut vec![]).table_name, "aocs_tm");
}

#[test]
fn placements() {
    let listed = WideRequestBuilderOptions { tag_columns: vec!["id".to_owned()], ..options() };
    assert_eq!(place_tag(&listed, &tag("id", "1"), false), Placement::Tag);
    assert_eq!(place_tag(&listed, &tag("x", "1"), true), Placement::Tag);
    assert_eq!(place_tag(&listed, &tag("x", "1"), false), Placement::Field);
    assert_eq!(place_tag(&listed, &tag("x", "one"), false), Placement::Tag);
    assert_eq!(place_tag(&listed, &tag("ID", "1"), false), Placement::Field);

    let fallback = |behavior: &str| WideRequestBuilderOptions {
        fallback_behavior: Some(behavior.to_owned()),
        ..options()
    };
    assert_eq!(place_tag(&fallback("tag"), &tag("x", "one"), false), Placement::Tag);
    assert_eq!(place_tag(&fallback("drop"), &tag("x", "one"), false), Placement::Dropped);
    assert_eq!(place_tag(&fallback("Tag"), &tag("x", "one"), false), Placement::Dropped);
    assert_eq!(place_tag(&fallback("drop"), &tag("x", "1e3"), false), Placement::Field);
    assert_eq!(place_tag(&fallback("drop"), &tag("x", "one"), true), Placement::Tag);
}

#[test]
fn dropped_tags_have_no_column() {
    let dropping =
        WideRequestBuilderOptions { fallback_behavior: Some("drop".to_owned()), ..options() };
    let tags = vec![tag("a", "x"), tag("b", "2"), tag("val", "y")];
    let metric = metric("m", None, tags, MetricValue::Gauge { value: float(1.0) });
    let rows = metric_to_wide_insert_request(metric, &dropping, None, &mut vec![]).rows.unwrap();
    assert_eq!(names(&rows), vec!["ts", "b", "val"]);
    assert_eq!(get_column(&rows, "val"), 1.0);
}

#[test]
fn no_tag_is_lost_by_default() {
    let tags = vec![tag("a", "x"), tag("b", "2"), tag("c", ""), tag("d", "-inf")];
    let metric = metric("m", None, tags, MetricValue::Gauge { value: float(1.0) });
    let rows = metric_to_wide_insert_request(metric, &options(), None, &mut vec![]).rows.unwrap();
    assert_eq!(rows.schema.len(), 1 + 4 + 1);
    assert_eq!(get_column(&rows, "d"), f64::NEG_INFINITY);
    assert_eq!(get_tag(&rows, "c"), "");
}

#[test]
fn patterns_select_keys() {
    let tags = vec![tag("aocs_x", "1"), tag("x_aocs_", "2"), tag("resource.service.name", "3")];
    let with = |patterns: Vec<&str>| WideRequestBuilderOptions {
        tag_column_patterns: patterns.into_iter().map(|p| p.to_owned()).collect(),
        ..options()
    };
    assert_eq!(match_tags(&with(vec!["^aocs_.*"]), &tags), vec![true, false, false]);
    assert_eq!(match_tags(&with(vec!["aocs_"]), &tags), vec![true, true, false]);
    assert_eq!(
        match_tags(&with(vec!["^resource\\.service\\..*", "^x"]), &tags),
        vec![false, true, true]
    );
    assert_eq!(match_tags(&with(vec![]), &tags), vec![false, false, false]);
    // A pattern that does not compile has no effect.
    assert_eq!(match_tags(&with(vec!["(", "^aocs_"]), &tags), vec![true, false, false]);
    assert_eq!(match_tags(&with(vec!["^aocs_", "["]), &tags), vec![true, false, false]);
}

#[test]
fn sets_count_their_texts() {
    let values = vec!["a".to_owned(), "b".to_owned(), "c".to_owned()];
    let rows = value_rows(MetricValue::ValueSet { values });
    assert_eq!(names(&rows), vec!["ts", "val"]);
    assert_eq!(get_column(&rows, "val"), 3.0);
}

#[test]
fn distributions() {
    let quantiles = vec![
        Quantile { percent: (0.5 * 100f64).to_string(), value: float(2.0) },
        Quantile { percent: (0.05 * 100f64).to_string(), value: float(1.0) },
        Quantile { percent: (0.999 * 100f64).to_string(), value: float(4.0) },
    ];
    let rows = value_rows(MetricValue::Distribution {
        statistics: Some(DistributionStatistic {
            min: float(1.0),
            max: float(4.0),
            avg: float(2.5),
            sum: float(10.0),
            count: 4,
            quantiles,
        }),
    });
    assert_eq!(rows.schema.len(), 1 + DISTRIBUTION_STAT_FIELD_COUNT + 3);
    assert_eq!(
        names(&rows),
        vec!["ts", "min", "max", "avg", "sum", "count", "p50", "p05", "p99.9"]
    );
    assert_eq!(format!("p{:02}", 0.05 * 100f64), "p05");
    assert_eq!(format!("p{:02}", 0.999 * 100f64), "p99.9");
    assert_eq!(get_column(&rows, "min"), 1.0);
    assert_eq!(get_column(&rows, "max"), 4.0);
    assert_eq!(get_column(&rows, "avg"), 2.5);
    assert_eq!(get_column(&rows, "sum"), 10.0);
    assert_eq!(get_column(&rows, "count"), 4.0);
    assert_eq!(get_column(&rows, "p50"), 2.0);
    assert_eq!(get_column(&rows, "p99.9"), 4.0);

    let empty = value_rows(MetricValue::Distribution { statistics: None });
    assert_eq!(names(&empty), vec!["ts"]);
}

#[test]
fn histograms() {
    let rows = value_rows(MetricValue::AggregatedHistogram {
        buckets: vec![
            Bucket { upper_limit: 1.0f64.to_string(), count: 1 },
            Bucket { upper_limit: 2.5f64.to_string(), count: 2 },
            Bucket { upper_limit: f64::INFINITY.to_string(), count: 0 },
        ],
        count: 3,
        sum: float(4.5),
    });
    assert_eq!(rows.schema.len(), 1 + SUMMARY_STAT_FIELD_COUNT + 3);
    assert_eq!(names(&rows), vec!["ts", "b1", "b2.5", "binf", "count", "sum"]);
    assert_eq!(get_column(&rows, "b1"), 1.0);
    assert_eq!(get_column(&rows, "b2.5"), 2.0);
    assert_eq!(get_column(&rows, "binf"), 0.0);
    assert_eq!(get_column(&rows, "count"), 3.0);
    assert_eq!(get_column(&rows, "sum"), 4.5);
}

#[test]
fn summaries() {
    let rows = value_rows(MetricValue::AggregatedSummary {
        quantiles: vec![
            Quantile { percent: (0.01 * 100f64).to_string(), value: float(1.5) },
            Quantile { percent: (1.0 * 100f64).to_string(), value: float(5.5) },
        ],
        count: 6,
        sum: float(12.0),
    });
    assert_eq!(rows.schema.len(), 1 + SUMMARY_STAT_FIELD_COUNT + 2);
    assert_eq!(names(&rows), vec!["ts", "p01", "p100", "count", "sum"]);
    assert_eq!(get_column(&rows, "p01"), 1.5);
    assert_eq!(get_column(&rows, "p100"), 5.5);
    assert_eq!(get_column(&rows, "count"), 6.0);
    assert_eq!(get_column(&rows, "sum"), 12.0);
}

#[test]
fn sketches() {
    let full = value_rows(MetricValue::Sketch {
        sketch: SketchSummary {
            count: 10,
            min: Some(float(1.0)),
            max: Some(float(9.0)),
            sum: Some(float(50.0)),
            avg: Some(float(5.0)),
            quantiles: [
                Some(float(5.0)),
                Some(float(7.0)),
                Some(float(8.0)),
                Some(float(8.5)),
                Some(float(8.9)),
            ],
        },
    });
    assert_eq!(
        names(&full),
        vec!["ts", "count", "min", "max", "sum", "avg", "p50", "p75", "p90", "p95", "p99"]
    );
    assert_eq!(get_column(&full, "count"), 10.0);
    assert_eq!(get_column(&full, "avg"), 5.0);
    assert_eq!(get_column(&full, "p99"), 8.9);

    let partial = value_rows(MetricValue::Sketch {
        sketch: SketchSummary {
            count: 0,
            min: None,
            max: Some(float(1.0)),
            sum: None,
            avg: None,
            quantiles: [None, None, Some(float(2.0)), None, None],
        },
    });
    assert_eq!(names(&partial), vec!["ts", "count", "max", "p90"]);
    assert_eq!(get_column(&partial, "p90"), 2.0);
}

#[test]
fn percentiles_are_those_of_the_quantiles() {
    let quantiles: [f64; 5] = [0.5, 0.75, 0.90, 0.95, 0.99];
    for i in 0..5 {
        assert_eq!(DISTRIBUTION_PERCENTILES[i], (quantiles[i] * 100f64).to_string());
        assert_eq!(
            format!("p{}", DISTRIBUTION_PERCENTILES[i]),
            format!("p{:02}", quantiles[i] * 100f64)
        );
    }
}

#[test]
fn keeping_more_keys_loses_no_tag() {
    let few = WideRequestBuilderOptions { tag_columns: vec!["id".to_owned()], ..options() };
    let more = WideRequestBuilderOptions {
        tag_columns: vec!["host".to_owned(), "id".to_owned()],
        ..options()
    };
    for kept in [tag("id", "399"), tag("zone", "east")] {
        assert_eq!(place_tag(&few, &kept, false), Placement::Tag);
        assert_eq!(place_tag(&more, &kept, false), Placement::Tag);
        assert_eq!(place_tag(&more, &kept, true), Placement::Tag);
    }
    assert_eq!(place_tag(&few, &tag("host", "7"), false), Placement::Field);
    assert_eq!(place_tag(&more, &tag("host", "7"), false), Placement::Tag);
}

#[test]
fn column_names_are_distinct() {
    let tags = vec![tag("a", "1"), tag("b", "x"), tag("c", "2"), tag("d", "y")];
    let metric = metric("m", None, tags, MetricValue::Counter { value: float(1.0) });
    let rows = metric_to_wide_insert_request(metric, &options(), None, &mut vec![]).rows.unwrap();
    assert_eq!(names(&rows), vec!["ts", "b", "d", "a", "c", "val"]);

    let mut histogram = metric_with_two_buckets();
    histogram.tags = Some(vec![tag("a", "1"), tag("b", "x")]);
    let rows = metric_to_wide_insert_request(histogram, &options(), None, &mut vec![]).rows.unwrap();
    assert_eq!(names(&rows), vec!["ts", "b", "a", "b1", "b2", "count", "sum"]);
}

fn metric_with_two_buckets() -> Metric {
    let buckets = vec![
        Bucket { upper_limit: "1".to_owned(), count: 2 },
        Bucket { upper_limit: "2".to_owned(), count: 3 },
    ];
    metric(
        "m",
        None,
        vec![],
        MetricValue::AggregatedHistogram { buckets, count: 5, sum: float(6.0) },
    )
}

#[test]
fn parsed_fields_hold_the_text_of_a_number() {
    let tags = vec![tag("a", "+1.50e2"), tag("b", "1.5.0")];
    let metric = metric("m", None, tags, MetricValue::Gauge { value: float(1.0) });
    let rows = metric_to_wide_insert_request(metric, &options(), None, &mut vec![]).rows.unwrap();
    assert_eq!(
        rows.rows[0].values[index_of(&rows, "a")].value_data,
        Some(ValueData::F64Value(FieldValue::Parsed("+1.50e2".to_owned())))
    );
    assert_eq!(get_column(&rows, "a"), 150.0);
    assert_eq!(get_tag(&rows, "b"), "1.5.0");
}

#[test]
fn buckets_are_encoded_one_after_the_other() {
    let bucket = |limit: &str, count: u64| Bucket { upper_limit: limit.to_owned(), count };
    let (mut schema, mut columns): (Vec<ColumnSchema>, Vec<Value>) = (vec![], vec![]);
    encode_histogram(&vec![], &mut schema, &mut columns);
    assert_eq!((schema.len(), columns.len()), (0, 0));
    encode_histogram(&vec![bucket("0.5", 1), bucket("1", 2)], &mut schema, &mut columns);
    encode_histogram(&vec![bucket("inf", 3)], &mut schema, &mut columns);

    let (mut all_schema, mut all_columns) = (vec![], vec![]);
    let all = vec![bucket("0.5", 1), bucket("1", 2), bucket("inf", 3)];
    encode_histogram(&all, &mut all_schema, &mut all_columns);
    assert_eq!(schema, all_schema);
    assert_eq!(columns, all_columns);
    let names: Vec<&str> = schema.iter().map(|c| c.column_name.as_str()).collect();
    assert_eq!(names, vec!["b0.5", "b1", "binf"]);
}

#[test]
fn quantiles_are_encoded_one_after_the_other() {
    let quantile =
        |percent: &str, value: f64| Quantile { percent: percent.to_owned(), value: float(value) };
    let (mut schema, mut columns) = (vec![], vec![]);
    encode_quantiles(&vec![], &mut schema, &mut columns);
    assert_eq!((schema.len(), columns.len()), (0, 0));
    encode_quantiles(&vec![quantile("5", 1.0)], &mut schema, &mut columns);
    encode_quantiles(&vec![quantile("50", 2.0), quantile("99", 3.0)], &mut schema, &mut columns);

    let (mut all_schema, mut all_columns) = (vec![], vec![]);
    let all = vec![quantile("5", 1.0), quantile("50", 2.0), quantile("99", 3.0)];
    encode_quantiles(&all, &mut all_schema, &mut all_columns);
    assert_eq!(schema, all_schema);
    assert_eq!(columns, all_columns);
    let names: Vec<&str> = schema.iter().map(|c| c.column_name.as_str()).collect();
    assert_eq!(names, vec!["p05", "p50", "p99"]);
}
