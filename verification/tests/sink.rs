use greptimedb_wide_metrics::config::{GreptimeDBWideMetricsConfig, SensitiveString};
use greptimedb_wide_metrics::metric::{Metric, MetricKind, MetricValue};
use greptimedb_wide_metrics::number::Float64;
use greptimedb_wide_metrics::sink::{
    group_by_database, GreptimeDBMetricNormalize, Normalized, RenderedMetric,
};
use greptimedb_wide_metrics::template::{Template, TemplateRenderingError};
use greptimedb_wide_metrics::timestamp::Timestamp;

fn float(value: f64) -> Float64 {
    Float64 { bits: value.to_bits() }
}

fn metric(name: &str, kind: MetricKind, value: MetricValue) -> Metric {
    Metric {
        name: name.to_owned(),
        namespace: Some("ns".to_owned()),
        timestamp: None,
        kind,
        tags: None,
        value,
    }
}

fn rendered(name: &str, dbname: Option<&str>, table: Option<&str>) -> RenderedMetric {
    RenderedMetric {
        metric: metric(name, MetricKind::Absolute, MetricValue::Gauge { value: float(1.0) }),
        dbname: dbname.map(|d| d.to_owned()).ok_or(format!("no database for {name}")),
        table: Some(table.map(|t| t.to_owned()).ok_or(format!("no table for {name}"))),
    }
}

fn error(error: &str, field: &'static str, drop_event: bool) -> TemplateRenderingError {
    TemplateRenderingError { error: error.to_owned(), field: Some(field), drop_event }
}

#[test]
fn counters_and_gauges_are_made_absolute() {
    let mut normalize = GreptimeDBMetricNormalize::default();
    for kind in [MetricKind::Incremental, MetricKind::Absolute] {
        let counter = metric("c", kind, MetricValue::Counter { value: float(1.0) });
        assert_eq!(normalize.normalize(counter.clone()), Normalized::MakeAbsolute(counter));
        let gauge = metric("g", kind, MetricValue::Gauge { value: float(1.0) });
        assert_eq!(normalize.normalize(gauge.clone()), Normalized::MakeAbsolute(gauge));
        let set = metric("s", kind, MetricValue::ValueSet { values: vec![] });
        assert_eq!(normalize.normalize(set.clone()), Normalized::AsIs(set));
        let distribution = metric("d", kind, MetricValue::Distribution { statistics: None });
        assert_eq!(normalize.normalize(distribution.clone()), Normalized::AsIs(distribution));
        let histogram = metric(
            "h",
            kind,
            MetricValue::AggregatedHistogram { buckets: vec![], count: 0, sum: float(0.0) },
        );
        assert_eq!(normalize.normalize(histogram.clone()), Normalized::AsIs(histogram));
    }
}

#[test]
fn batches_are_sorted_by_database() {
    let batch = vec![
        rendered("a", Some("ssw_prod"), None),
        rendered("b", Some("yimeng_test"), None),
        rendered("c", None, None),
        rendered("d", Some("ssw_prod"), None),
    ];
    let mut errors = vec![];
    let groups = group_by_database(batch, &mut errors);
    assert_eq!(errors, vec![error("no database for c", "dbname", true)]);
    assert_eq!(groups.len(), 2);
    assert_eq!(groups[0].dbname, "ssw_prod");
    let names: Vec<&str> = groups[0].metrics.iter().map(|m| m.metric.name.as_str()).collect();
    assert_eq!(names, vec!["a", "d"]);
    assert_eq!(groups[1].dbname, "yimeng_test");
    assert_eq!(groups[1].metrics.len(), 1);
    assert_eq!(groups[1].metrics[0].metric.name, "b");

    let mut errors = vec![];
    assert!(group_by_database(vec![], &mut errors).is_empty());
    assert_eq!(errors, vec![]);
    let failed = vec![rendered("a", None, None), rendered("b", None, Some("t"))];
    assert!(group_by_database(failed, &mut errors).is_empty());
    assert_eq!(
        errors,
        vec![error("no database for a", "dbname", true), error("no database for b", "dbname", true)]
    );
}

#[test]
fn one_request_fills_many_tables() {
    let config = GreptimeDBWideMetricsConfig {
        table: Some(Template { text: "{{ tags.task_id }}_{{ metric.name }}".to_owned() }),
        ..GreptimeDBWideMetricsConfig::default()
    };
    let mut errors = vec![];
    let batch = vec![
        rendered("aocs_tm", Some("public"), Some("399_aocs_tm")),
        rendered("aocs_tm", Some("other"), Some("1_aocs_tm")),
        rendered("aocs_tm", Some("public"), None),
        rendered("lost", None, Some("2_aocs_tm")),
        rendered("power", Some("public"), Some("399_power")),
    ];
    let requests = config.build().batch_requests(batch, &mut errors);
    assert_eq!(
        errors,
        vec![error("no database for lost", "dbname", true), error("no table for aocs_tm", "table", false)]
    );
    assert_eq!(requests.len(), 2);
    assert_eq!(requests[0].dbname, "public");
    let tables: Vec<&str> = requests[0].inserts.iter().map(|i| i.table_name.as_str()).collect();
    assert_eq!(tables, vec!["399_aocs_tm", "ns_aocs_tm", "399_power"]);
    assert_eq!(requests[1].dbname, "other");
    assert_eq!(requests[1].inserts.len(), 1);
    assert_eq!(requests[1].inserts[0].table_name, "1_aocs_tm");
}

#[test]
fn metrics_without_a_database_are_only_reported() {
    let config = GreptimeDBWideMetricsConfig {
        table: Some(Template { text: "t".to_owned() }),
        ..GreptimeDBWideMetricsConfig::default()
    };
    let timed = |name: &str, dbname: Option<&str>, table: Option<&str>| {
        let mut rendered = rendered(name, dbname, table);
        rendered.metric.timestamp = Timestamp::new(1, 0);
        rendered
    };
    let sink = config.build();
    let (mut errors, mut fewer_errors) = (vec![], vec![]);
    let batch = vec![
        timed("a", Some("one"), Some("t")),
        timed("b", None, None),
        timed("c", Some("two"), None),
    ];
    let requests = sink.batch_requests(batch, &mut errors);
    let batch = vec![timed("a", Some("one"), Some("t")), timed("c", Some("two"), None)];
    assert_eq!(sink.batch_requests(batch, &mut fewer_errors), requests);
    assert_eq!(fewer_errors, vec![error("no table for c", "table", false)]);
    assert_eq!(
        errors,
        vec![error("no database for b", "dbname", true), error("no table for c", "table", false)]
    );
    assert_eq!(requests[1].inserts[0].table_name, "ns_c");

    let batch = vec![timed("a", None, Some("t")), timed("b", None, None)];
    let mut errors = vec![];
    assert!(sink.batch_requests(batch, &mut errors).is_empty());
    assert_eq!(
        errors,
        vec![error("no database for a", "dbname", true), error("no database for b", "dbname", true)]
    );
}

#[test]
fn tables_are_rendered_for_metrics_with_a_database() {
    let with = GreptimeDBWideMetricsConfig {
        table: Some(Template { text: "t".to_owned() }),
        ..GreptimeDBWideMetricsConfig::default()
    };
    let sink = with.build();
    let template = Template { text: "t".to_owned() };
    assert_eq!(sink.table_to_render(&Ok("public".to_owned())), Some(&template));
    assert_eq!(sink.table_to_render(&Err("missing".to_owned())), None);
    let sink = GreptimeDBWideMetricsConfig::default().build();
    assert_eq!(sink.table_to_render(&Ok("public".to_owned())), None);
}

#[test]
fn configuration_becomes_options() {
    let default = GreptimeDBWideMetricsConfig::default();
    assert!(default.password.is_none());
    assert_eq!(default.dbname.text, "public");
    let sink = default.build();
    assert_eq!(sink.dbname.text, "public");
    assert!(!sink.request_builder_options.use_new_naming);
    assert!(sink.request_builder_options.tag_columns.is_empty());
    assert!(sink.request_builder_options.tag_column_patterns.is_empty());
    assert_eq!(sink.request_builder_options.fallback_behavior, None);
    assert_eq!(sink.request_builder_options.table, None);

    let config = GreptimeDBWideMetricsConfig {
        dbname: Template { text: "{{ tags.db_name }}".to_owned() },
        password: Some(SensitiveString { inner: "password".to_owned() }),
        new_naming: Some(true),
        tag_columns: vec!["task_id".to_owned()],
        tag_column_patterns: vec!["^aocs_.*".to_owned()],
        fallback_behavior: Some("drop".to_owned()),
        table: Some(Template { text: "t".to_owned() }),
        ..GreptimeDBWideMetricsConfig::default()
    };
    let sink = config.build();
    assert_eq!(sink.dbname.text, "{{ tags.db_name }}");
    assert!(sink.request_builder_options.use_new_naming);
    assert_eq!(sink.request_builder_options.tag_columns, vec!["task_id".to_owned()]);
    assert_eq!(sink.request_builder_options.tag_column_patterns, vec!["^aocs_.*".to_owned()]);
    assert_eq!(sink.request_builder_options.fallback_behavior, Some("drop".to_owned()));
    assert_eq!(sink.request_builder_options.table, Some(Template { text: "t".to_owned() }));
    let config = GreptimeDBWideMetricsConfig { new_naming: Some(false), ..config };
    assert!(!config.build().request_builder_options.use_new_naming);
}
