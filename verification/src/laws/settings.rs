//! What the configuration, the options and the patterns come to, and how metrics are normalized.
use super::{lemma_listed, lemma_places, places};
use crate::config::GreptimeDBWideMetricsConfig;
use crate::metric::{Metric, MetricValue, Tag};
use crate::model::views;
use crate::number::is_float_text;
use crate::pattern::{
    any_matches, compiling, pattern_compiles, pattern_texts, patterns_match, regex_texts,
};
use crate::request_builder::{
    Placement, WideRequestBuilderOptions, DISTRIBUTION_STAT_FIELD_COUNT, SUMMARY_STAT_FIELD_COUNT,
};
use crate::sink::{is_counter_or_gauge, GreptimeDBWideGrpcSink};
use crate::wide::{matched_tags, placement};
use vstd::prelude::*;

verus! {

/// A listed key, or a matched one, makes a tag of any text. Otherwise a number becomes a field,
/// and anything else a tag if the fallback is `tag` or none is given, and nothing if not.
pub proof fn law_place_of_a_tag(options: WideRequestBuilderOptions, tag: Tag, matched: bool)
    ensures
        ({
            let listed = exists|j: int|
                0 <= j < options.tag_columns@.len() && (#[trigger] options.tag_columns@[j])@
                    == tag.key@;
            let number = is_float_text(tag.value@);
            let falls_back = match options.fallback_behavior {
                None => true,
                Some(behavior) => behavior@ == seq!['t', 'a', 'g'],
            };
            let place = placement(options@, tag@, matched);
            &&& place == Placement::Tag <==> listed || matched || (!number && falls_back)
            &&& place == Placement::Field <==> !listed && !matched && number
            &&& place == Placement::Dropped <==> !listed && !matched && !number && !falls_back
        }),
{
    reveal_strlit("tag");
    assert("tag"@ =~= seq!['t', 'a', 'g']);
    lemma_listed(options, tag.key@);
}

/// A key is matched if some pattern compiles and the key is among its texts.
pub proof fn law_matched_keys(options: WideRequestBuilderOptions, tags: Seq<Tag>, i: int)
    requires
        0 <= i < tags.len(),
    ensures
        matched_tags(options@, views(tags)).len() == tags.len(),
        matched_tags(options@, views(tags))[i] <==> exists|j: int|
            0 <= j < options.tag_column_patterns@.len() && pattern_compiles(
                (#[trigger] options.tag_column_patterns@[j])@,
                usize::BITS,
            ) && pattern_texts(options.tag_column_patterns@[j]@).contains(tags[i].key@),
{
    let patterns = options.tag_column_patterns@;
    let key = tags[i].key@;
    assert(matched_tags(options@, views(tags))[i] == patterns_match(views(patterns), key));
    law_patterns_that_match(patterns, key);
}

/// Patterns match a text if one of them compiles and the text is among its texts.
pub proof fn law_patterns_that_match(patterns: Seq<String>, text: Seq<char>)
    ensures
        patterns_match(views(patterns), text) <==> exists|j: int|
            0 <= j < patterns.len() && pattern_compiles((#[trigger] patterns[j])@, usize::BITS)
                && pattern_texts(patterns[j]@).contains(text),
{
    let all = views(patterns);
    if patterns_match(all, text) {
        let j = choose|j: int|
            0 <= j < all.len() && #[trigger] pattern_compiles(all[j], usize::BITS) && pattern_texts(
                all[j],
            ).contains(text);
        assert(pattern_compiles(patterns[j]@, usize::BITS));
    }
    if exists|j: int|
        0 <= j < patterns.len() && pattern_compiles((#[trigger] patterns[j])@, usize::BITS)
            && pattern_texts(patterns[j]@).contains(text) {
        let j = choose|j: int|
            0 <= j < patterns.len() && pattern_compiles((#[trigger] patterns[j])@, usize::BITS)
                && pattern_texts(patterns[j]@).contains(text);
        assert(pattern_compiles(all[j], usize::BITS));
    }
}

/// The patterns that compile are all that do, each once and in order. The result lists their
/// places among all patterns.
pub proof fn law_patterns_that_compile(patterns: Seq<String>) -> (origins: Seq<int>)
    ensures
        origins.len() == compiling(views(patterns)).len(),
        forall|p: int|
            0 <= p < origins.len() ==> {
                let j = #[trigger] origins[p];
                0 <= j < patterns.len() && pattern_compiles(patterns[j]@, usize::BITS) && compiling(
                    views(patterns),
                )[p] == patterns[j]@
            },
        forall|p: int, q: int| 0 <= p < q < origins.len() ==> origins[p] < origins[q],
        forall|j: int|
            0 <= j < patterns.len() && pattern_compiles((#[trigger] patterns[j])@, usize::BITS)
                ==> origins.contains(j),
{
    let all = views(patterns);
    let keep = |pattern: Seq<char>| pattern_compiles(pattern, usize::BITS);
    lemma_places(all, keep);
    let origins = places(all, keep);
    assert forall|j: int|
        0 <= j < patterns.len() && pattern_compiles(
            (#[trigger] patterns[j])@,
            usize::BITS,
        ) implies origins.contains(j) by {
        assert(keep(all[j]));
    }
    origins
}

/// Compiled patterns match a text if one of them stands for it.
pub proof fn law_compiled_patterns_that_match(patterns: Seq<regex::Regex>, text: Seq<char>)
    ensures
        any_matches(patterns, text) <==> exists|j: int|
            0 <= j < patterns.len() && regex_texts(#[trigger] patterns[j]).contains(text),
{
}

/// The options of a configuration are what it says: the new naming only if it is asked for, the
/// same keys, patterns, fallback and table template.
pub proof fn law_options_of_a_configuration(
    config: GreptimeDBWideMetricsConfig,
    options: WideRequestBuilderOptions,
)
    requires
        options@ == config.options(),
    ensures
        options.use_new_naming <==> (config.new_naming is Some && config.new_naming->0),
        options.tag_columns@.len() == config.tag_columns@.len(),
        forall|j: int|
            0 <= j < options.tag_columns@.len() ==> (#[trigger] options.tag_columns@[j])@
                == config.tag_columns@[j]@,
        options.tag_column_patterns@.len() == config.tag_column_patterns@.len(),
        forall|j: int|
            0 <= j < options.tag_column_patterns@.len() ==> (
            #[trigger] options.tag_column_patterns@[j])@ == config.tag_column_patterns@[j]@,
        match (options.fallback_behavior, config.fallback_behavior) {
            (Some(behavior), Some(given)) => behavior@ == given@,
            (None, None) => true,
            _ => false,
        },
        match (options.table, config.table) {
            (Some(template), Some(given)) => template.text@ == given.text@,
            (None, None) => true,
            _ => false,
        },
{
    let keys = views(options.tag_columns@);
    let patterns = views(options.tag_column_patterns@);
    assert(keys == views(config.tag_columns@));
    assert(patterns == views(config.tag_column_patterns@));
    assert(keys.len() == options.tag_columns@.len());
    assert(views(config.tag_columns@).len() == config.tag_columns@.len());
    assert(patterns.len() == options.tag_column_patterns@.len());
    assert(views(config.tag_column_patterns@).len() == config.tag_column_patterns@.len());
    assert forall|j: int| 0 <= j < options.tag_columns@.len() implies (
    #[trigger] options.tag_columns@[j])@ == config.tag_columns@[j]@ by {
        assert(keys[j] == views(config.tag_columns@)[j]);
    }
    assert forall|j: int| 0 <= j < options.tag_column_patterns@.len() implies (
    #[trigger] options.tag_column_patterns@[j])@ == config.tag_column_patterns@[j]@ by {
        assert(patterns[j] == views(config.tag_column_patterns@)[j]);
    }
}

/// A sink has the templates of its configuration, text for text.
pub proof fn law_templates_of_a_sink(
    config: GreptimeDBWideMetricsConfig,
    sink: GreptimeDBWideGrpcSink,
)
    requires
        sink.dbname@ == config.dbname@,
        sink.request_builder_options@ == config.options(),
    ensures
        sink.dbname.text@ == config.dbname.text@,
        match (sink.request_builder_options.table, config.table) {
            (Some(template), Some(given)) => template.text@ == given.text@,
            (None, None) => true,
            _ => false,
        },
{
    law_options_of_a_configuration(config, sink.request_builder_options);
}

/// Counters and gauges are made absolute, and no other metrics.
pub proof fn law_what_is_made_absolute(value: MetricValue)
    ensures
        match value {
            MetricValue::Counter { .. } => is_counter_or_gauge(value),
            MetricValue::Gauge { .. } => is_counter_or_gauge(value),
            MetricValue::ValueSet { .. } => !is_counter_or_gauge(value),
            MetricValue::Distribution { .. } => !is_counter_or_gauge(value),
            MetricValue::AggregatedHistogram { .. } => !is_counter_or_gauge(value),
            MetricValue::AggregatedSummary { .. } => !is_counter_or_gauge(value),
            MetricValue::Sketch { .. } => !is_counter_or_gauge(value),
        },
{
}

/// A distribution has five columns besides its quantiles; a histogram and a summary have two
/// besides their buckets or quantiles.
pub proof fn law_counts_of_statistics()
    ensures
        DISTRIBUTION_STAT_FIELD_COUNT == 5,
        SUMMARY_STAT_FIELD_COUNT == 2,
{
}

/// The model of a metric holds its name, namespace, timestamp, kind and tags as they are.
pub proof fn law_models_of_metrics(metric: Metric)
    ensures
        metric@.name == metric.name@,
        metric@.namespace == (match metric.namespace {
            Some(namespace) => Some(namespace@),
            None => None,
        }),
        metric@.timestamp == metric.timestamp,
        metric@.kind == metric.kind,
        metric.tags is None ==> metric@.tags.len() == 0,
        metric.tags matches Some(tags) ==> metric@.tags.len() == tags@.len() && forall|i: int|
            0 <= i < tags@.len() ==> (#[trigger] metric@.tags[i]).key == tags@[i].key@
                && metric@.tags[i].value == tags@[i].value@,
{
}

}
