//! The configuration of the sink.
use crate::model::{view_option, views};
use crate::request_builder::{OptionsView, WideRequestBuilderOptions};
use crate::sink::GreptimeDBWideGrpcSink;
use crate::template::Template;
use vstd::prelude::*;

verus! {

/// A text that must not be printed. It has no `Debug`, and what holds one cannot derive it.
#[derive(Clone, PartialEq, Eq)]
pub struct SensitiveString {
    pub inner: String,
}

/// Configuration items for the GreptimeDB wide-metrics sink.
#[derive(Clone, PartialEq, Eq)]
pub struct GreptimeDBWideMetricsConfig {
    /// The name of the database to connect to, as a template.
    pub dbname: Template,
    /// The host and port of the GreptimeDB gRPC service.
    pub endpoint: String,
    /// The username for the GreptimeDB instance.
    pub username: Option<String>,
    /// The password for the GreptimeDB instance.
    pub password: Option<SensitiveString>,
    /// The compression encoding of the requests.
    pub grpc_compression: Option<String>,
    /// Whether the time index and the value column get Greptime's prefixed names.
    pub new_naming: Option<bool>,
    /// Tag keys to keep as tags instead of converting them to fields.
    pub tag_columns: Vec<String>,
    /// Regex patterns for tag keys to keep as tags.
    pub tag_column_patterns: Vec<String>,
    /// What happens to any other tag that is no number: `tag` (the default) keeps it as a tag,
    /// `drop` skips it.
    pub fallback_behavior: Option<String>,
    /// A template for table names, in place of the default `{ns}_{metric_name}`.
    pub table: Option<Template>,
}

/// The template of the database that GreptimeDB has from the start.
pub fn default_dbname_template() -> (template: Template)
    ensures
        template@ == "public"@,
{
    Template { text: "public".to_owned() }
}

impl Default for GreptimeDBWideMetricsConfig {
    fn default() -> (config: Self)
        ensures
            config.dbname@ == "public"@,
            config.endpoint@ == Seq::<char>::empty(),
            config.username is None,
            config.password is None,
            config.grpc_compression is None,
            config.new_naming is None,
            config.tag_columns@ == Seq::<String>::empty(),
            config.tag_column_patterns@ == Seq::<String>::empty(),
            config.fallback_behavior is None,
            config.table is None,
    {
        GreptimeDBWideMetricsConfig {
            dbname: default_dbname_template(),
            endpoint: String::new(),
            username: None,
            password: None,
            grpc_compression: None,
            new_naming: None,
            tag_columns: Vec::new(),
            tag_column_patterns: Vec::new(),
            fallback_behavior: None,
            table: None,
        }
    }
}

/// A copy of a list of texts.
fn copy_texts(texts: &Vec<String>) -> (copies: Vec<String>)
    ensures
        views(copies@) == views(texts@),
{
    let copies = texts.clone();
    assert(views(copies@) =~= views(texts@));
    copies
}

impl GreptimeDBWideMetricsConfig {
    /// The request builder options that the configuration amounts to: what it says, with the
    /// old naming unless the new one is asked for.
    pub open spec fn options(self) -> OptionsView {
        OptionsView {
            use_new_naming: self.new_naming == Some(true),
            tag_columns: views(self.tag_columns@),
            tag_column_patterns: views(self.tag_column_patterns@),
            fallback_behavior: view_option(self.fallback_behavior),
            table: view_option(self.table),
        }
    }

    /// Builds the sink that the configuration describes.
    pub fn build(&self) -> (sink: GreptimeDBWideGrpcSink)
        ensures
            sink.dbname@ == self.dbname@,
            sink.request_builder_options@ == self.options(),
    {
        GreptimeDBWideGrpcSink {
            dbname: Template { text: self.dbname.text.clone() },
            request_builder_options: WideRequestBuilderOptions {
                use_new_naming: self.new_naming.unwrap_or(false),
                tag_columns: copy_texts(&self.tag_columns),
                tag_column_patterns: copy_texts(&self.tag_column_patterns),
                fallback_behavior: self.fallback_behavior.clone(),
                table: match &self.table {
                    Some(table) => Some(Template { text: table.text.clone() }),
                    None => None,
                },
            },
        }
    }
}

}
