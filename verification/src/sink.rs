//! What a sink does with the metrics that it is handed: normalizing them, sorting a batch by
//! database, and building the requests.
use crate::metric::{Metric, MetricValue, MetricView};
use crate::model::{lemma_contains_push, lemma_filter_push, lemma_views_push, views};
use crate::request_builder::{
    metric_to_wide_insert_request, OptionsView, WideRequestBuilderOptions,
};
use crate::row::RowInsertRequest;
use crate::template::{
    dbname_error, rendered_name, view_optional_rendering, view_rendering, Template,
    TemplateRenderingError, TemplateRenderingErrorView,
};
use crate::wide::{inserts, table_errors};
use vstd::prelude::*;

verus! {

/// What normalizing a metric comes to.
#[derive(Clone, Debug, PartialEq, Eq)]
pub enum Normalized {
    /// The metric has to be made absolute, from what its series has added up to so far.
    MakeAbsolute(Metric),
    /// The metric goes on as it is.
    AsIs(Metric),
}

/// Makes counters and gauges absolute and leaves all other metrics alone.
#[derive(Clone, Debug, Default)]
pub struct GreptimeDBMetricNormalize;

/// A counter or a gauge.
pub open spec fn is_counter_or_gauge(value: MetricValue) -> bool {
    value is Counter || value is Gauge
}

impl GreptimeDBMetricNormalize {
    /// Decides how a metric is normalized. What kind of metric it is does not matter: making an
    /// absolute metric absolute is left to the one who does it.
    pub fn normalize(&mut self, metric: Metric) -> (normalized: Normalized)
        ensures
            normalized == if is_counter_or_gauge(metric.value) {
                Normalized::MakeAbsolute(metric)
            } else {
                Normalized::AsIs(metric)
            },
            *final(self) == *old(self),
    {
        match &metric.value {
            MetricValue::Counter { .. } => Normalized::MakeAbsolute(metric),
            MetricValue::Gauge { .. } => Normalized::MakeAbsolute(metric),
            _ => Normalized::AsIs(metric),
        }
    }
}

/// A metric with what rendering the templates for it came to: a name, or why there is none.
#[derive(Debug, PartialEq, Eq)]
pub struct RenderedMetric {
    pub metric: Metric,
    pub dbname: Result<String, String>,
    /// `None` where the table template was not rendered.
    pub table: Option<Result<String, String>>,
}

/// The model of a [`RenderedMetric`].
pub struct RenderedMetricView {
    pub metric: MetricView,
    pub dbname: Result<Seq<char>, Seq<char>>,
    pub table: Option<Result<Seq<char>, Seq<char>>>,
}

impl View for RenderedMetric {
    type V = RenderedMetricView;

    open spec fn view(&self) -> RenderedMetricView {
        RenderedMetricView {
            metric: self.metric@,
            dbname: view_rendering(self.dbname),
            table: view_optional_rendering(self.table),
        }
    }
}

impl RenderedMetricView {
    /// The metric goes to the database.
    pub open spec fn goes_to(self, dbname: Seq<char>) -> bool {
        self.dbname matches Ok(name) && name == dbname
    }
}

/// The metrics of a batch that go to one database.
#[derive(Debug, PartialEq, Eq)]
pub struct DatabaseGroup {
    pub dbname: String,
    pub metrics: Vec<RenderedMetric>,
}

/// The model of a [`DatabaseGroup`].
pub struct DatabaseGroupView {
    pub dbname: Seq<char>,
    pub metrics: Seq<RenderedMetricView>,
}

impl View for DatabaseGroup {
    type V = DatabaseGroupView;

    open spec fn view(&self) -> DatabaseGroupView {
        DatabaseGroupView { dbname: self.dbname@, metrics: views(self.metrics@) }
    }
}

/// The databases that a batch goes to, in the order in which they first occur.
pub open spec fn database_names(batch: Seq<RenderedMetricView>) -> Seq<Seq<char>>
    decreases batch.len(),
{
    if batch.len() == 0 {
        Seq::empty()
    } else {
        let names = database_names(batch.drop_last());
        match batch.last().dbname {
            Ok(name) => if names.contains(name) {
                names
            } else {
                names.push(name)
            },
            Err(_) => names,
        }
    }
}

/// The metrics of a batch that go to a database, in order.
pub open spec fn for_database(batch: Seq<RenderedMetricView>, dbname: Seq<char>) -> Seq<
    RenderedMetricView,
> {
    batch.filter(|rendered: RenderedMetricView| rendered.goes_to(dbname))
}

/// A batch, sorted by database. Metrics without a database are left out.
pub open spec fn groups(batch: Seq<RenderedMetricView>) -> Seq<DatabaseGroupView> {
    database_names(batch).map_values(
        |dbname: Seq<char>| DatabaseGroupView { dbname, metrics: for_database(batch, dbname) },
    )
}

/// The databases of a batch are distinct, and are those that its metrics name.
pub proof fn lemma_database_names(batch: Seq<RenderedMetricView>)
    ensures
        database_names(batch).no_duplicates(),
        forall|dbname: Seq<char>|
            database_names(batch).contains(dbname) <==> for_database(batch, dbname).len() > 0,
    decreases batch.len(),
{
    reveal(Seq::filter);
    if batch.len() > 0 {
        let rest = batch.drop_last();
        lemma_database_names(rest);
        assert(batch =~= rest.push(batch.last()));
        assert forall|dbname: Seq<char>|
            database_names(batch).contains(dbname) <==> for_database(batch, dbname).len() > 0 by {
            lemma_filter_push(
                rest,
                batch.last(),
                |rendered: RenderedMetricView| rendered.goes_to(dbname),
            );
            let names = database_names(rest);
            assert(names.contains(dbname) <==> for_database(rest, dbname).len() > 0);
            if batch.last().dbname is Ok && !names.contains(batch.last().dbname->Ok_0) {
                lemma_contains_push(names, batch.last().dbname->Ok_0, dbname);
            }
        }
    }
}

/// One more metric adds to the group of its database, or makes a new group, or is left out.
proof fn lemma_groups_push(batch: Seq<RenderedMetricView>, rendered: RenderedMetricView)
    ensures
        rendered.dbname is Err ==> groups(batch.push(rendered)) == groups(batch),
        forall|k: int|
            0 <= k < groups(batch).len() && rendered.goes_to(
                (#[trigger] groups(batch)[k]).dbname,
            ) ==> groups(batch.push(rendered)) == groups(batch).update(
                k,
                DatabaseGroupView {
                    dbname: groups(batch)[k].dbname,
                    metrics: groups(batch)[k].metrics.push(rendered),
                },
            ),
        rendered.dbname is Ok && (forall|k: int|
            0 <= k < groups(batch).len() ==> (#[trigger] groups(batch)[k]).dbname
                != rendered.dbname->Ok_0) ==> groups(batch.push(rendered)) == groups(batch).push(
            DatabaseGroupView { dbname: rendered.dbname->Ok_0, metrics: seq![rendered] },
        ),
{
    let more = batch.push(rendered);
    let names = database_names(batch);
    assert(more.drop_last() =~= batch);
    lemma_database_names(batch);
    assert forall|dbname: Seq<char>| #[trigger]
        for_database(more, dbname) == if rendered.goes_to(dbname) {
            for_database(batch, dbname).push(rendered)
        } else {
            for_database(batch, dbname)
        } by {
        lemma_filter_push(
            batch,
            rendered,
            |rendered: RenderedMetricView| rendered.goes_to(dbname),
        );
    }
    if rendered.dbname is Err {
        assert(groups(more) =~= groups(batch));
    } else {
        let name = rendered.dbname->Ok_0;
        assert forall|k: int|
            0 <= k < groups(batch).len() && rendered.goes_to(
                (#[trigger] groups(batch)[k]).dbname,
            ) implies groups(more) == groups(batch).update(
            k,
            DatabaseGroupView {
                dbname: groups(batch)[k].dbname,
                metrics: groups(batch)[k].metrics.push(rendered),
            },
        ) by {
            assert(names[k] == name);
            assert(groups(more) =~= groups(batch).update(
                k,
                DatabaseGroupView {
                    dbname: groups(batch)[k].dbname,
                    metrics: groups(batch)[k].metrics.push(rendered),
                },
            ));
        }
        if forall|k: int|
            0 <= k < groups(batch).len() ==> (#[trigger] groups(batch)[k]).dbname != name {
            assert(!names.contains(name)) by {
                if names.contains(name) {
                    let k = choose|k: int| 0 <= k < names.len() && names[k] == name;
                    assert(groups(batch)[k].dbname == name);
                }
            }
            assert(for_database(more, name) =~= seq![rendered]);
            assert(groups(more) =~= groups(batch).push(
                DatabaseGroupView { dbname: name, metrics: seq![rendered] },
            ));
        }
    }
}

/// What is reported of the database names in a batch: each that failed to render, in order.
pub open spec fn dbname_errors(batch: Seq<RenderedMetricView>) -> Seq<TemplateRenderingErrorView> {
    batch.filter(|rendered: RenderedMetricView| rendered.dbname is Err).map_values(
        |rendered: RenderedMetricView| dbname_error(rendered.dbname->Err_0),
    )
}

/// What is reported of the table names of metrics: each that failed to render, in order.
pub open spec fn table_errors_of(metrics: Seq<RenderedMetricView>, options: OptionsView) -> Seq<
    TemplateRenderingErrorView,
>
    decreases metrics.len(),
{
    if metrics.len() == 0 {
        Seq::empty()
    } else {
        table_errors_of(metrics.drop_last(), options) + table_errors(options, metrics.last().table)
    }
}

/// What is reported of the table names in groups, group by group.
pub open spec fn group_errors(groups: Seq<DatabaseGroupView>, options: OptionsView) -> Seq<
    TemplateRenderingErrorView,
>
    decreases groups.len(),
{
    if groups.len() == 0 {
        Seq::empty()
    } else {
        group_errors(groups.drop_last(), options) + table_errors_of(groups.last().metrics, options)
    }
}

/// What is reported of a batch: first the database names that failed to render, and then the
/// table names, of the metrics that have a database.
pub open spec fn batch_errors(batch: Seq<RenderedMetricView>, options: OptionsView) -> Seq<
    TemplateRenderingErrorView,
> {
    dbname_errors(batch) + group_errors(groups(batch), options)
}

/// The group of a database, by its index.
fn find_group(groups: &Vec<DatabaseGroup>, dbname: &String) -> (found: Option<usize>)
    ensures
        match found {
            Some(k) => k < groups@.len() && groups@[k as int].dbname@ == dbname@,
            None => forall|k: int| 0 <= k < groups@.len() ==> (#[trigger] groups@[k]).dbname@ != dbname@,
        },
{
    for k in 0..groups.len()
        invariant
            forall|j: int| 0 <= j < k ==> (#[trigger] groups@[j]).dbname@ != dbname@,
    {
        if groups[k].dbname == *dbname {
            return Some(k);
        }
    }
    None
}

/// Sorts a batch by database. A metric whose database name failed to render is dropped, and the
/// failure is added to `errors`.
pub fn group_by_database(
    batch: Vec<RenderedMetric>,
    errors: &mut Vec<TemplateRenderingError>,
) -> (sorted: Vec<DatabaseGroup>)
    ensures
        views(sorted@) == groups(views(batch@)),
        views(final(errors)@) == views(old(errors)@) + dbname_errors(views(batch@)),
{
    let ghost all = views(batch@);
    let ghost failed = |rendered: RenderedMetricView| rendered.dbname is Err;
    let mut sorted: Vec<DatabaseGroup> = Vec::new();
    proof {
        reveal(Seq::filter);
        assert(views(sorted@) =~= groups(all.take(0)));
        assert(views(errors@) =~= views(old(errors)@) + dbname_errors(all.take(0)));
    }
    for rendered in it: batch
        invariant
            it.seq() == batch@,
            all == views(batch@),
            failed == (|rendered: RenderedMetricView| rendered.dbname is Err),
            views(sorted@) == groups(all.take(it.index() as int)),
            views(errors@) == views(old(errors)@) + dbname_errors(all.take(it.index() as int)),
    {
        broadcast use lemma_views_push;

        let ghost seen = all.take(it.index() as int);
        let ghost before = sorted@;
        proof {
            assert(all.take(it.index() + 1) =~= seen.push(rendered@));
            lemma_groups_push(seen, rendered@);
            lemma_filter_push(seen, rendered@, failed);
            assert forall|k: int| 0 <= k < before.len() implies (#[trigger] groups(seen)[k]).dbname
                == before[k].dbname@ by {
                assert(views(before)[k] == before[k]@);
            }
        }
        let ghost view = rendered@;
        let RenderedMetric { metric, dbname, table } = rendered;
        match dbname {
            Ok(name) => {
                let group_name = name.clone();
                let rendered = RenderedMetric { metric, dbname: Ok(name), table };
                match find_group(&sorted, &group_name) {
                    Some(k) => {
                        sorted[k].metrics.push(rendered);
                        proof {
                            assert(groups(seen)[k as int].dbname == group_name@);
                            assert(views(sorted@) =~= views(before).update(
                                k as int,
                                sorted@[k as int]@,
                            ));
                        }
                    },
                    None => {
                        let metrics = vec![rendered];
                        assert(views(metrics@) =~= seq![rendered@]);
                        sorted.push(DatabaseGroup { dbname: group_name, metrics });
                    },
                }
            },
            Err(error) => {
                errors.push(
                    TemplateRenderingError { error, field: Some("dbname"), drop_event: true },
                );
                assert(views(errors@) =~= views(old(errors)@) + dbname_errors(seen.push(view)));
            },
        }
    }
    assert(all.take(batch@.len() as int) =~= all);
    sorted
}

/// A request that inserts the metrics of a batch that go to one database.
#[derive(Clone, Debug, PartialEq, Eq)]
pub struct GreptimeDBGrpcRequest {
    pub dbname: String,
    pub inserts: Vec<RowInsertRequest>,
}

impl GreptimeDBGrpcRequest {
    /// The request is for the group, with one insert for each of its metrics, in order.
    pub open spec fn is_for(self, group: DatabaseGroupView, options: OptionsView) -> bool {
        &&& self.dbname@ == group.dbname
        &&& self.inserts@.len() == group.metrics.len()
        &&& forall|i: int|
            0 <= i < self.inserts@.len() ==> inserts(
                (#[trigger] self.inserts@[i])@,
                group.metrics[i].metric,
                options,
                rendered_name(group.metrics[i].table),
            )
    }

    /// Builds the request for the metrics that go to one database. Table names that failed to
    /// render are added to `errors`.
    pub fn from_metrics(
        group: DatabaseGroup,
        options: &WideRequestBuilderOptions,
        errors: &mut Vec<TemplateRenderingError>,
    ) -> (request: Self)
        ensures
            request.is_for(group@, options@),
            views(final(errors)@) == views(old(errors)@) + table_errors_of(
                group@.metrics,
                options@,
            ),
    {
        let DatabaseGroup { dbname, metrics } = group;
        let ghost all = views(metrics@);
        let mut requests: Vec<RowInsertRequest> = Vec::new();
        assert(views(errors@) =~= views(old(errors)@) + table_errors_of(all.take(0), options@));
        for rendered in it: metrics
            invariant
                it.seq() == metrics@,
                all == views(metrics@),
                requests@.len() == it.index(),
                forall|i: int|
                    0 <= i < requests@.len() ==> inserts(
                        (#[trigger] requests@[i])@,
                        metrics@[i].metric@,
                        options@,
                        rendered_name(view_optional_rendering(metrics@[i].table)),
                    ),
                views(errors@) == views(old(errors)@) + table_errors_of(
                    all.take(it.index() as int),
                    options@,
                ),
        {
            let ghost seen = all.take(it.index() as int);
            assert(all.take(it.index() + 1).drop_last() =~= seen);
            let RenderedMetric { metric, dbname: _, table } = rendered;
            requests.push(metric_to_wide_insert_request(metric, options, table, errors));
            assert(views(errors@) =~= views(old(errors)@) + table_errors_of(
                all.take(it.index() + 1),
                options@,
            ));
        }
        assert(all.take(metrics@.len() as int) =~= all);
        GreptimeDBGrpcRequest { dbname, inserts: requests }
    }
}

/// The requests are those for a batch: one for each database that it goes to.
pub open spec fn answers(
    requests: Seq<GreptimeDBGrpcRequest>,
    batch: Seq<RenderedMetricView>,
    options: OptionsView,
) -> bool {
    &&& requests.len() == groups(batch).len()
    &&& forall|i: int|
        0 <= i < requests.len() ==> (#[trigger] requests[i]).is_for(groups(batch)[i], options)
}

/// A sink that writes metrics to GreptimeDB, one wide table row for each.
#[derive(Clone, Debug, PartialEq, Eq)]
pub struct GreptimeDBWideGrpcSink {
    pub request_builder_options: WideRequestBuilderOptions,
    /// The template for the names of databases.
    pub dbname: Template,
}

impl GreptimeDBWideGrpcSink {
    /// The template to render for the table of a metric, once its database name was rendered:
    /// the table template, if there is one, but none for a metric that is dropped.
    pub fn table_to_render(&self, dbname: &Result<String, String>) -> (template: Option<&Template>)
        ensures
            template == if *dbname is Ok && self.request_builder_options.table is Some {
                Some(&self.request_builder_options.table->0)
            } else {
                None
            },
    {
        match dbname {
            Ok(_) => self.request_builder_options.table.as_ref(),
            Err(_) => None,
        }
    }

    /// The requests for a batch: one for each database that it goes to. A metric whose database
    /// name failed to render is dropped; one whose table name failed to render is not. Either
    /// failure is added to `errors`.
    pub fn batch_requests(
        &self,
        batch: Vec<RenderedMetric>,
        errors: &mut Vec<TemplateRenderingError>,
    ) -> (requests: Vec<GreptimeDBGrpcRequest>)
        ensures
            answers(requests@, views(batch@), self.request_builder_options@),
            views(final(errors)@) == views(old(errors)@) + batch_errors(
                views(batch@),
                self.request_builder_options@,
            ),
    {
        let options = &self.request_builder_options;
        let ghost all = views(batch@);
        let sorted = group_by_database(batch, errors);
        let ghost reported = views(errors@);
        let mut requests: Vec<GreptimeDBGrpcRequest> = Vec::new();
        assert(views(errors@) =~= reported + group_errors(groups(all).take(0), options@));
        for group in it: sorted
            invariant
                it.seq() == sorted@,
                views(sorted@) == groups(all),
                requests@.len() == it.index(),
                forall|i: int|
                    0 <= i < requests@.len() ==> (#[trigger] requests@[i]).is_for(
                        groups(all)[i],
                        options@,
                    ),
                views(errors@) == reported + group_errors(
                    groups(all).take(it.index() as int),
                    options@,
                ),
        {
            assert(groups(all)[it.index() as int] == group@);
            assert(groups(all).take(it.index() + 1).drop_last() =~= groups(all).take(
                it.index() as int,
            ));
            requests.push(GreptimeDBGrpcRequest::from_metrics(group, options, errors));
            assert(views(errors@) =~= reported + group_errors(
                groups(all).take(it.index() + 1),
                options@,
            ));
        }
        assert(groups(all).take(sorted@.len() as int) =~= groups(all));
        assert(views(errors@) =~= views(old(errors)@) + batch_errors(all, options@));
        requests
    }
}

}
