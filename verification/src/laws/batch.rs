//! What becomes of the metrics in a batch, and what is reported of them.
use super::{lemma_places, places};
use crate::model::{lemma_filter_push, views};
use crate::request_builder::{OptionsView, WideRequestBuilderOptions};
use crate::sink::{
    answers, batch_errors, database_names, dbname_errors, for_database, group_errors, groups,
    lemma_database_names, table_errors_of, DatabaseGroup, GreptimeDBGrpcRequest, RenderedMetric,
    RenderedMetricView,
};
use crate::template::{
    dbname_error, rendered_name, table_error, view_optional_rendering, TemplateRenderingError,
};
use crate::wide::inserts;
use vstd::prelude::*;

verus! {

/// Where the metrics of each group stand in the batch.
spec fn group_origins(batch: Seq<RenderedMetricView>) -> Seq<Seq<int>> {
    database_names(batch).map_values(
        |name: Seq<char>| places(batch, |rendered: RenderedMetricView| rendered.goes_to(name)),
    )
}

/// The groups hold the metrics with a database, each once, in order of the batch; the groups
/// themselves are in the order of their first metrics.
proof fn lemma_group_origins(batch: Seq<RenderedMetricView>)
    ensures
        group_origins(batch).len() == groups(batch).len(),
        forall|k: int|
            0 <= k < groups(batch).len() ==> (#[trigger] group_origins(batch)[k]).len() == groups(
                batch,
            )[k].metrics.len() && group_origins(batch)[k].len() > 0,
        forall|k: int, l: int|
            0 <= k < groups(batch).len() && 0 <= l < group_origins(batch)[k].len() ==> {
                let i = #[trigger] group_origins(batch)[k][l];
                &&& 0 <= i < batch.len()
                &&& batch[i].goes_to(groups(batch)[k].dbname)
                &&& groups(batch)[k].metrics[l] == batch[i]
            },
        forall|k: int, l: int, m: int|
            0 <= k < groups(batch).len() && 0 <= l < m < group_origins(batch)[k].len()
                ==> #[trigger] group_origins(batch)[k][l] < #[trigger] group_origins(batch)[k][m],
        forall|k: int, i: int|
            0 <= k < groups(batch).len() && 0 <= i < batch.len() && batch[i].goes_to(
                groups(batch)[k].dbname,
            ) ==> #[trigger] group_origins(batch)[k].contains(i),
        forall|j: int, k: int|
            0 <= j < k < groups(batch).len() ==> groups(batch)[j].dbname != groups(batch)[k].dbname
                && (#[trigger] group_origins(batch)[j])[0] < (#[trigger] group_origins(batch)[k])[0],
        forall|i: int|
            0 <= i < batch.len() && (#[trigger] batch[i]).dbname is Ok ==> exists|k: int|
                0 <= k < groups(batch).len() && (#[trigger] groups(batch)[k]).dbname
                    == batch[i].dbname->Ok_0,
{
    let origins = group_origins(batch);
    let names = database_names(batch);
    lemma_database_names(batch);
    assert forall|k: int| 0 <= k < groups(batch).len() implies (#[trigger] origins[k]).len() == groups(
        batch,
    )[k].metrics.len() && origins[k].len() > 0 by {
        lemma_group_origin(batch, k);
    }
    assert forall|k: int, l: int| 0 <= k < groups(batch).len() && 0 <= l < origins[k].len() implies {
        let i = #[trigger] origins[k][l];
        &&& 0 <= i < batch.len()
        &&& batch[i].goes_to(groups(batch)[k].dbname)
        &&& groups(batch)[k].metrics[l] == batch[i]
    } by {
        lemma_group_origin(batch, k);
    }
    assert forall|k: int, l: int, m: int|
        0 <= k < groups(batch).len() && 0 <= l < m < origins[k].len() implies #[trigger] origins[k][l]
        < #[trigger] origins[k][m] by {
        lemma_group_origin(batch, k);
    }
    assert forall|k: int, i: int|
        0 <= k < groups(batch).len() && 0 <= i < batch.len() && batch[i].goes_to(
            groups(batch)[k].dbname,
        ) implies #[trigger] origins[k].contains(i) by {
        lemma_group_origin(batch, k);
    }
    assert forall|j: int, k: int| 0 <= j < k < groups(batch).len() implies groups(batch)[j].dbname
        != groups(batch)[k].dbname && (#[trigger] origins[j])[0] < (#[trigger] origins[k])[0] by {
        lemma_group_origin(batch, j);
        lemma_group_origin(batch, k);
        let first = origins[k][0];
        assert(names[j] != names[k]);
        assert(batch[first].goes_to(names[k]));
        lemma_first_occurrence(batch, j, k, first);
        let earlier = choose|earlier: int|
            0 <= earlier < first && (#[trigger] batch[earlier]).goes_to(names[j]);
        assert(batch[earlier].goes_to(groups(batch)[j].dbname));
        assert(origins[j].contains(earlier));
        let l = choose|l: int| 0 <= l < origins[j].len() && origins[j][l] == earlier;
        assert(origins[j][0] <= origins[j][l]);
    }
    assert forall|i: int| 0 <= i < batch.len() && (#[trigger] batch[i]).dbname is Ok implies exists|
        k: int,
    |
        0 <= k < groups(batch).len() && (#[trigger] groups(batch)[k]).dbname
            == batch[i].dbname->Ok_0 by {
        let name = batch[i].dbname->Ok_0;
        let keep = |rendered: RenderedMetricView| rendered.goes_to(name);
        lemma_places(batch, keep);
        assert(places(batch, keep).contains(i));
        assert(for_database(batch, name).len() > 0);
        assert(names.contains(name));
        let k = choose|k: int| 0 <= k < names.len() && names[k] == name;
        assert(groups(batch)[k].dbname == name);
    }
}

/// What [`lemma_group_origins`] says of the places in one group.
proof fn lemma_group_origin(batch: Seq<RenderedMetricView>, k: int)
    requires
        0 <= k < groups(batch).len(),
    ensures
        group_origins(batch)[k].len() == groups(batch)[k].metrics.len(),
        group_origins(batch)[k].len() > 0,
        forall|l: int|
            0 <= l < group_origins(batch)[k].len() ==> {
                let i = #[trigger] group_origins(batch)[k][l];
                &&& 0 <= i < batch.len()
                &&& batch[i].goes_to(groups(batch)[k].dbname)
                &&& groups(batch)[k].metrics[l] == batch[i]
            },
        forall|l: int, m: int|
            0 <= l < m < group_origins(batch)[k].len() ==> #[trigger] group_origins(batch)[k][l]
                < #[trigger] group_origins(batch)[k][m],
        forall|i: int|
            0 <= i < batch.len() && batch[i].goes_to(groups(batch)[k].dbname)
                ==> #[trigger] group_origins(batch)[k].contains(i),
{
    let names = database_names(batch);
    let name = names[k];
    let keep = |rendered: RenderedMetricView| rendered.goes_to(name);
    lemma_database_names(batch);
    lemma_places(batch, keep);
    assert(group_origins(batch)[k] == places(batch, keep));
    assert(groups(batch)[k].metrics == batch.filter(keep));
    assert(names.contains(name));
    assert(for_database(batch, name).len() > 0);
}

/// Before a metric for a later database stands one for an earlier database.
proof fn lemma_first_occurrence(batch: Seq<RenderedMetricView>, j: int, k: int, i: int)
    requires
        0 <= j < k < database_names(batch).len(),
        0 <= i < batch.len(),
        batch[i].goes_to(database_names(batch)[k]),
    ensures
        exists|earlier: int|
            0 <= earlier < i && (#[trigger] batch[earlier]).goes_to(database_names(batch)[j]),
    decreases batch.len(),
{
    let rest = batch.drop_last();
    let names = database_names(rest);
    lemma_database_names(rest);
    lemma_database_names(batch);
    if k < names.len() {
        if i < rest.len() {
            lemma_first_occurrence(rest, j, k, i);
            let earlier = choose|earlier: int|
                0 <= earlier < i && (#[trigger] rest[earlier]).goes_to(names[j]);
            assert(batch[earlier].goes_to(database_names(batch)[j]));
        } else {
            let l = lemma_named(rest, names[k]);
            lemma_first_occurrence(rest, j, k, l);
            let earlier = choose|earlier: int|
                0 <= earlier < l && (#[trigger] rest[earlier]).goes_to(names[j]);
            assert(batch[earlier].goes_to(database_names(batch)[j]));
        }
    } else {
        let l = lemma_named(rest, names[j]);
        if i < rest.len() {
            let name = database_names(batch)[k];
            lemma_places(rest, |rendered: RenderedMetricView| rendered.goes_to(name));
            assert(rest[i].goes_to(name));
            assert(places(rest, |rendered: RenderedMetricView| rendered.goes_to(name)).contains(i));
            assert(for_database(rest, name).len() > 0);
            assert(names.contains(name));
            let m = choose|m: int| 0 <= m < names.len() && names[m] == name;
            assert(database_names(batch)[m] == database_names(batch)[k]);
        }
        assert(batch[l].goes_to(database_names(batch)[j]));
    }
}

/// A metric for a database that a batch goes to.
proof fn lemma_named(batch: Seq<RenderedMetricView>, name: Seq<char>) -> (i: int)
    requires
        database_names(batch).contains(name),
    ensures
        0 <= i < batch.len(),
        batch[i].goes_to(name),
{
    let keep = |rendered: RenderedMetricView| rendered.goes_to(name);
    lemma_database_names(batch);
    lemma_places(batch, keep);
    assert(for_database(batch, name).len() > 0);
    places(batch, keep)[0]
}

/// The groups of a batch, one for each database. The result lists, for each group, where its
/// metrics stand in the batch: they are all that have this database, in order, and unchanged.
/// The groups are in the order of their first metrics. Metrics without a database are in none.
#[verifier::rlimit(60)]
#[verifier::spinoff_prover]
pub proof fn law_groups_of_a_batch(sorted: Seq<DatabaseGroup>, batch: Seq<RenderedMetric>) -> (origins:
    Seq<Seq<int>>)
    requires
        views(sorted) == groups(views(batch)),
    ensures
        origins.len() == sorted.len(),
        forall|k: int|
            0 <= k < sorted.len() ==> (#[trigger] origins[k]).len() == sorted[k].metrics@.len()
                && origins[k].len() > 0,
        forall|k: int, l: int|
            0 <= k < sorted.len() && 0 <= l < origins[k].len() ==> {
                let i = #[trigger] origins[k][l];
                let metric = sorted[k].metrics@[l];
                &&& 0 <= i < batch.len()
                &&& batch[i].dbname is Ok && batch[i].dbname->Ok_0@ == sorted[k].dbname@
                &&& metric.metric@ == batch[i].metric@
                &&& metric.dbname is Ok && metric.dbname->Ok_0@ == sorted[k].dbname@
                &&& match (metric.table, batch[i].table) {
                    (Some(Ok(name)), Some(Ok(given))) => name@ == given@,
                    (Some(Err(error)), Some(Err(given))) => error@ == given@,
                    (None, None) => true,
                    _ => false,
                }
            },
        forall|k: int, l: int, m: int|
            0 <= k < sorted.len() && 0 <= l < m < origins[k].len() ==> #[trigger] origins[k][l]
                < #[trigger] origins[k][m],
        forall|j: int, k: int|
            0 <= j < k < sorted.len() ==> (#[trigger] sorted[j]).dbname@ != (
            #[trigger] sorted[k]).dbname@ && origins[j][0] < origins[k][0],
        forall|i: int|
            0 <= i < batch.len() && (#[trigger] batch[i]).dbname is Ok ==> exists|k: int|
                0 <= k < sorted.len() && (#[trigger] origins[k]).contains(i),
{
    let all = views(batch);
    lemma_group_origins(all);
    let origins = group_origins(all);
    assert(views(sorted).len() == sorted.len());
    assert forall|k: int| 0 <= k < sorted.len() implies (#[trigger] origins[k]).len()
        == sorted[k].metrics@.len() && origins[k].len() > 0 && sorted[k]@ == groups(all)[k] by {
        assert(views(sorted)[k] == sorted[k]@);
        assert(sorted[k]@.metrics.len() == sorted[k].metrics@.len());
    }
    assert forall|k: int, l: int| 0 <= k < sorted.len() && 0 <= l < origins[k].len() implies {
        let i = #[trigger] origins[k][l];
        &&& 0 <= i < batch.len()
        &&& batch[i]@.goes_to(sorted[k].dbname@)
        &&& sorted[k].metrics@[l]@ == batch[i]@
    } by {
        assert(origins[k].len() > 0);
        assert(sorted[k]@ == groups(all)[k]);
        let i = origins[k][l];
        assert(all[i] == batch[i]@);
        assert(sorted[k]@.metrics[l] == sorted[k].metrics@[l]@);
    }
    assert forall|j: int, k: int| 0 <= j < k < sorted.len() implies (#[trigger] sorted[j]).dbname@ != (
    #[trigger] sorted[k]).dbname@ && origins[j][0] < origins[k][0] by {
        assert(origins[j].len() > 0 && origins[k].len() > 0);
    }
    assert forall|i: int| 0 <= i < batch.len() && (#[trigger] batch[i]).dbname is Ok implies exists|
        k: int,
    |
        0 <= k < sorted.len() && (#[trigger] origins[k]).contains(i) by {
        assert(all[i] == batch[i]@ && all[i].dbname is Ok);
        let k = choose|k: int|
            0 <= k < origins.len() && (#[trigger] groups(all)[k]).dbname == all[i].dbname->Ok_0;
        assert(all[i].goes_to(groups(all)[k].dbname));
        assert(origins[k].contains(i));
    }
    origins
}

/// The requests of a batch, one for each database. The result lists, for each request, where the
/// metrics that it inserts stand in the batch: they are all that have this database, in order,
/// and each insert is what its metric becomes with the table name that rendered for it. The
/// requests are in the order of their first metrics.
#[verifier::rlimit(60)]
#[verifier::spinoff_prover]
pub proof fn law_requests_of_a_batch(
    requests: Seq<GreptimeDBGrpcRequest>,
    batch: Seq<RenderedMetric>,
    options: WideRequestBuilderOptions,
) -> (origins: Seq<Seq<int>>)
    requires
        answers(requests, views(batch), options@),
    ensures
        origins.len() == requests.len(),
        forall|k: int|
            0 <= k < requests.len() ==> (#[trigger] origins[k]).len() == requests[k].inserts@.len()
                && origins[k].len() > 0,
        forall|k: int, l: int|
            0 <= k < requests.len() && 0 <= l < origins[k].len() ==> {
                let i = #[trigger] origins[k][l];
                &&& 0 <= i < batch.len()
                &&& batch[i].dbname is Ok && batch[i].dbname->Ok_0@ == requests[k].dbname@
                &&& inserts(
                    requests[k].inserts@[l]@,
                    batch[i].metric@,
                    options@,
                    match batch[i].table {
                        Some(Ok(name)) => Some(name@),
                        _ => None,
                    },
                )
            },
        forall|k: int, l: int, m: int|
            0 <= k < requests.len() && 0 <= l < m < origins[k].len() ==> #[trigger] origins[k][l]
                < #[trigger] origins[k][m],
        forall|j: int, k: int|
            0 <= j < k < requests.len() ==> (#[trigger] requests[j]).dbname@ != (
            #[trigger] requests[k]).dbname@ && origins[j][0] < origins[k][0],
        forall|i: int|
            0 <= i < batch.len() && (#[trigger] batch[i]).dbname is Ok ==> exists|k: int|
                0 <= k < requests.len() && (#[trigger] origins[k]).contains(i),
{
    let all = views(batch);
    lemma_group_origins(all);
    let origins = group_origins(all);
    assert forall|k: int| 0 <= k < requests.len() implies (#[trigger] origins[k]).len()
        == requests[k].inserts@.len() && origins[k].len() > 0 && requests[k].is_for(
        groups(all)[k],
        options@,
    ) by {
        assert(requests[k].is_for(groups(all)[k], options@));
    }
    assert forall|k: int, l: int| 0 <= k < requests.len() && 0 <= l < origins[k].len() implies {
        let i = #[trigger] origins[k][l];
        &&& 0 <= i < batch.len()
        &&& batch[i]@.goes_to(requests[k].dbname@)
        &&& inserts(
            requests[k].inserts@[l]@,
            batch[i].metric@,
            options@,
            rendered_name(view_optional_rendering(batch[i].table)),
        )
    } by {
        assert(origins[k].len() > 0);
        assert(requests[k].is_for(groups(all)[k], options@));
        let i = origins[k][l];
        assert(all[i] == batch[i]@);
        assert(groups(all)[k].metrics[l] == all[i]);
        assert(inserts(
            requests[k].inserts@[l]@,
            groups(all)[k].metrics[l].metric,
            options@,
            rendered_name(groups(all)[k].metrics[l].table),
        ));
    }
    assert forall|j: int, k: int| 0 <= j < k < requests.len() implies (
    #[trigger] requests[j]).dbname@ != (#[trigger] requests[k]).dbname@ && origins[j][0]
        < origins[k][0] by {
        assert(origins[j].len() > 0 && origins[k].len() > 0);
    }
    assert forall|i: int| 0 <= i < batch.len() && (#[trigger] batch[i]).dbname is Ok implies exists|
        k: int,
    |
        0 <= k < requests.len() && (#[trigger] origins[k]).contains(i) by {
        assert(all[i] == batch[i]@ && all[i].dbname is Ok);
        let k = choose|k: int|
            0 <= k < origins.len() && (#[trigger] groups(all)[k]).dbname == all[i].dbname->Ok_0;
        assert(all[i].goes_to(groups(all)[k].dbname));
        assert(origins[k].contains(i));
    }
    origins
}

/// The table name of a metric failed to render.
spec fn table_failed(rendered: RenderedMetricView, options: OptionsView) -> bool {
    options.table is Some && rendered.table matches Some(Err(_))
}

/// The reports of table names are those of the metrics whose table name failed, in order.
proof fn lemma_table_reports(metrics: Seq<RenderedMetricView>, options: OptionsView)
    ensures
        table_errors_of(metrics, options) == metrics.filter(
            |rendered: RenderedMetricView| table_failed(rendered, options),
        ).map_values(|rendered: RenderedMetricView| table_error(rendered.table->0->Err_0)),
    decreases metrics.len(),
{
    reveal(Seq::filter);
    let keep = |rendered: RenderedMetricView| table_failed(rendered, options);
    let report = |rendered: RenderedMetricView| table_error(rendered.table->0->Err_0);
    if metrics.len() > 0 {
        let rest = metrics.drop_last();
        lemma_table_reports(rest, options);
        assert(metrics =~= rest.push(metrics.last()));
        lemma_filter_push(rest, metrics.last(), keep);
    }
    assert(table_errors_of(metrics, options) =~= metrics.filter(keep).map_values(report));
}

/// The place of the database of a metric among the databases of its batch.
spec fn rank(batch: Seq<RenderedMetricView>, i: int) -> int {
    database_names(batch).index_of(batch[i].dbname->Ok_0)
}

/// The metrics whose table names are reported of the first `n` groups, in the order of the
/// reports.
#[verifier::rlimit(60)]
#[verifier::spinoff_prover]
proof fn lemma_group_reports(
    batch: Seq<RenderedMetricView>,
    options: OptionsView,
    n: nat,
) -> (tables: Seq<int>)
    requires
        n <= groups(batch).len(),
    ensures
        ({
            let reports = group_errors(groups(batch).take(n as int), options);
            &&& reports.len() == tables.len()
            &&& forall|q: int|
                0 <= q < tables.len() ==> {
                    let i = #[trigger] tables[q];
                    &&& 0 <= i < batch.len()
                    &&& batch[i].dbname is Ok
                    &&& table_failed(batch[i], options)
                    &&& 0 <= rank(batch, i) < n
                    &&& reports[q] == table_error(batch[i].table->0->Err_0)
                }
            &&& forall|q: int, r: int|
                0 <= q < r < tables.len() ==> {
                    let i = #[trigger] tables[q];
                    let j = #[trigger] tables[r];
                    rank(batch, i) < rank(batch, j) || (rank(batch, i) == rank(batch, j) && i < j)
                }
            &&& forall|i: int|
                0 <= i < batch.len() && batch[i].dbname is Ok && table_failed(batch[i], options)
                    && rank(batch, i) < n ==> #[trigger] tables.contains(i)
        }),
    decreases n,
{
    let all = groups(batch);
    let names = database_names(batch);
    lemma_group_origins(batch);
    lemma_database_names(batch);
    if n == 0 {
        assert(all.take(0) =~= Seq::empty());
        assert forall|i: int|
            0 <= i < batch.len() && batch[i].dbname is Ok && table_failed(batch[i], options)
                && rank(batch, i) < 0 implies #[trigger] Seq::<int>::empty().contains(i) by {
            lemma_rank(batch, i);
        }
        Seq::empty()
    } else {
        let k = n - 1;
        let before = lemma_group_reports(batch, options, k as nat);
        let metrics = all[k].metrics;
        let places_in_batch = group_origins(batch)[k];
        let keep = |rendered: RenderedMetricView| table_failed(rendered, options);
        let report = |rendered: RenderedMetricView| table_error(rendered.table->0->Err_0);
        lemma_table_reports(metrics, options);
        lemma_places(metrics, keep);
        let failed = places(metrics, keep);
        let more = failed.map_values(|l: int| places_in_batch[l]);
        let tables = before + more;
        assert(all.take(n as int).drop_last() =~= all.take(k));
        assert(all.take(n as int).last() == all[k]);
        let reports = group_errors(all.take(n as int), options);
        assert(reports == group_errors(all.take(k), options) + metrics.filter(keep).map_values(
            report,
        ));
        assert forall|q: int| 0 <= q < more.len() implies {
            let i = #[trigger] more[q];
            &&& 0 <= i < batch.len()
            &&& batch[i] == metrics[failed[q]]
            &&& batch[i].goes_to(names[k])
            &&& rank(batch, i) == k
            &&& table_failed(batch[i], options)
        } by {
            let l = failed[q];
            let i = places_in_batch[l];
            assert(more[q] == i);
            assert(batch[i].goes_to(all[k].dbname));
            lemma_rank(batch, i);
            assert(names[rank(batch, i)] == names[k]);
        }
        assert forall|q: int| 0 <= q < tables.len() implies {
            let i = #[trigger] tables[q];
            &&& 0 <= i < batch.len()
            &&& batch[i].dbname is Ok
            &&& table_failed(batch[i], options)
            &&& 0 <= rank(batch, i) < n
            &&& reports[q] == table_error(batch[i].table->0->Err_0)
        } by {
            if q < before.len() {
                assert(tables[q] == before[q]);
            } else {
                let m = q - before.len();
                assert(tables[q] == more[m]);
                assert(metrics[failed[m]] == metrics.filter(keep)[m]);
            }
        }
        assert forall|q: int, r: int| 0 <= q < r < tables.len() implies {
            let i = #[trigger] tables[q];
            let j = #[trigger] tables[r];
            rank(batch, i) < rank(batch, j) || (rank(batch, i) == rank(batch, j) && i < j)
        } by {
            if r < before.len() {
                assert(tables[q] == before[q] && tables[r] == before[r]);
            } else if q < before.len() {
                assert(tables[q] == before[q] && tables[r] == more[r - before.len()]);
            } else {
                let a = q - before.len();
                let b = r - before.len();
                assert(tables[q] == more[a] && tables[r] == more[b]);
                assert(failed[a] < failed[b]);
                assert(places_in_batch[failed[a]] < places_in_batch[failed[b]]);
            }
        }
        assert forall|i: int|
            0 <= i < batch.len() && batch[i].dbname is Ok && table_failed(batch[i], options) && rank(
                batch,
                i,
            ) < n implies #[trigger] tables.contains(i) by {
            lemma_rank(batch, i);
            if rank(batch, i) < k {
                assert(before.contains(i));
                let q = choose|q: int| 0 <= q < before.len() && before[q] == i;
                assert(tables[q] == i);
            } else {
                assert(batch[i].goes_to(all[k].dbname));
                assert(places_in_batch.contains(i));
                let l = choose|l: int| 0 <= l < places_in_batch.len() && places_in_batch[l] == i;
                assert(metrics[l] == batch[i]);
                assert(failed.contains(l));
                let m = choose|m: int| 0 <= m < failed.len() && failed[m] == l;
                assert(more[m] == i);
                assert(tables[before.len() + m] == i);
            }
        }
        tables
    }
}

/// The database of a metric is among those of its batch.
proof fn lemma_rank(batch: Seq<RenderedMetricView>, i: int)
    requires
        0 <= i < batch.len(),
        batch[i].dbname is Ok,
    ensures
        0 <= rank(batch, i) < database_names(batch).len(),
        database_names(batch)[rank(batch, i)] == batch[i].dbname->Ok_0,
{
    lemma_group_origins(batch);
    let k = choose|k: int|
        0 <= k < group_origins(batch).len() && (#[trigger] groups(batch)[k]).dbname
            == batch[i].dbname->Ok_0;
    assert(database_names(batch)[k] == batch[i].dbname->Ok_0);
    assert(database_names(batch).contains(batch[i].dbname->Ok_0));
}

/// What is reported of a batch, behind earlier reports. The result lists the metrics whose
/// database names failed to render, in order, and then those that have a database and whose
/// table names failed, as far as there is a template: database by database, in the order in
/// which these first occur, and in order for each. Each of them has one report with its reason,
/// for the field `dbname`, which drops the metric, or for the field `table`, which does not.
#[verifier::rlimit(60)]
#[verifier::spinoff_prover]
pub proof fn law_reports_of_a_batch(
    before: Seq<TemplateRenderingError>,
    after: Seq<TemplateRenderingError>,
    batch: Seq<RenderedMetric>,
    options: WideRequestBuilderOptions,
) -> (reported: (Seq<int>, Seq<int>))
    requires
        views(after) == views(before) + batch_errors(views(batch), options@),
    ensures
        ({
            let (dropped, tables) = reported;
            &&& after.len() == before.len() + dropped.len() + tables.len()
            &&& forall|p: int|
                0 <= p < dropped.len() ==> {
                    let i = #[trigger] dropped[p];
                    let report = after[before.len() + p];
                    &&& 0 <= i < batch.len()
                    &&& batch[i].dbname is Err
                    &&& report.error@ == batch[i].dbname->Err_0@
                    &&& report.field is Some && report.field->0@ == "dbname"@
                    &&& report.drop_event
                }
            &&& forall|i: int|
                0 <= i < batch.len() && batch[i].dbname is Err ==> #[trigger] dropped.contains(i)
            &&& forall|p: int, q: int| 0 <= p < q < dropped.len() ==> dropped[p] < dropped[q]
            &&& forall|q: int|
                0 <= q < tables.len() ==> {
                    let i = #[trigger] tables[q];
                    let report = after[before.len() + dropped.len() + q];
                    &&& 0 <= i < batch.len()
                    &&& batch[i].dbname is Ok
                    &&& options.table is Some
                    &&& batch[i].table matches Some(Err(error))
                    &&& report.error@ == error@
                    &&& report.field is Some && report.field->0@ == "table"@
                    &&& !report.drop_event
                }
            &&& forall|i: int|
                0 <= i < batch.len() && batch[i].dbname is Ok && options.table is Some
                    && batch[i].table is Some && batch[i].table->0 is Err
                    ==> #[trigger] tables.contains(i)
            &&& forall|q: int, r: int|
                0 <= q < r < tables.len() ==> {
                    let i = #[trigger] tables[q];
                    let j = #[trigger] tables[r];
                    if batch[i].dbname->Ok_0@ == batch[j].dbname->Ok_0@ {
                        i < j
                    } else {
                        exists|first: int|
                            0 <= first < j && (#[trigger] batch[first]).dbname is Ok
                                && batch[first].dbname->Ok_0@ == batch[i].dbname->Ok_0@
                    }
                }
        }),
{
    let all = views(batch);
    let has_none = |rendered: RenderedMetricView| rendered.dbname is Err;
    lemma_places(all, has_none);
    let dropped = places(all, has_none);
    let tables = lemma_group_reports(all, options@, groups(all).len());
    assert(groups(all).take(groups(all).len() as int) =~= groups(all));
    let first = dbname_errors(all);
    let second = group_errors(groups(all), options@);
    assert(first.len() == dropped.len());
    assert(views(after).len() == after.len() && views(before).len() == before.len());
    assert forall|i: int| 0 <= i < batch.len() implies all[i] == (#[trigger] batch[i])@ by {
    }
    assert forall|p: int| 0 <= p < dropped.len() implies {
        let i = #[trigger] dropped[p];
        &&& 0 <= i < batch.len()
        &&& batch[i]@.dbname is Err
        &&& after[before.len() + p]@ == dbname_error(batch[i]@.dbname->Err_0)
    } by {
        let i = dropped[p];
        assert(all[i] == batch[i]@);
        assert(first[p] == dbname_error(all[i].dbname->Err_0));
        assert(views(after)[before.len() + p] == first[p]);
    }
    assert forall|i: int| 0 <= i < batch.len() && batch[i].dbname is Err implies #[trigger]
        dropped.contains(i) by {
        assert(all[i] == batch[i]@ && has_none(all[i]));
    }
    assert forall|q: int| 0 <= q < tables.len() implies {
        let i = #[trigger] tables[q];
        &&& 0 <= i < batch.len()
        &&& batch[i]@.dbname is Ok
        &&& table_failed(batch[i]@, options@)
        &&& after[before.len() + dropped.len() + q]@ == table_error(batch[i]@.table->0->Err_0)
    } by {
        let i = tables[q];
        assert(all[i] == batch[i]@);
        assert(views(after)[before.len() + dropped.len() + q] == second[q]);
    }
    assert forall|i: int|
        0 <= i < batch.len() && batch[i].dbname is Ok && options.table is Some
            && batch[i].table is Some && batch[i].table->0 is Err implies #[trigger] tables.contains(
        i,
    ) by {
        assert(all[i] == batch[i]@);
        lemma_rank(all, i);
    }
    assert forall|q: int, r: int| 0 <= q < r < tables.len() implies {
        let i = #[trigger] tables[q];
        let j = #[trigger] tables[r];
        if batch[i].dbname->Ok_0@ == batch[j].dbname->Ok_0@ {
            i < j
        } else {
            exists|first: int|
                0 <= first < j && (#[trigger] batch[first]).dbname is Ok
                    && batch[first].dbname->Ok_0@ == batch[i].dbname->Ok_0@
        }
    } by {
        let i = tables[q];
        let j = tables[r];
        assert(all[i] == batch[i]@ && all[j] == batch[j]@);
        lemma_rank(all, i);
        lemma_rank(all, j);
        if batch[i].dbname->Ok_0@ != batch[j].dbname->Ok_0@ {
            assert(rank(all, i) < rank(all, j));
            lemma_first_occurrence(all, rank(all, i), rank(all, j), j);
            let earlier = choose|earlier: int|
                0 <= earlier < j && (#[trigger] all[earlier]).goes_to(
                    database_names(all)[rank(all, i)],
                );
            assert(all[earlier] == batch[earlier]@);
            assert(batch[earlier].dbname is Ok);
        }
    }
    (dropped, tables)
}

}
