//! Merging probe results into the catalog, and joining the expanded
//! databases into the final report.
use vstd::prelude::*;
use crate::catalog::{
    CollectionInfo, CollectionModel, DatabaseInfo, DatabaseModel, MongoInfo, Probe, ProbeFailure,
    with_probe,
};
use crate::order::names_of;

verus! {

/// The collection `c` once a probe found `p`.
pub open spec fn probed(c: CollectionModel, p: Probe) -> CollectionModel {
    CollectionModel { name: c.name, doc_count: p.doc_count, indexes: names_of(p.indexes@) }
}

/// `d` with every collection holding the result of its own probe.
pub open spec fn with_all_probes(d: DatabaseModel, outcomes: Seq<Option<Probe>>) -> DatabaseModel {
    DatabaseModel {
        name: d.name,
        collections: Seq::new(
            d.collections.len(),
            |i: int| probed(d.collections[i], outcomes[i]->Some_0),
        ),
    }
}

/// `i` is the first place where `outcomes` holds a failure.
pub open spec fn first_failed(outcomes: Seq<Option<Probe>>, i: int) -> bool {
    0 <= i < outcomes.len() && outcomes[i] is None && forall|j: int|
        0 <= j < i ==> #[trigger] outcomes[j] is Some
}

pub open spec fn all_succeeded(outcomes: Seq<Option<Probe>>) -> bool {
    forall|j: int| 0 <= j < outcomes.len() ==> #[trigger] outcomes[j] is Some
}

/// `i` is the first place where `results` holds an error.
pub open spec fn first_error(results: Seq<Result<DatabaseInfo, ProbeFailure>>, i: int) -> bool {
    0 <= i < results.len() && results[i] is Err && forall|j: int|
        0 <= j < i ==> #[trigger] results[j] is Ok
}

impl DatabaseInfo {
    /// Stores what the probe of collection `i` found, leaving its name and
    /// every other collection as they were.
    pub fn record_probe(&mut self, i: usize, doc_count: u64, indexes: Vec<String>)
        requires
            i < old(self).collections.len(),
        ensures
            final(self)@ == with_probe(old(self)@, i as int, doc_count, names_of(indexes@)),
    {
        let name = self.collections[i].collection_name.clone();
        self.collections.set(i, CollectionInfo { collection_name: name, indexes, doc_count });
        assert(self@.collections =~= with_probe(
            old(self)@,
            i as int,
            doc_count,
            names_of(indexes@),
        ).collections);
    }
}

/// Finds the first failed probe, if any.
pub fn first_failure(outcomes: &Vec<Option<Probe>>) -> (r: Option<usize>)
    ensures
        match r {
            Some(i) => first_failed(outcomes@, i as int),
            None => all_succeeded(outcomes@),
        },
{
    let mut i: usize = 0;
    while i < outcomes.len()
        invariant
            i <= outcomes.len(),
            forall|j: int| 0 <= j < i ==> #[trigger] outcomes@[j] is Some,
        decreases outcomes.len() - i,
    {
        if outcomes[i].is_none() {
            return Some(i);
        }
        i += 1;
    }
    None
}

/// Merges the probes of every collection of `db`, given in the order of its
/// collections. Any failed probe fails the whole database: the error names
/// the first collection whose probe failed.
pub fn expand_database(db: DatabaseInfo, outcomes: Vec<Option<Probe>>) -> (r: Result<
    DatabaseInfo,
    ProbeFailure,
>)
    requires
        outcomes.len() == db.collections.len(),
    ensures
        r is Ok <==> all_succeeded(outcomes@),
        r matches Ok(d) ==> d@ == with_all_probes(db@, outcomes@),
        r matches Err(e) ==> e.database_name@ == db@.name && exists|i: int|
            first_failed(outcomes@, i) && e.collection_name@ == db@.collections[i].name,
{
    match first_failure(&outcomes) {
        Some(i) => {
            return Err(
                ProbeFailure {
                    database_name: db.database_name.clone(),
                    collection_name: db.collections[i].collection_name.clone(),
                },
            );
        },
        None => {},
    }
    let ghost n = outcomes.len() as int;
    let ghost orig = db@;
    let ghost all = outcomes@;
    let ghost goal = with_all_probes(db@, all);
    let mut d = db;
    let mut rest = outcomes;
    assert(rest@ =~= all.take(n));
    while rest.len() > 0
        invariant
            rest.len() <= n,
            rest@ == all.take(rest.len() as int),
            all_succeeded(all),
            all.len() == n,
            d@.collections.len() == n,
            orig.collections.len() == n,
            goal == with_all_probes(orig, all),
            d@.name == orig.name,
            d.collections.len() == n,
            forall|j: int| 0 <= j < rest.len() ==> #[trigger] d@.collections[j] == orig.collections[j],
            forall|j: int| rest.len() <= j < n ==> #[trigger] d@.collections[j] == goal.collections[j],
        decreases rest.len(),
    {
        let k: usize = rest.len() - 1;
        assert(rest@[k as int] == all[k as int]);
        let outcome = rest.pop();
        assert(rest@ =~= all.take(k as int));
        if let Some(Some(p)) = outcome {
            d.record_probe(k, p.doc_count, p.indexes);
        }
    }
    assert(d@.collections =~= goal.collections);
    Ok(d)
}

/// Joins the expanded databases, in catalog order, with the principal
/// listing. The run fails as a whole on the first database that failed.
pub fn finish_run<U>(results: Vec<Result<DatabaseInfo, ProbeFailure>>, users: Option<U>) -> (r:
    Result<MongoInfo<U>, ProbeFailure>)
    ensures
        r is Ok <==> forall|j: int| 0 <= j < results.len() ==> #[trigger] results@[j] is Ok,
        r matches Ok(info) ==> info.users == users && info.databases.len() == results.len()
            && forall|j: int|
            0 <= j < results.len() ==> results@[j] == Ok::<DatabaseInfo, ProbeFailure>(
                #[trigger] info.databases@[j],
            ),
        r matches Err(e) ==> exists|i: int|
            first_error(results@, i) && results@[i] == Err::<DatabaseInfo, ProbeFailure>(e),
{
    let ghost all = results@;
    let ghost n = results.len() as int;
    let mut rest = results;
    assert(rest@ =~= all.take(n));
    let mut failure: Option<ProbeFailure> = None;
    let mut reversed: Vec<DatabaseInfo> = Vec::new();
    while rest.len() > 0
        invariant
            rest.len() <= n,
            rest@ == all.take(rest.len() as int),
            all.len() == n,
            failure is None ==> forall|j: int| rest.len() <= j < n ==> #[trigger] all[j] is Ok,
            failure is None ==> reversed.len() == n - rest.len(),
            failure is None ==> forall|t: int|
                0 <= t < reversed.len() ==> all[n - 1 - t] == Ok::<DatabaseInfo, ProbeFailure>(
                    #[trigger] reversed@[t],
                ),
            failure matches Some(e) ==> exists|i: int|
                rest.len() <= i < n && all[i] == Err::<DatabaseInfo, ProbeFailure>(e)
                    && forall|j: int| rest.len() <= j < i ==> #[trigger] all[j] is Ok,
        decreases rest.len(),
    {
        let k: usize = rest.len() - 1;
        assert(rest@[k as int] == all[k as int]);
        let item = rest.pop();
        assert(rest@ =~= all.take(k as int));
        match item {
            Some(Ok(d)) => {
                reversed.push(d);
            },
            Some(Err(e)) => {
                failure = Some(e);
            },
            None => {},
        }
    }
    match failure {
        Some(e) => Err(e),
        None => {
            let mut databases: Vec<DatabaseInfo> = Vec::new();
            while reversed.len() > 0
                invariant
                    databases.len() + reversed.len() == n,
                    forall|t: int|
                        0 <= t < reversed.len() ==> all[n - 1 - t] == Ok::<DatabaseInfo, ProbeFailure>(
                            #[trigger] reversed@[t],
                        ),
                    forall|j: int|
                        0 <= j < databases.len() ==> all[j] == Ok::<DatabaseInfo, ProbeFailure>(
                            #[trigger] databases@[j],
                        ),
                decreases reversed.len(),
            {
                let ghost t = reversed.len() - 1;
                let d = reversed.pop().unwrap();
                assert(all[n - 1 - t] == Ok::<DatabaseInfo, ProbeFailure>(d));
                databases.push(d);
            }
            Ok(MongoInfo { databases, users })
        },
    }
}

} // verus!
