//! The inventory report: databases, their collections, and what was
//! probed of each collection.
use vstd::prelude::*;
use crate::order::{arranges, names_of, sort_names};

verus! {

broadcast use vstd::seq_lib::group_to_multiset_ensures;

/// One collection: its name, its approximate document count and the names
/// of its indexes, in the order the server gave them.
#[derive(Clone, Debug, PartialEq, Eq)]
pub struct CollectionInfo {
    pub collection_name: String,
    pub indexes: Vec<String>,
    pub doc_count: u64,
}

/// One database and its collections, ordered by name.
#[derive(Clone, Debug, PartialEq, Eq)]
pub struct DatabaseInfo {
    pub database_name: String,
    pub collections: Vec<CollectionInfo>,
}

/// The whole report. `users` is the server's principal listing, carried
/// as an opaque payload; `None` when it could not be had.
#[derive(Clone, Debug, PartialEq, Eq)]
pub struct MongoInfo<U> {
    pub databases: Vec<DatabaseInfo>,
    pub users: Option<U>,
}

/// A probe that could not be completed, with the place where it failed.
#[derive(Clone, Debug, PartialEq, Eq)]
pub struct ProbeFailure {
    pub database_name: String,
    pub collection_name: String,
}

/// What a successful probe of one collection found.
#[derive(Clone, Debug, PartialEq, Eq)]
pub struct Probe {
    pub doc_count: u64,
    pub indexes: Vec<String>,
}

pub struct CollectionModel {
    pub name: Seq<char>,
    pub doc_count: u64,
    pub indexes: Seq<Seq<char>>,
}

pub struct DatabaseModel {
    pub name: Seq<char>,
    pub collections: Seq<CollectionModel>,
}

impl View for CollectionInfo {
    type V = CollectionModel;

    open spec fn view(&self) -> CollectionModel {
        CollectionModel {
            name: self.collection_name@,
            doc_count: self.doc_count,
            indexes: names_of(self.indexes@),
        }
    }
}

impl View for DatabaseInfo {
    type V = DatabaseModel;

    open spec fn view(&self) -> DatabaseModel {
        DatabaseModel {
            name: self.database_name@,
            collections: self.collections@.map_values(|c: CollectionInfo| c@),
        }
    }
}

/// The names of the system databases that the inventory leaves out.
pub open spec fn excluded(name: Seq<char>) -> bool {
    name == seq!['a', 'd', 'm', 'i', 'n'] || name == seq!['c', 'o', 'n', 'f', 'i', 'g'] || name
        == seq!['l', 'o', 'c', 'a', 'l']
}

/// The names of `s` that are not excluded, in their order.
pub open spec fn kept(s: Seq<Seq<char>>) -> Seq<Seq<char>>
    decreases s.len(),
{
    if s.len() == 0 {
        s
    } else if excluded(s.last()) {
        kept(s.drop_last())
    } else {
        kept(s.drop_last()).push(s.last())
    }
}

pub open spec fn database_names(d: Seq<DatabaseModel>) -> Seq<Seq<char>> {
    d.map_values(|x: DatabaseModel| x.name)
}

pub open spec fn collection_names(c: Seq<CollectionModel>) -> Seq<Seq<char>> {
    c.map_values(|x: CollectionModel| x.name)
}

/// A collection as it stands before it is probed.
pub open spec fn unprobed(c: CollectionModel) -> bool {
    c.doc_count == 0 && c.indexes.len() == 0
}

/// `d` with collection `i` holding the result of a probe.
pub open spec fn with_probe(
    d: DatabaseModel,
    i: int,
    doc_count: u64,
    indexes: Seq<Seq<char>>,
) -> DatabaseModel {
    DatabaseModel {
        name: d.name,
        collections: d.collections.update(
            i,
            CollectionModel { name: d.collections[i].name, doc_count, indexes },
        ),
    }
}

pub proof fn lemma_kept_has_no_excluded(s: Seq<Seq<char>>)
    ensures
        forall|j: int| 0 <= j < kept(s).len() ==> !excluded(#[trigger] kept(s)[j]),
    decreases s.len(),
{
    if s.len() > 0 {
        let t = s.drop_last();
        lemma_kept_has_no_excluded(t);
        assert forall|j: int| 0 <= j < kept(s).len() implies !excluded(#[trigger] kept(s)[j]) by {
            if j < kept(t).len() {
                assert(kept(s)[j] == kept(t)[j]);
            }
        }
    }
}

/// A name occurs in `kept(s)` as often as in `s`, unless it is excluded.
pub proof fn lemma_kept_count(s: Seq<Seq<char>>, n: Seq<char>)
    ensures
        kept(s).to_multiset().count(n) == if excluded(n) {
            0
        } else {
            s.to_multiset().count(n)
        },
    decreases s.len(),
{
    if s.len() > 0 {
        lemma_kept_count(s.drop_last(), n);
        assert(s =~= s.drop_last().push(s.last()));
    }
}

/// Tells whether `name` is one of the system databases.
pub fn is_excluded(name: &String) -> (r: bool)
    ensures
        r == excluded(name@),
{
    let admin = "admin".to_string();
    let config = "config".to_string();
    let local = "local".to_string();
    proof {
        reveal_strlit("admin");
        reveal_strlit("config");
        reveal_strlit("local");
        assert(admin@ =~= seq!['a', 'd', 'm', 'i', 'n']);
        assert(config@ =~= seq!['c', 'o', 'n', 'f', 'i', 'g']);
        assert(local@ =~= seq!['l', 'o', 'c', 'a', 'l']);
    }
    *name == admin || *name == config || *name == local
}

/// The database entries of a catalog listed from the server's database
/// names: system databases are left out, the rest come in ascending
/// order, each with no collections yet.
pub fn database_placeholders(names: &Vec<String>) -> (r: Vec<DatabaseInfo>)
    ensures
        arranges(database_names(r@.map_values(|d: DatabaseInfo| d@)), kept(names_of(names@))),
        forall|i: int| 0 <= i < r.len() ==> !excluded(#[trigger] r@[i]@.name),
        forall|i: int| 0 <= i < r.len() ==> (#[trigger] r@[i]@.collections).len() == 0,
{
    let mut chosen: Vec<String> = Vec::new();
    let mut i: usize = 0;
    while i < names.len()
        invariant
            i <= names.len(),
            names_of(chosen@) == kept(names_of(names@.take(i as int))),
        decreases names.len() - i,
    {
        assert(names_of(names@.take(i + 1)).drop_last() =~= names_of(names@.take(i as int)));
        if !is_excluded(&names[i]) {
            chosen.push(names[i].clone());
            assert(names_of(chosen@) =~= kept(names_of(names@.take(i + 1))));
        }
        i += 1;
    }
    assert(names@.take(names.len() as int) =~= names@);
    let sorted = sort_names(&chosen);
    let mut r: Vec<DatabaseInfo> = Vec::new();
    let mut k: usize = 0;
    while k < sorted.len()
        invariant
            k <= sorted.len(),
            r.len() == k,
            forall|j: int| 0 <= j < k ==> (#[trigger] r@[j])@.name == sorted@[j]@,
            forall|j: int| 0 <= j < k ==> (#[trigger] r@[j]@.collections).len() == 0,
        decreases sorted.len() - k,
    {
        r.push(DatabaseInfo { database_name: sorted[k].clone(), collections: Vec::new() });
        k += 1;
    }
    proof {
        let v = database_names(r@.map_values(|d: DatabaseInfo| d@));
        assert(v =~= names_of(sorted@));
        let out = names_of(sorted@);
        let input = kept(names_of(names@));
        lemma_kept_has_no_excluded(names_of(names@));
        assert forall|j: int| 0 <= j < r.len() implies !excluded(#[trigger] r@[j]@.name) by {
            assert(out.contains(out[j]));
            assert(input.to_multiset().count(out[j]) > 0);
            assert(input.contains(out[j]));
        }
    }
    r
}

/// The collection entries of a database listed from its collection names:
/// ascending by name, each not yet probed.
pub fn collection_placeholders(names: &Vec<String>) -> (r: Vec<CollectionInfo>)
    ensures
        arranges(collection_names(r@.map_values(|c: CollectionInfo| c@)), names_of(names@)),
        forall|i: int| 0 <= i < r.len() ==> unprobed(#[trigger] r@[i]@),
{
    let sorted = sort_names(names);
    let mut r: Vec<CollectionInfo> = Vec::new();
    let mut k: usize = 0;
    while k < sorted.len()
        invariant
            k <= sorted.len(),
            r.len() == k,
            forall|j: int| 0 <= j < k ==> (#[trigger] r@[j])@.name == sorted@[j]@,
            forall|j: int| 0 <= j < k ==> unprobed(#[trigger] r@[j]@),
        decreases sorted.len() - k,
    {
        r.push(
            CollectionInfo { collection_name: sorted[k].clone(), indexes: Vec::new(), doc_count: 0 },
        );
        k += 1;
    }
    assert(collection_names(r@.map_values(|c: CollectionInfo| c@)) =~= names_of(sorted@));
    r
}

} // verus!
