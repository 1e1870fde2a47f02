use mongo_inventory::catalog::{
    collection_placeholders, database_placeholders, is_excluded, CollectionInfo, DatabaseInfo,
    Probe, ProbeFailure,
};
use mongo_inventory::merge::{expand_database, finish_run, first_failure};
use mongo_inventory::order::sort_names;

fn strings(v: &[&str]) -> Vec<String> {
    v.iter().map(|s| s.to_string()).collect()
}

fn db_names(dbs: &[DatabaseInfo]) -> Vec<String> {
    dbs.iter().map(|d| d.database_name.clone()).collect()
}

fn coll_names(colls: &[CollectionInfo]) -> Vec<String> {
    colls.iter().map(|c| c.collection_name.clone()).collect()
}

fn probe(count: u64, indexes: &[&str]) -> Option<Probe> {
    Some(Probe { doc_count: count, indexes: strings(indexes) })
}

fn database_with(name: &str, collections: &[&str]) -> DatabaseInfo {
    DatabaseInfo {
        database_name: name.to_string(),
        collections: collection_placeholders(&strings(collections)),
    }
}

#[test]
fn system_databases_are_left_out() {
    let dbs = database_placeholders(&strings(&["local", "shop", "admin", "config", "analytics"]));
    assert_eq!(db_names(&dbs), strings(&["analytics", "shop"]));
    for d in &dbs {
        assert!(d.collections.is_empty());
    }
}

#[test]
fn only_system_databases_gives_empty_catalog() {
    let dbs = database_placeholders(&strings(&["config", "admin", "local"]));
    assert!(dbs.is_empty());
    assert!(database_placeholders(&Vec::new()).is_empty());
}

#[test]
fn exclusion_is_exact() {
    assert!(is_excluded(&"admin".to_string()));
    assert!(is_excluded(&"config".to_string()));
    assert!(is_excluded(&"local".to_string()));
    assert!(!is_excluded(&"Admin".to_string()));
    assert!(!is_excluded(&"admin2".to_string()));
    assert!(!is_excluded(&"loca".to_string()));
    assert!(!is_excluded(&String::new()));
    let dbs = database_placeholders(&strings(&["Admin", "localdb", "admin"]));
    assert_eq!(db_names(&dbs), strings(&["Admin", "localdb"]));
}

#[test]
fn database_order_ignores_listing_order() {
    let a = database_placeholders(&strings(&["zoo", "app", "admin", "metrics", "billing"]));
    let b = database_placeholders(&strings(&["billing", "metrics", "zoo", "local", "app"]));
    assert_eq!(a, b);
    assert_eq!(db_names(&a), strings(&["app", "billing", "metrics", "zoo"]));
}

#[test]
fn collections_come_sorted_and_unprobed() {
    let colls = collection_placeholders(&strings(&["users", "orders", "carts"]));
    assert_eq!(coll_names(&colls), strings(&["carts", "orders", "users"]));
    for c in &colls {
        assert_eq!(c.doc_count, 0);
        assert!(c.indexes.is_empty());
    }
    assert!(collection_placeholders(&Vec::new()).is_empty());
}

#[test]
fn collection_order_ignores_listing_order() {
    let a = collection_placeholders(&strings(&["b", "c", "a", "ab"]));
    let b = collection_placeholders(&strings(&["ab", "a", "c", "b"]));
    assert_eq!(a, b);
    assert_eq!(coll_names(&a), strings(&["a", "ab", "b", "c"]));
}

#[test]
fn sort_is_by_code_point() {
    let sorted = sort_names(&strings(&["é", "z", "Z", "a", "", "ab", "a"]));
    assert_eq!(sorted, strings(&["", "Z", "a", "a", "ab", "z", "é"]));
}

#[test]
fn duplicate_names_are_all_kept() {
    let dbs = database_placeholders(&strings(&["x", "y", "x"]));
    assert_eq!(db_names(&dbs), strings(&["x", "x", "y"]));
}

#[test]
fn record_probe_sets_one_collection() {
    let mut db = database_with("shop", &["users", "orders"]);
    db.record_probe(1, 7, strings(&["_id_", "email_1"]));
    assert_eq!(db.database_name, "shop");
    assert_eq!(db.collections[0].collection_name, "orders");
    assert_eq!(db.collections[0].doc_count, 0);
    assert!(db.collections[0].indexes.is_empty());
    assert_eq!(db.collections[1].collection_name, "users");
    assert_eq!(db.collections[1].doc_count, 7);
    assert_eq!(db.collections[1].indexes, strings(&["_id_", "email_1"]));
}

#[test]
fn latest_probe_wins_and_repeating_changes_nothing() {
    let mut db = database_with("shop", &["orders"]);
    db.record_probe(0, 3, strings(&["_id_", "old_1"]));
    db.record_probe(0, 5, strings(&["_id_"]));
    let once = db.clone();
    assert_eq!(db.collections[0].doc_count, 5);
    assert_eq!(db.collections[0].indexes, strings(&["_id_"]));
    db.record_probe(0, 5, strings(&["_id_"]));
    assert_eq!(db, once);
}

/// A small deterministic generator, to draw completion orders.
fn next(state: &mut u64) -> u64 {
    *state = state.wrapping_mul(6364136223846793005).wrapping_add(1442695040888963407);
    *state >> 33
}

#[test]
fn completion_order_does_not_change_the_result() {
    let n_dbs: usize = 4;
    let n_colls: usize = 5;
    let names: Vec<String> = (0..n_colls).map(|c| format!("c{}", c)).collect();
    let start: Vec<DatabaseInfo> = (0..n_dbs)
        .map(|d| DatabaseInfo {
            database_name: format!("db{}", d),
            collections: collection_placeholders(&names),
        })
        .collect();
    let mut events: Vec<(usize, usize)> = Vec::new();
    for d in 0..n_dbs {
        for c in 0..n_colls {
            events.push((d, c));
        }
    }
    let mut expected: Option<Vec<DatabaseInfo>> = None;
    let mut seed: u64 = 42;
    for _ in 0..20 {
        let mut order = events.clone();
        for i in (1..order.len()).rev() {
            let j = (next(&mut seed) as usize) % (i + 1);
            order.swap(i, j);
        }
        let mut dbs = start.clone();
        for (d, c) in order {
            let count = (d * 10 + c) as u64;
            dbs[d].record_probe(c, count, vec![format!("idx_{}_{}", d, c)]);
        }
        match &expected {
            None => expected = Some(dbs),
            Some(e) => assert_eq!(&dbs, e),
        }
    }
    let result = expected.unwrap();
    assert_eq!(result[2].collections[3].doc_count, 23);
    assert_eq!(result[2].collections[3].indexes, strings(&["idx_2_3"]));
}

#[test]
fn expand_database_merges_every_probe() {
    let db = database_with("shop", &["users", "orders"]);
    let out = expand_database(db, vec![probe(5, &["_id_"]), probe(2, &["_id_", "email_1"])])
        .unwrap();
    assert_eq!(out.database_name, "shop");
    assert_eq!(out.collections[0].collection_name, "orders");
    assert_eq!(out.collections[0].doc_count, 5);
    assert_eq!(out.collections[0].indexes, strings(&["_id_"]));
    assert_eq!(out.collections[1].collection_name, "users");
    assert_eq!(out.collections[1].doc_count, 2);
    assert_eq!(out.collections[1].indexes, strings(&["_id_", "email_1"]));
}

#[test]
fn expand_empty_database() {
    let db = database_with("empty", &[]);
    let out = expand_database(db.clone(), Vec::new()).unwrap();
    assert_eq!(out, db);
}

#[test]
fn first_failure_finds_the_earliest() {
    assert_eq!(first_failure(&vec![probe(1, &[]), None, probe(2, &[]), None]), Some(1));
    assert_eq!(first_failure(&vec![probe(1, &[]), probe(2, &[])]), None);
    assert_eq!(first_failure(&Vec::new()), None);
}

#[test]
fn failed_third_probe_aborts_the_run() {
    let first = database_with("app", &["a", "b"]);
    let second = database_with("shop", &["c1", "c2", "c3", "c4"]);
    let first = expand_database(first, vec![probe(1, &["_id_"]), probe(2, &["_id_"])]);
    let second = expand_database(
        second,
        vec![probe(1, &["_id_"]), probe(2, &["_id_"]), None, probe(4, &["_id_"])],
    );
    let failure = ProbeFailure {
        database_name: "shop".to_string(),
        collection_name: "c3".to_string(),
    };
    assert!(first.is_ok());
    assert_eq!(second, Err(failure.clone()));
    let run = finish_run(vec![first, second], Some(vec!["alice".to_string()]));
    assert_eq!(run, Err(failure));
}

#[test]
fn finish_run_reports_the_first_failed_database() {
    let e1 = ProbeFailure { database_name: "b".to_string(), collection_name: "x".to_string() };
    let e2 = ProbeFailure { database_name: "c".to_string(), collection_name: "y".to_string() };
    let run = finish_run::<u8>(
        vec![Ok(database_with("a", &[])), Err(e1.clone()), Err(e2)],
        None,
    );
    assert_eq!(run, Err(e1));
}

#[test]
fn finish_run_keeps_order_and_principals() {
    let dbs = vec![database_with("a", &["x"]), database_with("b", &[]), database_with("c", &[])];
    let info = finish_run(dbs.iter().cloned().map(Ok).collect(), Some(3u8)).unwrap();
    assert_eq!(info.databases, dbs);
    assert_eq!(info.users, Some(3));
    let none = finish_run::<u8>(Vec::new(), None).unwrap();
    assert!(none.databases.is_empty());
    assert_eq!(none.users, None);
}

#[test]
fn shop_example_end_to_end() {
    let dbs = database_placeholders(&strings(&["admin", "shop", "local", "config"]));
    assert_eq!(db_names(&dbs), strings(&["shop"]));
    let mut results = Vec::new();
    for mut db in dbs {
        db.collections = collection_placeholders(&strings(&["users", "orders"]));
        let outcomes = vec![probe(5, &["_id_"]), probe(2, &["_id_", "email_1"])];
        results.push(expand_database(db, outcomes));
    }
    let users = vec!["alice".to_string()];
    let info = finish_run(results, Some(users.clone())).unwrap();
    let expected = vec![DatabaseInfo {
        database_name: "shop".to_string(),
        collections: vec![
            CollectionInfo {
                collection_name: "orders".to_string(),
                indexes: strings(&["_id_"]),
                doc_count: 5,
            },
            CollectionInfo {
                collection_name: "users".to_string(),
                indexes: strings(&["_id_", "email_1"]),
                doc_count: 2,
            },
        ],
    }];
    assert_eq!(info.databases, expected);
    assert_eq!(info.users, Some(users));
}
