//! Listings: the limit counts tasks that pass the filter.

use coord::json::{Json, JsonObject};
use coord::store::{Store, TaskFilter};
use coord::time::Timestamp;
use coord::types::id_text;

fn object(key: &str, value: Json) -> Json {
    let mut o = JsonObject::new();
    o.insert(key.to_string(), value);
    Json::Object(o)
}

fn at(secs: i64) -> Timestamp {
    Timestamp::new(secs, 0).unwrap()
}

#[test]
fn filter_pushdown_finds_match_beyond_naive_limit() {
    let mut store = Store::open(&Vec::new(), &Vec::new()).unwrap();

    for i in 0..60 {
        let _ = store
            .create_task(&format!("noise-{i}"), object("i", Json::UInt(i)))
            .unwrap();
    }

    let ack = store
        .create_task_full(
            "the-one-ack",
            "ack",
            "high",
            object("summary", Json::Text("v1.1 stable".to_string())),
        )
        .unwrap();

    let pending = TaskFilter {
        state: Some("completed".into()),
        kind: Some("ack".into()),
        priority: None,
    };
    let found = store.list_tasks_filtered(50, &pending).unwrap();
    let ids: Vec<String> = found.iter().map(|t| id_text(t.id)).collect();
    assert!(
        ids.contains(&id_text(ack.id)),
        "the filter must surface the matching ack even though 60 other rows exist; got: {ids:?}"
    );

    // Filters compose: only the matching ack comes back.
    assert_eq!(
        found.len(),
        1,
        "exactly one row matches state=completed AND kind=ack; got {}",
        found.len()
    );
}

#[test]
fn match_older_than_everything_else_is_found() {
    let mut store = Store::open(&Vec::new(), &Vec::new()).unwrap();
    store
        .create_task_full_at(1, "old bug", "bug", "low", Json::Null, at(0))
        .unwrap();
    for i in 0..60 {
        store
            .create_task_full_at(10 + i, "noise", "task", "normal", Json::Null, at(1 + i as i64))
            .unwrap();
    }
    let bugs = TaskFilter {
        kind: Some("bug".into()),
        ..TaskFilter::default()
    };
    let found = store.list_tasks_filtered(50, &bugs).unwrap();
    assert_eq!(found.len(), 1);
    assert_eq!(found[0].name, "old bug");
}

#[test]
fn newest_come_first_and_the_limit_holds() {
    let mut store = Store::open(&Vec::new(), &Vec::new()).unwrap();
    for (id, secs) in [(1, 5), (2, 9), (3, 1), (4, 9), (5, 7)] {
        store
            .create_task_full_at(id, "t", "task", "normal", Json::Null, at(secs))
            .unwrap();
    }
    let ids: Vec<u128> = store.list_tasks(50).unwrap().iter().map(|t| t.id).collect();
    assert_eq!(ids, vec![2, 4, 5, 1, 3]);
    let ids: Vec<u128> = store.list_tasks(3).unwrap().iter().map(|t| t.id).collect();
    assert_eq!(ids, vec![2, 4, 5]);
    assert!(store.list_tasks(0).unwrap().is_empty());
}

#[test]
fn each_filter_field_narrows() {
    let mut store = Store::open(&Vec::new(), &Vec::new()).unwrap();
    store
        .create_task_full_at(1, "a", "bug", "high", Json::Null, at(1))
        .unwrap();
    store
        .create_task_full_at(2, "b", "bug", "low", Json::Null, at(2))
        .unwrap();
    store
        .create_task_full_at(3, "c", "ack", "high", Json::Null, at(3))
        .unwrap();
    let ids = |f: TaskFilter| -> Vec<u128> {
        store
            .list_tasks_filtered(9, &f)
            .unwrap()
            .iter()
            .map(|t| t.id)
            .collect()
    };
    let high = TaskFilter {
        priority: Some("high".into()),
        ..TaskFilter::default()
    };
    assert_eq!(ids(high.clone()), vec![3, 1]);
    let pending = TaskFilter {
        state: Some("pending".into()),
        ..high
    };
    assert_eq!(ids(pending), vec![1]);
    let unknown = TaskFilter {
        state: Some("no-such-state".into()),
        ..TaskFilter::default()
    };
    assert!(ids(unknown).is_empty());
}
