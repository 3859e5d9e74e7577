//! A listing that waits is answered as soon as a matching task is posted.

use coord::a2a::{
    dispatch_at, tasks_list_at, tasks_relist, tasks_relist_at, time_left, ListParams, ListStep,
    Request, TaskSendParams, WaitEvent,
};
use coord::json::{parse, Json};
use coord::store::Store;
use coord::time::Timestamp;

const WAIT_MS: u64 = 10_000;

fn at(secs: i64) -> Timestamp {
    Timestamp::new(secs, 0).unwrap()
}

fn send(name: &str, kind: &str, priority: &str) -> Request {
    Request::Send(TaskSendParams {
        name: name.to_string(),
        kind: Some(kind.to_string()),
        priority: Some(priority.to_string()),
        payload: None,
    })
}

fn query(extra: &str) -> ListParams {
    let body = format!(r#"{{"limit":10,"state":"pending","kind":"bug"{extra}}}"#);
    ListParams::read(&parse(&body).unwrap())
}

#[test]
fn list_long_poll_unblocks_quickly_after_matching_send() {
    let mut store = Store::open(&Vec::new(), &Vec::new()).unwrap();
    let q = query(&format!(r#","wait_ms":{WAIT_MS}"#));

    // Nothing matches yet: the listing waits for its full time.
    let first = tasks_list_at(&mut store, &q, at(100));
    assert!(matches!(first.step, ListStep::Wait(WAIT_MS)));
    assert!(!first.notify);

    // A matching task is posted: whoever waits is woken, and the first look
    // finds the task.
    let sent = dispatch_at(&mut store, send("urgent-bug", "bug", "high"), 1, at(100));
    assert!(sent.outcome.is_ok());
    assert!(sent.notify, "a posting wakes those who wait");

    let again = tasks_relist_at(&mut store, &q, WaitEvent::Changed, at(100));
    let arr = match again.step {
        ListStep::Answer(Json::Array(items)) => items,
        other => panic!("long-poll goes on waiting: {other:?}"),
    };
    assert!(
        !arr.is_empty(),
        "long-poll returned empty but a matching task was sent"
    );
    let names: Vec<&str> = arr.iter().filter_map(|t| t.get_str("name")).collect();
    assert!(
        names.contains(&"urgent-bug"),
        "long-poll returned the wrong task: {names:?}"
    );
}

#[test]
fn another_task_does_not_end_the_wait() {
    let mut store = Store::open(&Vec::new(), &Vec::new()).unwrap();
    let q = query(r#","wait_ms":500"#);
    assert!(matches!(
        tasks_list_at(&mut store, &q, at(1)).step,
        ListStep::Wait(500)
    ));
    dispatch_at(&mut store, send("feature", "feature", "high"), 1, at(1));
    assert!(matches!(
        tasks_relist_at(&mut store, &q, WaitEvent::Changed, at(2)).step,
        ListStep::Wait(500)
    ));
}

#[test]
fn listing_answers_at_once_without_a_wait() {
    let mut store = Store::open(&Vec::new(), &Vec::new()).unwrap();
    match tasks_list_at(&mut store, &query(""), at(1)).step {
        ListStep::Answer(j) => assert_eq!(j, Json::Array(Vec::new())),
        other => panic!("{other:?}"),
    }
}

#[test]
fn waits_are_capped_at_a_minute() {
    let mut store = Store::open(&Vec::new(), &Vec::new()).unwrap();
    let q = query(r#","wait_ms":3600000"#);
    assert!(matches!(
        tasks_list_at(&mut store, &q, at(1)).step,
        ListStep::Wait(60_000)
    ));
}

#[test]
fn listing_takes_expired_claims_back_and_announces_it() {
    let mut store = Store::open(&Vec::new(), &Vec::new()).unwrap();
    dispatch_at(&mut store, send("b", "bug", "low"), 1, at(0));
    store
        .claim_task_at(1, "gone", Some(5), at(0))
        .unwrap()
        .unwrap();
    let q = query(r#","wait_ms":500"#);
    assert!(matches!(
        tasks_list_at(&mut store, &q, at(5)).step,
        ListStep::Wait(500)
    ));
    let reply = tasks_list_at(&mut store, &q, at(6));
    assert!(reply.notify);
    match reply.step {
        ListStep::Answer(Json::Array(items)) => {
            assert_eq!(items.len(), 1);
            assert_eq!(items[0].get_str("state"), Some("pending"));
            assert_eq!(items[0].get("claimed_by"), Some(&Json::Null));
            assert!(items[0].get("lease_until").is_none());
        }
        other => panic!("{other:?}"),
    }
}

#[test]
fn time_up_looks_once_more() {
    let mut store = Store::open(&Vec::new(), &Vec::new()).unwrap();
    dispatch_at(&mut store, send("b", "bug", "low"), 1, at(0));
    store
        .claim_task_at(1, "gone", Some(5), at(0))
        .unwrap()
        .unwrap();
    let q = query(r#","wait_ms":3000"#);
    assert!(matches!(
        tasks_list_at(&mut store, &q, at(4)).step,
        ListStep::Wait(3_000)
    ));
    // The lease ends while the listing waits, and nothing else happens.
    let last = tasks_relist_at(&mut store, &q, WaitEvent::TimeUp, at(7));
    assert!(last.notify);
    match last.step {
        ListStep::Answer(Json::Array(items)) => {
            assert_eq!(items.len(), 1);
            assert_eq!(items[0].get_str("name"), Some("b"));
            assert_eq!(items[0].get_str("state"), Some("pending"));
        }
        other => panic!("{other:?}"),
    }
}

#[test]
fn time_up_is_answered_with_nothing_where_there_is_nothing() {
    let mut store = Store::open(&Vec::new(), &Vec::new()).unwrap();
    let q = query(r#","wait_ms":500"#);
    let last = tasks_relist(&mut store, &q, WaitEvent::TimeUp);
    assert!(!last.notify);
    match last.step {
        ListStep::Answer(j) => assert_eq!(j, Json::Array(Vec::new())),
        other => panic!("{other:?}"),
    }
}

#[test]
fn the_end_of_changes_is_answered_with_nothing() {
    let mut store = Store::open(&Vec::new(), &Vec::new()).unwrap();
    dispatch_at(&mut store, send("b", "bug", "low"), 1, at(0));
    let q = query(r#","wait_ms":500"#);
    let last = tasks_relist_at(&mut store, &q, WaitEvent::Closed, at(1));
    assert!(!last.notify);
    match last.step {
        ListStep::Answer(j) => assert_eq!(j, Json::Array(Vec::new())),
        other => panic!("{other:?}"),
    }
}

#[test]
fn parameters_have_defaults() {
    let q = ListParams::read(&Json::Null);
    assert_eq!(q.limit, 50);
    assert_eq!(q.wait_ms, 0);
    assert!(q.filter.state.is_none() && q.filter.kind.is_none() && q.filter.priority.is_none());
    let q = ListParams::read(
        &parse(r#"{"limit": -3, "kind": 7, "priority": "high", "wait_ms": "soon"}"#).unwrap(),
    );
    assert_eq!(q.limit, 50);
    assert_eq!(q.wait_ms, 0);
    assert!(q.filter.kind.is_none());
    assert_eq!(q.filter.priority.as_deref(), Some("high"));
}

#[test]
fn time_left_runs_out() {
    assert_eq!(time_left(1_000, 0), 1_000);
    assert_eq!(time_left(1_000, 400), 600);
    assert_eq!(time_left(1_000, 1_000), 0);
    assert_eq!(time_left(1_000, 5_000), 0);
}
