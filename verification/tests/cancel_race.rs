//! A task that was called off stays so, whatever its worker does afterwards.

use coord::json::{Json, JsonObject};
use coord::store::Store;
use coord::types::TaskState;

fn object(key: &str, value: Json) -> Json {
    let mut o = JsonObject::new();
    o.insert(key.to_string(), value);
    Json::Object(o)
}

#[test]
fn cancel_is_sticky_against_late_complete() {
    let mut store = Store::open(&Vec::new(), &Vec::new()).unwrap();

    let task = store
        .create_task("auth-fix", Json::Object(JsonObject::new()))
        .unwrap();
    store.heartbeat("worker-1", "worker").unwrap();
    let claimed = store.claim_task(task.id, "worker-1", None).unwrap();
    assert!(claimed.is_some(), "first claim should win");

    // The operator calls the task off while the worker is still at it.
    store.cancel_task(task.id).unwrap();

    // The worker finishes and tries to mark it complete.
    let completed = store
        .complete_task(task.id, object("result", Json::UInt(42)))
        .unwrap();
    assert!(
        !completed,
        "complete after cancel must report failure, not silently win"
    );

    let final_state = store.get_task(task.id).unwrap().unwrap();
    assert_eq!(
        final_state.state,
        TaskState::Cancelled,
        "cancel must be sticky"
    );
    assert!(
        final_state.result.is_none(),
        "cancelled task must not record a worker result"
    );
}

#[test]
fn cancelled_task_cannot_be_claimed_extended_or_swept() {
    let mut store = Store::open(&Vec::new(), &Vec::new()).unwrap();
    let task = store.create_task("x", Json::Null).unwrap();
    store.claim_task(task.id, "a", Some(1)).unwrap().unwrap();
    store.cancel_task(task.id).unwrap();
    let before = store.get_task(task.id).unwrap().unwrap();
    assert_eq!(before.claimed_by.as_deref(), Some("a"));
    assert!(before.lease_until.is_none());

    assert!(store.claim_task(task.id, "b", None).unwrap().is_none());
    assert!(store.extend_lease(task.id, "a", None).unwrap().is_none());
    let far = coord::time::Timestamp::new(before.updated_at.seconds() + 7_200, 0).unwrap();
    assert!(store.reclaim_expired_leases_at(far).unwrap().is_empty());
    assert_eq!(store.get_task(task.id).unwrap().unwrap(), before);
}

#[test]
fn cancelling_what_is_not_there_changes_nothing() {
    let mut store = Store::open(&Vec::new(), &Vec::new()).unwrap();
    store.cancel_task(7).unwrap();
    assert_eq!(store.task_count(), 0);
}
