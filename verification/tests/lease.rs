//! Claims, leases and sweeps.

use coord::json::{Json, JsonObject};
use coord::store::{clamp_lease, Store, StoreError};
use coord::time::{Timestamp, MAX_SECS};
use coord::types::{Task, TaskState};

fn empty() -> Json {
    Json::Object(JsonObject::new())
}

fn by_a() -> Json {
    let mut o = JsonObject::new();
    o.insert("by".to_string(), Json::Text("a".to_string()));
    Json::Object(o)
}

fn at(secs: i64) -> Timestamp {
    Timestamp::new(secs, 0).unwrap()
}

fn millis(secs: i64, ms: u32) -> Timestamp {
    Timestamp::new(secs, ms * 1_000_000).unwrap()
}

fn store() -> Store {
    Store::open(&Vec::new(), &Vec::new()).unwrap()
}

fn posted(store: &mut Store, now: Timestamp) -> Task {
    store
        .create_task_full_at(1, "work", "task", "normal", empty(), now)
        .unwrap()
}

#[test]
fn claim_writes_lease_metadata() {
    let mut store = store();
    let task = store.create_task("work", empty()).unwrap();
    store.heartbeat("agent-a", "a").unwrap();

    let claimed = store
        .claim_task(task.id, "agent-a", Some(60))
        .expect("claim ok")
        .expect("won claim");

    assert_eq!(claimed.state, TaskState::Claimed);
    assert_eq!(claimed.claimed_by.as_deref(), Some("agent-a"));
    assert!(claimed.claimed_at.is_some(), "claimed_at must be set");
    let lease = claimed.lease_until.expect("lease_until must be set");
    let now = chrono::Utc::now();
    let now = Timestamp::new(now.timestamp(), now.timestamp_subsec_nanos()).unwrap();
    assert!(
        now.is_before(&lease),
        "fresh lease must be in the future"
    );
}

#[test]
fn extend_succeeds_only_for_current_claimer() {
    let mut store = store();
    let task = posted(&mut store, at(1_000));
    let _ = store
        .claim_task_at(task.id, "agent-a", Some(30), at(1_000))
        .unwrap()
        .unwrap();

    let original_lease = store
        .get_task(task.id)
        .unwrap()
        .unwrap()
        .lease_until
        .unwrap();

    let extended = store
        .extend_lease_at(task.id, "agent-a", Some(120), millis(1_000, 10))
        .expect("extend ok")
        .expect("returned new lease");
    assert!(
        original_lease.is_before(&extended),
        "lease must move forward (was {original_lease:?}, now {extended:?})"
    );

    // A different agent cannot extend.
    let other = store
        .extend_lease_at(task.id, "intruder", Some(120), millis(1_000, 20))
        .expect("extend ok");
    assert!(
        other.is_none(),
        "intruder must not be able to extend someone else's claim"
    );
}

#[test]
fn expired_lease_reclaims_and_lets_a_new_agent_win() {
    let mut store = store();
    let task = posted(&mut store, at(1_000));

    let claimed = store
        .claim_task_at(task.id, "agent-a", Some(1), at(1_000))
        .unwrap()
        .unwrap();
    assert_eq!(claimed.state, TaskState::Claimed);

    // Reclaim before expiry must be a no-op.
    let early = store
        .reclaim_expired_leases_at(at(1_000))
        .expect("sweep ok");
    assert!(
        early.is_empty(),
        "lease not yet expired — sweep must not touch it (returned {} rows)",
        early.len()
    );

    let swept = store
        .reclaim_expired_leases_at(millis(1_001, 200))
        .expect("sweep ok");
    assert_eq!(swept.len(), 1, "expected one reclaim");
    let after = &swept[0];
    assert_eq!(after.state, TaskState::Pending);
    assert!(after.claimed_by.is_none(), "claimed_by must be cleared");
    assert!(after.lease_until.is_none(), "lease_until must be cleared");

    // A different agent now claims the same task.
    let new_claim = store
        .claim_task_at(task.id, "agent-b", Some(60), millis(1_001, 300))
        .unwrap()
        .expect("agent-b should be able to claim after the lease expired");
    assert_eq!(new_claim.claimed_by.as_deref(), Some("agent-b"));

    // A completion does not say who completes: agent-a's late one ends the
    // claim of agent-b, and the task keeps the name of agent-b.
    let stale = store.complete_task(task.id, by_a()).unwrap_or(false);
    let final_state = store.get_task(task.id).unwrap().unwrap();
    if stale {
        assert_eq!(final_state.state, TaskState::Completed);
        assert_eq!(final_state.claimed_by.as_deref(), Some("agent-b"));
    } else {
        assert_eq!(final_state.state, TaskState::Claimed);
        assert_eq!(final_state.claimed_by.as_deref(), Some("agent-b"));
    }
}

#[test]
fn completed_task_does_not_get_reclaimed() {
    let mut store = store();
    let task = posted(&mut store, at(1_000));
    store
        .claim_task_at(task.id, "agent-a", Some(1), at(1_000))
        .unwrap()
        .unwrap();
    store.complete_task_at(task.id, by_a(), at(1_000)).unwrap();

    let swept = store
        .reclaim_expired_leases_at(millis(1_001, 200))
        .expect("sweep ok");
    assert!(
        swept.is_empty(),
        "completed task must not be reclaimed (lease was cleared on complete)"
    );

    let final_state = store.get_task(task.id).unwrap().unwrap();
    assert_eq!(final_state.state, TaskState::Completed);
}

#[test]
fn lease_lengths_are_clamped() {
    assert_eq!(clamp_lease(0), 1);
    assert_eq!(clamp_lease(1), 1);
    assert_eq!(clamp_lease(300), 300);
    assert_eq!(clamp_lease(3_600), 3_600);
    assert_eq!(clamp_lease(3_601), 3_600);
    assert_eq!(clamp_lease(u64::MAX), 3_600);
}

#[test]
fn lease_ends_are_exact() {
    for (asked, secs) in [(None, 300), (Some(0), 1), (Some(45), 45), (Some(9_999), 3_600)] {
        let mut store = store();
        let task = posted(&mut store, at(500));
        let now = Timestamp::new(1_000, 7).unwrap();
        let t = store
            .claim_task_at(task.id, "a", asked, now)
            .unwrap()
            .unwrap();
        assert_eq!(t.claimed_at, Some(now));
        assert_eq!(t.updated_at, now);
        assert_eq!(t.lease_until, Timestamp::new(1_000 + secs, 7));
    }
}

#[test]
fn default_lease_can_be_set() {
    let mut store = store();
    store.set_default_lease(40);
    let task = posted(&mut store, at(0));
    let t = store.claim_task_at(task.id, "a", None, at(0)).unwrap().unwrap();
    assert_eq!(t.lease_until, Some(at(40)));
    assert_eq!(
        store.extend_lease_at(task.id, "a", Some(47), at(1)).unwrap(),
        Some(at(48))
    );
    store.set_default_lease(1_000_000);
    assert_eq!(
        store.extend_lease_at(task.id, "a", None, at(1)).unwrap(),
        Some(at(3_601))
    );
}

#[test]
fn an_extension_never_shortens_a_lease() {
    let mut store = store();
    let task = posted(&mut store, at(0));
    store
        .claim_task_at(task.id, "a", Some(3_600), at(0))
        .unwrap()
        .unwrap();
    assert_eq!(
        store.extend_lease_at(task.id, "a", Some(1), at(10)).unwrap(),
        Some(at(3_600))
    );
    let t = store.get_task(task.id).unwrap().unwrap();
    assert_eq!(t.lease_until, Some(at(3_600)));
    assert_eq!(t.updated_at, at(10));
    assert!(store.reclaim_expired_leases_at(at(12)).unwrap().is_empty());
    assert_eq!(
        store.extend_lease_at(task.id, "a", Some(3_600), at(11)).unwrap(),
        Some(at(3_611))
    );
    assert_eq!(store.extend_lease_at(task.id, "b", None, at(12)).unwrap(), None);
}

#[test]
fn sweep_leaves_a_lease_that_ends_now() {
    let mut store = store();
    let task = posted(&mut store, at(0));
    store
        .claim_task_at(task.id, "a", Some(10), at(0))
        .unwrap()
        .unwrap();
    assert!(store.reclaim_expired_leases_at(at(10)).unwrap().is_empty());
    let swept = store
        .reclaim_expired_leases_at(Timestamp::new(10, 1).unwrap())
        .unwrap();
    assert_eq!(swept.len(), 1);
    assert!(swept[0].claimed_at.is_none());
    assert_eq!(swept[0].updated_at, Timestamp::new(10, 1).unwrap());
}

#[test]
fn lease_past_the_last_instant_is_refused() {
    let mut store = store();
    let task = posted(&mut store, at(0));
    let end = at(MAX_SECS);
    assert_eq!(
        store.claim_task_at(task.id, "a", None, end),
        Err(StoreError::LeaseEnd)
    );
    assert_eq!(
        store.get_task(task.id).unwrap().unwrap().state,
        TaskState::Pending
    );
    assert_eq!(
        store.extend_lease_at(task.id, "a", None, end),
        Err(StoreError::LeaseEnd)
    );
}

#[test]
fn extension_needs_a_claim() {
    let mut store = store();
    let task = posted(&mut store, at(0));
    assert_eq!(
        store.extend_lease_at(task.id, "a", None, at(1)).unwrap(),
        None
    );
    assert_eq!(store.extend_lease_at(99, "a", None, at(1)).unwrap(), None);
}
