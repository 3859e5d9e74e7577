//! Two agents that know nothing of each other coordinate through the
//! bulletin: one completes work with an acknowledgement, the other finds both.

use coord::a2a::{
    dispatch, tasks_list, ClaimParams, CompleteParams, HeartbeatParams, IdParams, ListParams,
    ListStep, Request, TaskSendParams,
};
use coord::json::{parse, Json};
use coord::store::Store;
use coord::types::parse_id;

fn text(s: &str) -> Option<String> {
    Some(s.to_string())
}

fn ok(store: &mut Store, request: Request) -> Json {
    dispatch(store, request).outcome.expect("request is served")
}

fn list(store: &mut Store, params: &str) -> Vec<Json> {
    let q = ListParams::read(&parse(params).unwrap());
    match tasks_list(store, &q).step {
        ListStep::Answer(Json::Array(items)) => items,
        other => panic!("list returned {other:?}"),
    }
}

fn heartbeat(store: &mut Store, id: &str, name: &str) {
    ok(
        store,
        Request::Heartbeat(HeartbeatParams {
            id: id.to_string(),
            name: name.to_string(),
        }),
    );
}

#[test]
fn two_tabs_can_coordinate_through_complete_with_ack() {
    let mut store = Store::open(&Vec::new(), &Vec::new()).unwrap();

    // The first agent posts work, claims it, does it, and completes it with
    // an acknowledgement.
    heartbeat(&mut store, "tab-alpha", "tab alpha");
    let source = ok(
        &mut store,
        Request::Send(TaskSendParams {
            name: "fix discount math regression".to_string(),
            kind: text("feature"),
            priority: text("high"),
            payload: parse(r#"{"file": "src/lib.rs"}"#),
        }),
    );
    let source_id = source.get_str("id").expect("source task id").to_string();
    let id = parse_id(&source_id).unwrap();

    let claim = ok(
        &mut store,
        Request::Claim(ClaimParams {
            id,
            agent_id: "tab-alpha".to_string(),
            lease_seconds: Some(60),
        }),
    );
    assert_eq!(claim.get_str("state"), Some("claimed"));

    let complete = ok(
        &mut store,
        Request::Complete(CompleteParams {
            id,
            result: parse(r#"{"sha": "e56f5fa", "files": ["src/lib.rs"]}"#),
            post_ack: true,
            ack_name: text("v1.1 prod stable: discount math regression fixed"),
            ack_priority: text("high"),
            ack_payload: parse(r#"{"sha": "e56f5fa", "branch": "fix/v1.1-discount-sign"}"#),
        }),
    );
    assert_eq!(
        complete.get("ok"),
        Some(&Json::Bool(true)),
        "complete must succeed"
    );
    let ack = complete
        .get("ack")
        .expect("ack object returned alongside complete");
    assert_eq!(ack.get_str("kind"), Some("ack"));
    assert_eq!(ack.get_str("state"), Some("completed"));
    assert_eq!(
        ack.get_str("name"),
        Some("v1.1 prod stable: discount math regression fixed"),
        "ack name must round-trip"
    );
    assert_eq!(
        ack.get("payload").unwrap().get_str("fixed_bug_id"),
        Some(source_id.as_str()),
        "fixed_bug_id must point at the source task"
    );
    let ack_id = ack.get_str("id").expect("ack has id").to_string();
    assert_ne!(ack_id, source_id, "ack must be a distinct row");

    // The second agent audits the work without knowing any identifier.
    heartbeat(&mut store, "tab-beta", "tab beta");

    let acks = list(&mut store, r#"{"kind": "ack", "limit": 50}"#);
    let found_ack = acks
        .iter()
        .find(|t| t.get_str("name").is_some_and(|s| s.contains("v1.1 prod stable")))
        .expect("the ack is found by kind alone");
    assert_eq!(found_ack.get_str("state"), Some("completed"));
    assert_eq!(found_ack.get_str("id"), Some(ack_id.as_str()));

    let linked_source_id = found_ack
        .get("payload")
        .unwrap()
        .get_str("fixed_bug_id")
        .expect("fixed_bug_id in ack payload");
    let source_t = ok(
        &mut store,
        Request::Get(IdParams {
            id: parse_id(linked_source_id).unwrap(),
        }),
    );
    assert_eq!(source_t.get_str("state"), Some("completed"));
    assert_eq!(source_t.get_str("kind"), Some("feature"));
    assert_eq!(source_t.get_str("name"), Some("fix discount math regression"));
    assert_eq!(source_t.get("result").unwrap().get_str("sha"), Some("e56f5fa"));

    let completed_features = list(
        &mut store,
        r#"{"state": "completed", "kind": "feature", "limit": 50}"#,
    );
    assert!(
        completed_features
            .iter()
            .any(|t| t.get_str("id") == Some(source_id.as_str())),
        "the completed feature is found by state and kind"
    );

    let pending = list(&mut store, r#"{"state": "pending", "limit": 50}"#);
    assert!(
        pending.is_empty(),
        "pending bulletin is empty when all work is done"
    );
}

#[test]
fn standalone_ack_is_allowed_but_unwalkable() {
    let mut store = Store::open(&Vec::new(), &Vec::new()).unwrap();
    heartbeat(&mut store, "skipper", "skipper");

    let bare = ok(
        &mut store,
        Request::Send(TaskSendParams {
            name: "greet v1 ready for review".to_string(),
            kind: text("ack"),
            priority: text("high"),
            payload: parse(r#"{"sha": "deadbeef", "files": ["greet.py"]}"#),
        }),
    );
    assert_eq!(bare.get_str("kind"), Some("ack"));
    assert_eq!(
        bare.get_str("state"),
        Some("completed"),
        "ack kind is completed-on-creation"
    );

    let payload = bare.get("payload").expect("payload object");
    assert!(matches!(payload, Json::Object(_)));
    assert!(
        payload.get("fixed_bug_id").is_none(),
        "a standalone ack has no fixed_bug_id"
    );

    let everything = list(&mut store, r#"{"limit": 50}"#);
    assert_eq!(everything.len(), 1, "the bare ack is the only row");
    assert_eq!(everything[0].get_str("kind"), Some("ack"));
}
