//! The JSON-RPC surface: routing, answers, refusals and announcements.

use coord::a2a::{
    agent_card, dispatch_at, route, rpc_response, ClaimParams, CompleteParams, ExtendParams,
    HeartbeatParams, IdParams, Method, MethodError, Reply, Request, TaskSendParams,
};
use coord::cli::client::{read_response, request_body, RpcErr};
use coord::json::{parse, to_text, Json};
use coord::store::Store;
use coord::time::{Timestamp, MAX_SECS};

fn at(secs: i64) -> Timestamp {
    Timestamp::new(secs, 0).unwrap()
}

fn store_with(id: u128) -> Store {
    let mut store = Store::open(&Vec::new(), &Vec::new()).unwrap();
    store
        .create_task_full_at(id, "work", "task", "normal", Json::Null, at(0))
        .unwrap();
    store
}

fn refusal(r: Reply) -> (i32, String) {
    assert!(!r.notify);
    let e = r.outcome.unwrap_err();
    (e.code, e.message)
}

fn claim(agent: &str) -> Request {
    Request::Claim(ClaimParams {
        id: 1,
        agent_id: agent.to_string(),
        lease_seconds: Some(10),
    })
}

fn complete(post_ack: bool, ack_payload: Option<Json>) -> Request {
    Request::Complete(CompleteParams {
        id: 1,
        result: None,
        post_ack,
        ack_name: None,
        ack_priority: None,
        ack_payload,
    })
}

#[test]
fn methods_are_routed_by_name() {
    for (name, m) in [
        ("tasks/send", Method::TasksSend),
        ("tasks/get", Method::TasksGet),
        ("tasks/list", Method::TasksList),
        ("tasks/cancel", Method::TasksCancel),
        ("tasks/claim", Method::TasksClaim),
        ("tasks/extend", Method::TasksExtend),
        ("tasks/reclaim", Method::TasksReclaim),
        ("tasks/complete", Method::TasksComplete),
        ("agents/heartbeat", Method::AgentsHeartbeat),
        ("agents/list", Method::AgentsList),
    ] {
        assert_eq!(route(name), Ok(m));
    }
    let e = route("tasks/fly").unwrap_err();
    assert_eq!(e.code, -32601);
    assert_eq!(e.message, "method not found: tasks/fly");
}

#[test]
fn errors_have_codes_and_messages() {
    let e = MethodError::bad_params("missing field `id`");
    assert_eq!((e.code, e.message.as_str()), (-32602, "invalid params: missing field `id`"));
    let e = MethodError::internal("disk full");
    assert_eq!((e.code, e.message.as_str()), (-32000, "internal error: disk full"));
    let e = MethodError::conflict("too late");
    assert_eq!((e.code, e.message.as_str()), (-32001, "too late"));
}

#[test]
fn claims_are_won_once() {
    let mut store = store_with(1);
    let r = dispatch_at(&mut store, claim("a"), 0, at(1));
    assert!(r.notify);
    assert_eq!(r.outcome.unwrap().get_str("claimed_by"), Some("a"));
    assert_eq!(
        refusal(dispatch_at(&mut store, claim("b"), 0, at(1))),
        (
            -32001,
            "task is not claimable (already claimed or missing)".to_string()
        )
    );
    assert_eq!(
        refusal(dispatch_at(&mut store, claim("b"), 0, at(MAX_SECS))),
        (-32000, "internal error: lease ends out of range".to_string())
    );
}

#[test]
fn extensions_are_quiet() {
    let mut store = store_with(1);
    dispatch_at(&mut store, claim("a"), 0, at(1));
    let extend = |agent: &str| {
        Request::Extend(ExtendParams {
            id: 1,
            agent_id: agent.to_string(),
            lease_seconds: Some(20),
        })
    };
    let r = dispatch_at(&mut store, extend("a"), 0, at(2));
    assert!(!r.notify);
    assert_eq!(
        to_text(&r.outcome.unwrap()),
        r#"{"lease_until":"1970-01-01T00:00:22+00:00","ok":true}"#
    );
    assert_eq!(
        refusal(dispatch_at(&mut store, extend("b"), 0, at(2))),
        (
            -32001,
            "lease cannot be extended (not claimed by this agent, or already completed / cancelled / reclaimed)"
                .to_string()
        )
    );
}

#[test]
fn sweeps_are_announced_only_when_they_do_something() {
    let mut store = store_with(1);
    let r = dispatch_at(&mut store, Request::Reclaim, 0, at(1));
    assert!(!r.notify);
    assert_eq!(r.outcome.unwrap(), Json::Array(Vec::new()));
    dispatch_at(&mut store, claim("a"), 0, at(1));
    let r = dispatch_at(&mut store, Request::Reclaim, 0, at(12));
    assert!(r.notify);
    assert_eq!(r.outcome.unwrap().as_array().unwrap().len(), 1);
}

#[test]
fn completions_are_answered() {
    let mut store = store_with(1);
    let late = (
        -32001,
        "task is not in 'claimed' state — was it cancelled, already completed, or reclaimed after its lease expired?"
            .to_string(),
    );
    assert_eq!(
        refusal(dispatch_at(&mut store, complete(false, None), 2, at(1))),
        late
    );
    assert_eq!(
        refusal(dispatch_at(&mut store, complete(true, None), 2, at(1))),
        late
    );
    dispatch_at(&mut store, claim("a"), 0, at(1));
    assert_eq!(
        refusal(dispatch_at(
            &mut store,
            complete(true, Some(Json::UInt(1))),
            2,
            at(1)
        )),
        (
            -32602,
            "invalid params: ackPayload must be an object".to_string()
        )
    );
    assert_eq!(
        refusal(dispatch_at(&mut store, complete(true, None), 1, at(1))),
        (
            -32000,
            "internal error: UNIQUE constraint failed: tasks.id".to_string()
        )
    );
    let r = dispatch_at(&mut store, complete(true, Some(Json::Null)), 2, at(1));
    assert!(r.notify);
    let j = r.outcome.unwrap();
    assert_eq!(j.get("ok"), Some(&Json::Bool(true)));
    assert_eq!(j.get("ack").unwrap().get_str("name"), Some("ack: work"));

    let mut store = store_with(1);
    dispatch_at(&mut store, claim("a"), 0, at(1));
    let r = dispatch_at(&mut store, complete(false, None), 2, at(1));
    assert!(r.notify);
    assert_eq!(to_text(&r.outcome.unwrap()), r#"{"ok":true}"#);
    assert_eq!(store.task_count(), 1);
}

#[test]
fn other_requests_are_answered() {
    let mut store = store_with(1);
    let r = dispatch_at(&mut store, Request::Get(IdParams { id: 9 }), 0, at(1));
    assert!(!r.notify);
    assert_eq!(r.outcome.unwrap(), Json::Null);
    let r = dispatch_at(&mut store, Request::Cancel(IdParams { id: 1 }), 0, at(1));
    assert!(r.notify);
    assert_eq!(to_text(&r.outcome.unwrap()), r#"{"ok":true}"#);
    let r = dispatch_at(
        &mut store,
        Request::Heartbeat(HeartbeatParams {
            id: "a".to_string(),
            name: "n".to_string(),
        }),
        0,
        at(1),
    );
    assert!(!r.notify, "reports wake nobody");
    let r = dispatch_at(&mut store, Request::Agents, 0, at(1));
    assert_eq!(
        to_text(&r.outcome.unwrap()),
        "[{\"current_task\":null,\"first_seen\":\"1970-01-01T00:00:01Z\",\"id\":\"a\",\
         \"last_seen\":\"1970-01-01T00:00:01Z\",\"name\":\"n\"}]"
    );
    let send = || {
        Request::Send(TaskSendParams {
            name: "x".to_string(),
            kind: None,
            priority: None,
            payload: None,
        })
    };
    let r = dispatch_at(&mut store, send(), 2, at(1));
    assert!(r.notify);
    let t = r.outcome.unwrap();
    assert_eq!(t.get_str("kind"), Some("task"));
    assert_eq!(t.get_str("priority"), Some("normal"));
    assert_eq!(t.get("payload"), Some(&Json::Null));
    assert_eq!(
        refusal(dispatch_at(&mut store, send(), 2, at(1))).0,
        -32000
    );
}

#[test]
fn envelopes_are_exact() {
    assert_eq!(
        to_text(&rpc_response(Some(Json::UInt(7)), Ok(Json::Bool(true)))),
        r#"{"id":7,"jsonrpc":"2.0","result":true}"#
    );
    assert_eq!(
        to_text(&rpc_response(None, Err(MethodError::not_found("m")))),
        r#"{"error":{"code":-32601,"message":"method not found: m"},"id":null,"jsonrpc":"2.0"}"#
    );
    assert_eq!(
        to_text(&request_body("tasks/get", Json::Null)),
        r#"{"id":1,"jsonrpc":"2.0","method":"tasks/get","params":null}"#
    );
}

#[test]
fn responses_are_read() {
    assert_eq!(read_response(Some(Json::UInt(1)), None), Ok(Json::UInt(1)));
    assert_eq!(read_response(None, None), Err("empty response".to_string()));
    let e = RpcErr {
        code: -32001,
        message: "late".to_string(),
    };
    assert_eq!(
        read_response(Some(Json::Null), Some(e)),
        Err("coord error -32001: late".to_string())
    );
}

#[test]
fn agent_card_names_the_skills() {
    let card = agent_card();
    assert_eq!(card.get_str("name"), Some("coord"));
    assert_eq!(card.get_str("version"), Some("0.4.1"));
    assert_eq!(card.get_str("url"), Some("/"));
    assert_eq!(
        card.get("capabilities"),
        parse(
            r#"{"leasedClaims": true, "longPoll": true, "pushNotifications": false, "streaming": false}"#
        )
        .as_ref()
    );
    let skills = card.get("skills").unwrap().as_array().unwrap();
    let ids: Vec<&str> = skills.iter().filter_map(|s| s.get_str("id")).collect();
    assert_eq!(
        ids,
        vec![
            "tasks/send",
            "tasks/get",
            "tasks/cancel",
            "tasks/list",
            "tasks/claim",
            "tasks/extend",
            "tasks/reclaim",
            "tasks/complete"
        ]
    );
    assert_eq!(skills[5].get_str("name"), Some("Extend a claim's lease (extension)"));
    assert_eq!(
        card.get("compatibility").unwrap().get("a2a").unwrap().get_str("version"),
        Some("subset")
    );
}
