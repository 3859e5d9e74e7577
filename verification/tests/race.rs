//! Many claimers, one winner for each task.

use coord::a2a::{dispatch, ClaimParams, HeartbeatParams, Request, TaskSendParams};
use coord::json::{Json, JsonObject};
use coord::store::Store;
use coord::types::{parse_id, TaskState};

#[test]
fn one_claimer_per_task_under_concurrent_load() {
    let mut store = Store::open(&Vec::new(), &Vec::new()).expect("open store");

    const TASKS: usize = 200;
    const CLAIMERS_PER_TASK: usize = 8;

    let mut task_ids = Vec::with_capacity(TASKS);
    for i in 0..TASKS {
        let mut payload = JsonObject::new();
        payload.insert("i".to_string(), Json::UInt(i as u64));
        let t = store
            .create_task(&format!("race-{i}"), Json::Object(payload))
            .expect("create");
        task_ids.push(t.id);
    }

    let sample = store.get_task(task_ids[0]).unwrap().unwrap();
    assert_eq!(sample.kind, "task");
    assert_eq!(sample.priority, "normal");

    // The bulletin takes one operation at a time, so a race is an order of
    // claims: here the claimers take turns over all tasks, each round in
    // another order.
    let mut wins: usize = 0;
    for c in 0..CLAIMERS_PER_TASK {
        let agent = format!("claimer-{c}");
        for k in 0..TASKS {
            let id = task_ids[(k * 7 + c * 31) % TASKS];
            wins += store.claim_task(id, &agent, None).unwrap().is_some() as usize;
        }
    }
    assert_eq!(
        wins, TASKS,
        "expected exactly one win per task (got {wins} wins for {TASKS} tasks)"
    );

    for id in &task_ids {
        let task = store.get_task(*id).unwrap().unwrap();
        assert_eq!(
            task.state,
            TaskState::Claimed,
            "task {id} should be claimed"
        );
        assert!(
            task.claimed_by.is_some(),
            "task {id} should record its winner"
        );
    }
}

const NUM_CLIENTS: usize = 16;

#[test]
fn many_concurrent_clients_share_one_daemon_safely() {
    let mut store = Store::open(&Vec::new(), &Vec::new()).unwrap();

    // One task per client.
    let mut task_ids = Vec::with_capacity(NUM_CLIENTS);
    for i in 0..NUM_CLIENTS {
        let reply = dispatch(
            &mut store,
            Request::Send(TaskSendParams {
                name: format!("multi-task-{i}"),
                kind: None,
                priority: None,
                payload: None,
            }),
        );
        let task = reply.outcome.expect("send");
        task_ids.push(parse_id(task.get_str("id").expect("id")).unwrap());
    }

    for c in 0..NUM_CLIENTS {
        let reply = dispatch(
            &mut store,
            Request::Heartbeat(HeartbeatParams {
                id: format!("multi-agent-{c}"),
                name: "multi".to_string(),
            }),
        );
        assert!(reply.outcome.is_ok());
    }

    // Every client goes for every task, their requests interleaved.
    let mut winners: Vec<Vec<usize>> = vec![Vec::new(); NUM_CLIENTS];
    for round in 0..NUM_CLIENTS {
        for c in 0..NUM_CLIENTS {
            let t = (round + c * 5) % NUM_CLIENTS;
            let reply = dispatch(
                &mut store,
                Request::Claim(ClaimParams {
                    id: task_ids[t],
                    agent_id: format!("multi-agent-{c}"),
                    lease_seconds: None,
                }),
            );
            match reply.outcome {
                Ok(_) => winners[t].push(c),
                Err(e) => assert_eq!(e.code, -32001),
            }
        }
    }
    for (t, w) in winners.iter().enumerate() {
        assert_eq!(w.len(), 1, "task {t} was claimed by {} clients: {w:?}", w.len());
    }
}
