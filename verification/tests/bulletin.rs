//! The bulletin: tables, postings, completions, agents and the vault.

use std::collections::BTreeMap;

use coord::json::{parse, to_text, Json, JsonObject};
use coord::rows::{
    row_to_agent, row_to_task, task_to_row, AgentRow, Change, RowError, TaskRow,
    FIRST_SEEN_UNKNOWN,
};
use coord::store::{default_state_for_kind, Ack, Store, StoreError, TaskFilter};
use coord::time::{parse_stamp, stamp_text, Timestamp};
use coord::types::{id_text, tasks_to_json, Task, TaskState};
use coord::vault::{owner_in_file, render_task_md, Note, Owner, Relation, Vault, README};

fn at(secs: i64) -> Timestamp {
    Timestamp::new(secs, 0).unwrap()
}

fn empty() -> Store {
    Store::open(&Vec::new(), &Vec::new()).unwrap()
}

fn row(id: u128) -> TaskRow {
    TaskRow {
        id: id_text(id),
        name: "n".to_string(),
        kind: "task".to_string(),
        priority: "normal".to_string(),
        state: "claimed".to_string(),
        claimed_by: Some("a".to_string()),
        payload: r#"{"k":1}"#.to_string(),
        result: None,
        created_at: "2026-05-07T14:32:00+00:00".to_string(),
        updated_at: "2026-05-07T14:33:00.5+00:00".to_string(),
        claimed_at: Some("2026-05-07T14:33:00.5+00:00".to_string()),
        lease_until: Some("2026-05-07T14:38:00.5+00:00".to_string()),
    }
}

#[test]
fn rows_are_read_and_written() {
    let t = row_to_task(&row(9)).unwrap();
    assert_eq!(t.id, 9);
    assert_eq!(t.state, TaskState::Claimed);
    assert_eq!(t.payload, parse(r#"{"k":1}"#).unwrap());
    assert_eq!(t.lease_until, parse_stamp("2026-05-07T14:38:00.5Z"));
    let written = task_to_row(&t);
    assert_eq!(written.updated_at, "2026-05-07T14:33:00.500+00:00");
    assert_eq!(row_to_task(&written).unwrap(), t);
}

#[test]
fn rows_forgive_what_can_be_forgiven() {
    let mut r = row(1);
    r.state = "weird".to_string();
    r.payload = "not json".to_string();
    r.result = Some("not json".to_string());
    r.claimed_at = Some(String::new());
    r.lease_until = None;
    let t = row_to_task(&r).unwrap();
    assert_eq!(t.state, TaskState::Pending);
    assert_eq!(t.payload, Json::Null);
    assert_eq!(t.result, None);
    assert_eq!(t.claimed_at, None);
    assert_eq!(t.lease_until, None);
    r.result = Some("null".to_string());
    assert_eq!(row_to_task(&r).unwrap().result, Some(Json::Null));
}

#[test]
fn rows_with_errors_are_refused() {
    let mut r = row(1);
    r.id = "nope".to_string();
    assert_eq!(row_to_task(&r), Err(RowError::Id));
    for k in 0..4 {
        let mut r = row(1);
        match k {
            0 => r.created_at = "x".to_string(),
            1 => r.updated_at = "x".to_string(),
            2 => r.claimed_at = Some("x".to_string()),
            _ => r.lease_until = Some("x".to_string()),
        }
        assert_eq!(row_to_task(&r), Err(RowError::Instant));
    }
}

fn filter(state: &str) -> TaskFilter {
    TaskFilter {
        state: Some(state.to_string()),
        ..Default::default()
    }
}

#[test]
fn a_bad_row_is_an_error_only_where_it_is_used() {
    let mut bad = row(2);
    bad.created_at = "then".to_string();
    bad.state = "pending".to_string();
    let mut nameless = row(3);
    nameless.id = "nope".to_string();
    nameless.state = "completed".to_string();
    let unreadable = StoreError::Row(RowError::Instant);
    let mut store = Store::open(&vec![row(1), bad, nameless], &Vec::new()).unwrap();
    assert_eq!(store.task_count(), 3);
    assert_eq!(store.get_task(1).unwrap().unwrap().id, 1);
    assert_eq!(store.get_task(2).unwrap_err(), unreadable);
    assert_eq!(store.get_task(3).unwrap(), None);
    assert_eq!(store.list_tasks_filtered(9, &filter("claimed")).unwrap().len(), 1);
    assert_eq!(
        store.list_tasks_filtered(9, &filter("pending")).unwrap_err(),
        unreadable
    );
    assert_eq!(
        store.list_tasks_filtered(9, &filter("completed")).unwrap_err(),
        StoreError::Row(RowError::Id)
    );
    // "then" comes after every date, so it is the newest of all.
    assert_eq!(store.list_tasks(1).unwrap_err(), unreadable);
    // The claim is made, and then the row cannot be read.
    assert_eq!(store.claim_task_at(2, "a", None, at(5)).unwrap_err(), unreadable);
    assert_eq!(store.task_rows()[1].state, "claimed");
    assert_eq!(store.claim_task_at(2, "a", None, at(5)).unwrap(), None);
    assert_eq!(store.extend_lease_at(2, "a", None, at(6)).unwrap_err(), unreadable);
    // A sweep that would have to read it sweeps nothing.
    assert_eq!(
        store.reclaim_expired_leases_at(at(2_000_000_000)).unwrap_err(),
        unreadable
    );
    assert_eq!(store.task_rows()[0].state, "claimed");
    assert_eq!(store.complete_task_at(2, Json::Null, at(7)).unwrap_err(), unreadable);
    assert_eq!(store.task_rows()[1].state, "completed");
    assert_eq!(
        store.reclaim_expired_leases_at(at(2_000_000_000)).unwrap().len(),
        1
    );
    assert_eq!(store.cancel_task_at(2, at(8)).unwrap_err(), unreadable);
    assert_eq!(store.task_rows()[1].state, "cancelled");
}

#[test]
fn a_bad_row_can_be_healed() {
    let mut bad = row(2);
    bad.updated_at = "x".to_string();
    bad.lease_until = Some("x".to_string());
    let mut store = Store::open(&vec![bad], &Vec::new()).unwrap();
    assert!(store.get_task(2).is_err());
    assert_eq!(
        store.extend_lease_at(2, "a", Some(9), at(1)).unwrap(),
        Some(at(10))
    );
    assert_eq!(store.get_task(2).unwrap().unwrap().lease_until, Some(at(10)));
}

#[test]
fn rows_are_found_by_the_spelling_of_their_identifier() {
    let id = 0xabcd;
    let mut other = row(id);
    other.id = id_text(id).to_uppercase();
    other.state = "pending".to_string();
    let mut store = Store::open(&vec![other], &Vec::new()).unwrap();
    assert_eq!(store.get_task(id).unwrap(), None);
    assert_eq!(store.claim_task_at(id, "a", None, at(0)).unwrap(), None);
    assert_eq!(store.list_tasks(5).unwrap()[0].id, id);
    // Another row may have the usual spelling.
    store
        .create_task_full_at(id, "n", "task", "low", Json::Null, at(0))
        .unwrap();
    assert_eq!(store.task_count(), 2);
    assert_eq!(store.get_task(id).unwrap().unwrap().created_at, at(0));
}

#[test]
fn a_swept_row_must_be_found_again() {
    let id = 0xabcd;
    let mut other = row(id);
    other.id = id_text(id).to_uppercase();
    let mut store = Store::open(&vec![other], &Vec::new()).unwrap();
    let e = store.reclaim_expired_leases_at(at(2_000_000_000)).unwrap_err();
    assert_eq!(e, StoreError::Row(RowError::Missing));
    assert_eq!(e.message(), "Query returned no rows");
    assert_eq!(store.task_rows()[0].state, "pending");
}

#[test]
fn an_empty_lease_has_ended() {
    let mut blank = row(1);
    blank.lease_until = Some(String::new());
    let mut never = row(2);
    never.lease_until = None;
    let mut store = Store::open(&vec![blank, never], &Vec::new()).unwrap();
    let swept = store.reclaim_expired_leases_at(at(1)).unwrap();
    assert_eq!(swept.len(), 1);
    assert_eq!(swept[0].id, 1);
}

fn upsert(tasks: &mut Vec<TaskRow>, agents: &mut Vec<AgentRow>, changes: Vec<Change>) {
    for change in changes {
        match change {
            Change::Task(r) => match tasks.iter().position(|t| t.id == r.id) {
                Some(i) => tasks[i] = r,
                None => tasks.push(r),
            },
            Change::Agent(r) => match agents.iter().position(|a| a.id == r.id) {
                Some(i) => agents[i] = r,
                None => agents.push(r),
            },
        }
    }
}

#[test]
fn the_bulletin_outlives_the_program() {
    let mut tasks = vec![row(1)];
    let mut agents = Vec::new();
    let mut store = Store::open(&tasks, &agents).unwrap();
    store.heartbeat_at("a", "n", at(1)).unwrap();
    store
        .create_task_full_at(2, "two", "bug", "low", parse("[1]").unwrap(), at(1))
        .unwrap();
    store.claim_task_at(2, "a", Some(60), at(2)).unwrap().unwrap();
    store.extend_lease_at(2, "a", Some(90), at(3)).unwrap().unwrap();
    store.heartbeat_at("a", "m", at(4)).unwrap();
    let ack = Ack {
        name: None,
        priority: None,
        payload: JsonObject::new(),
    };
    store
        .complete_task_with_ack_at(2, Json::UInt(5), ack, 3, at(5))
        .unwrap()
        .unwrap();
    store.reclaim_expired_leases_at(at(2_000_000_000)).unwrap();
    store.cancel_task_at(1, at(9)).unwrap();
    upsert(&mut tasks, &mut agents, store.take_changes());
    assert!(store.take_changes().is_empty());
    assert_eq!(&tasks, store.task_rows());
    assert_eq!(&agents, store.agent_rows());
    let again = Store::open(&tasks, &agents).unwrap();
    assert_eq!(again.list_tasks(9).unwrap(), store.list_tasks(9).unwrap());
    assert_eq!(again.list_agents().unwrap(), store.list_agents().unwrap());
    assert_eq!(again.get_task(2).unwrap().unwrap().result, Some(Json::UInt(5)));
}

#[test]
fn identifiers_occur_once() {
    assert_eq!(
        Store::open(&vec![row(1), row(1)], &Vec::new()).unwrap_err(),
        StoreError::DuplicateTask
    );
    let agent = || AgentRow {
        id: "a".to_string(),
        name: "n".to_string(),
        last_seen: "2026-05-07T14:32:00Z".to_string(),
        first_seen: FIRST_SEEN_UNKNOWN.to_string(),
    };
    assert_eq!(
        Store::open(&Vec::new(), &vec![agent(), agent()]).unwrap_err(),
        StoreError::DuplicateAgent
    );
    let mut store = Store::open(&vec![row(1)], &vec![agent()]).unwrap();
    assert_eq!(
        store.create_task_full_at(1, "n", "task", "low", Json::Null, at(0)),
        Err(StoreError::DuplicateTask)
    );
    assert_eq!(store.task_count(), 1);
    assert_eq!(
        StoreError::DuplicateTask.message(),
        "UNIQUE constraint failed: tasks.id"
    );
}

#[test]
fn kinds_decide_the_first_state() {
    for k in ["ack", "knowledge", "decision"] {
        assert_eq!(default_state_for_kind(k), TaskState::Completed);
        let mut store = empty();
        let t = store.create_task_full(k, k, "normal", Json::Null).unwrap();
        assert!(store.claim_task(t.id, "a", None).unwrap().is_none());
    }
    for k in ["bug", "feature", "task", "", "Ack"] {
        assert_eq!(default_state_for_kind(k), TaskState::Pending);
    }
}

#[test]
fn posted_tasks_can_be_fetched() {
    let mut store = empty();
    let payload = parse(r#"{"i": [1, {"x": null}]}"#).unwrap();
    let t = store
        .create_task_full_at(5, "n", "bug", "high", payload.clone(), at(3))
        .unwrap();
    assert_eq!(t.payload, payload);
    assert_eq!(t.created_at, at(3));
    assert_eq!(t.updated_at, at(3));
    assert_eq!(store.get_task(5).unwrap(), Some(t));
    assert_eq!(store.get_task(6).unwrap(), None);
}

#[test]
fn completion_records_the_result() {
    let mut store = empty();
    store
        .create_task_full_at(1, "n", "bug", "high", Json::Null, at(0))
        .unwrap();
    assert!(!store.complete_task_at(1, Json::Null, at(1)).unwrap());
    store.claim_task_at(1, "a", None, at(1)).unwrap().unwrap();
    assert!(store.complete_task_at(1, Json::Bool(true), at(2)).unwrap());
    let t = store.get_task(1).unwrap().unwrap();
    assert_eq!(t.state, TaskState::Completed);
    assert_eq!(t.result, Some(Json::Bool(true)));
    assert_eq!(t.claimed_by.as_deref(), Some("a"));
    assert_eq!(t.claimed_at, Some(at(1)));
    assert_eq!(t.lease_until, None);
    assert_eq!(t.updated_at, at(2));
    assert!(!store.complete_task_at(1, Json::Null, at(3)).unwrap());
}

#[test]
fn completion_with_ack_is_one_step() {
    let ack = || Ack {
        name: None,
        priority: None,
        payload: JsonObject::new(),
    };
    let mut store = empty();
    store
        .create_task_full_at(1, "work", "bug", "high", Json::Null, at(0))
        .unwrap();
    // Not claimed: neither happens.
    assert_eq!(
        store.complete_task_with_ack_at(1, Json::Null, ack(), 2, at(1)),
        Ok(None)
    );
    assert_eq!(store.task_count(), 1);
    store.claim_task_at(1, "a", None, at(1)).unwrap().unwrap();
    // An identifier that is taken: neither happens.
    assert_eq!(
        store.complete_task_with_ack_at(1, Json::Null, ack(), 1, at(1)),
        Err(StoreError::DuplicateTask)
    );
    assert_eq!(
        store.get_task(1).unwrap().unwrap().state,
        TaskState::Claimed
    );
    let posted = store
        .complete_task_with_ack_at(1, Json::UInt(3), ack(), 2, at(2))
        .unwrap()
        .unwrap();
    assert_eq!(posted.name, "ack: work");
    assert_eq!(posted.kind, "ack");
    assert_eq!(posted.priority, "normal");
    assert_eq!(posted.state, TaskState::Completed);
    assert_eq!(posted.payload.get_str("fixed_bug_id"), Some(id_text(1).as_str()));
    assert_eq!(store.get_task(2).unwrap(), Some(posted));
    assert_eq!(
        store.get_task(1).unwrap().unwrap().result,
        Some(Json::UInt(3))
    );
    // The identifier of the task wins over one that was handed in.
    let mut given = JsonObject::new();
    given.insert("fixed_bug_id".to_string(), Json::Null);
    store
        .create_task_full_at(3, "more", "bug", "high", Json::Null, at(3))
        .unwrap();
    store.claim_task_at(3, "a", None, at(3)).unwrap().unwrap();
    let posted = store
        .complete_task_with_ack(
            3,
            Json::Null,
            Ack {
                name: Some("done".to_string()),
                priority: Some("low".to_string()),
                payload: given,
            },
        )
        .unwrap()
        .unwrap();
    assert_eq!(posted.name, "done");
    assert_eq!(posted.priority, "low");
    assert_eq!(posted.payload.get_str("fixed_bug_id"), Some(id_text(3).as_str()));
}

#[test]
fn first_report_is_kept() {
    let mut store = empty();
    store.heartbeat_at("a", "one", at(5)).unwrap();
    store.heartbeat_at("b", "two", at(6)).unwrap();
    store.heartbeat_at("a", "uno", at(9)).unwrap();
    let agents = store.list_agents().unwrap();
    assert_eq!(agents[0].id, "a");
    assert_eq!(agents[0].name, "uno");
    assert_eq!(agents[0].first_seen, at(5));
    assert_eq!(agents[0].last_seen, at(9));
    assert_eq!(agents[1].id, "b");
    assert_eq!(agents.len(), 2);
}

#[test]
fn unknown_first_report_is_filled_in_once() {
    let agent = AgentRow {
        id: "old".to_string(),
        name: "n".to_string(),
        last_seen: "1970-01-01T00:01:40Z".to_string(),
        first_seen: FIRST_SEEN_UNKNOWN.to_string(),
    };
    let read = row_to_agent(&agent, Some(7)).unwrap();
    assert_eq!(read.first_seen, Timestamp::epoch());
    assert_eq!(read.current_task, Some(7));
    let mut store = Store::open(&Vec::new(), &vec![agent]).unwrap();
    assert_eq!(store.list_agents().unwrap()[0].first_seen, Timestamp::epoch());
    store.heartbeat_at("old", "n", at(200)).unwrap();
    store.heartbeat_at("old", "n", at(300)).unwrap();
    assert_eq!(store.list_agents().unwrap()[0].first_seen, at(200));
    let mut broken = AgentRow {
        id: "x".to_string(),
        name: "y".to_string(),
        last_seen: "?".to_string(),
        first_seen: stamp_text(&at(1)),
    };
    assert_eq!(row_to_agent(&broken, None), Err(RowError::Instant));
    let mut store = Store::open(&Vec::new(), &vec![broken.clone()]).unwrap();
    assert_eq!(
        store.list_agents().unwrap_err(),
        StoreError::Row(RowError::Instant)
    );
    // A report heals what it writes anew.
    store.heartbeat_at("x", "y", at(9)).unwrap();
    assert_eq!(store.list_agents().unwrap()[0].last_seen, at(9));
    broken.first_seen = "?".to_string();
    let mut store = Store::open(&Vec::new(), &vec![broken]).unwrap();
    store.heartbeat_at("x", "y", at(9)).unwrap();
    assert!(store.list_agents().is_err());
}

#[test]
fn agents_show_the_task_they_hold() {
    let mut store = empty();
    store.heartbeat_at("a", "n", at(0)).unwrap();
    store
        .create_task_full_at(1, "x", "bug", "low", Json::Null, at(0))
        .unwrap();
    assert_eq!(store.list_agents().unwrap()[0].current_task, None);
    store.claim_task_at(1, "a", None, at(1)).unwrap().unwrap();
    assert_eq!(store.list_agents().unwrap()[0].current_task, Some(1));
    store.complete_task_at(1, Json::Null, at(2)).unwrap();
    assert_eq!(store.list_agents().unwrap()[0].current_task, None);
}

#[test]
fn wire_form_of_a_task() {
    let mut store = empty();
    store
        .create_task_full_at(1, "n", "bug", "high", Json::UInt(1), at(0))
        .unwrap();
    let list = tasks_to_json(&store.list_tasks(9).unwrap());
    assert_eq!(
        to_text(&list),
        "[{\"claimed_by\":null,\"created_at\":\"1970-01-01T00:00:00Z\",\
         \"id\":\"00000000-0000-0000-0000-000000000001\",\"kind\":\"bug\",\"name\":\"n\",\
         \"payload\":1,\"priority\":\"high\",\"result\":null,\"state\":\"pending\",\
         \"updated_at\":\"1970-01-01T00:00:00Z\"}]"
    );
    let t = store.claim_task_at(1, "a", Some(10), at(1)).unwrap().unwrap();
    let j = t.to_json();
    assert_eq!(j.get_str("claimed_at"), Some("1970-01-01T00:00:01Z"));
    assert_eq!(j.get_str("lease_until"), Some("1970-01-01T00:00:11Z"));
    assert_eq!(j.get_str("claimed_by"), Some("a"));
    assert_eq!(j.get_str("state"), Some("claimed"));
}

fn with_vault() -> Store {
    let mut store = Store::open_with_vault(&Vec::new(), &Vec::new(), Some(Vec::new())).unwrap();
    assert_eq!(
        store.take_notes(),
        vec![Note::Create {
            path: "README.md".to_string(),
            body: README.to_string(),
        }]
    );
    store
}

#[test]
fn note_of_a_task_is_exact() {
    let mut store = with_vault();
    let payload = parse(r#"{"file_refs": ["a.rs", 3, "b.rs"]}"#).unwrap();
    let now = parse_stamp("2026-05-07T14:32:00Z").unwrap();
    let mut t = store
        .create_task_full_at(1, "Fix it", "bug", "high", payload, now)
        .unwrap();
    t.claimed_by = Some("Worker One".to_string());
    t.result = Some(Json::UInt(7));
    let relations = vec![Relation {
        label: "bug_id".to_string(),
        target: "some-slug".to_string(),
    }];
    assert_eq!(
        render_task_md(&t, &relations, &Vec::new()),
        "---\nid: 00000000-0000-0000-0000-000000000001\nkind: bug\npriority: high\n\
         state: pending\nclaimed_by: Worker One\ncreated: 2026-05-07T14:32:00+00:00\n\
         updated: 2026-05-07T14:32:00+00:00\nfile_refs: [a.rs, b.rs]\n---\n\n\
         # bug: Fix it\n\n## Related\n\n- `bug_id` → [[some-slug]]\n\n\
         ## Payload\n\n```json\n{\n  \"file_refs\": [\n    \"a.rs\",\n    3,\n    \"b.rs\"\n  ]\n}\n```\n\n\
         ## Claimed by\n[[worker-one]]\n\n## Result\n\n```json\n7\n```\n"
    );
}

#[test]
fn claims_and_completions_are_logged() {
    let mut store = with_vault();
    let now = parse_stamp("2026-05-07T14:32:05Z").unwrap();
    store
        .create_task_full_at(1, "do", "task", "low", Json::Null, now)
        .unwrap();
    let notes = store.take_notes();
    assert_eq!(notes.len(), 1);
    store.claim_task_at(1, "A B", None, now).unwrap().unwrap();
    let notes = store.take_notes();
    assert_eq!(notes.len(), 3);
    assert!(matches!(&notes[0], Note::Write { path, .. } if path == "tasks/2026-05-07-1432-do.md"));
    assert_eq!(
        notes[1],
        Note::Create {
            path: "agents/a-b.md".to_string(),
            body: "---\nid: A B\nname: A B\nfirst_seen: 2026-05-07T14:32:05+00:00\n---\n\n# A B\n\n## Activity\n"
                .to_string(),
        }
    );
    assert_eq!(
        notes[2],
        Note::Append {
            path: "agents/a-b.md".to_string(),
            line: "- `2026-05-07 14:32:05` claimed [[2026-05-07-1432-do]]\n".to_string(),
        }
    );
    store.complete_task_at(1, Json::Null, now).unwrap();
    let notes = store.take_notes();
    assert_eq!(
        notes[2],
        Note::Append {
            path: "agents/a-b.md".to_string(),
            line: "- `2026-05-07 14:32:05` completed [[2026-05-07-1432-do]]\n".to_string(),
        }
    );
}

#[test]
fn abandoned_claims_are_logged() {
    let mut store = with_vault();
    let now = parse_stamp("2026-05-07T14:32:05Z").unwrap();
    let later = parse_stamp("2026-05-07T14:40:00Z").unwrap();
    store
        .create_task_full_at(1, "do", "task", "low", Json::Null, now)
        .unwrap();
    store.claim_task_at(1, "a", Some(60), now).unwrap().unwrap();
    store.take_notes();
    store.reclaim_expired_leases_at(later).unwrap();
    let notes = store.take_notes();
    assert_eq!(notes.len(), 3);
    assert_eq!(
        notes[1],
        Note::Append {
            path: "agents/a.md".to_string(),
            line: "- `2026-05-07 14:40:00` abandoned [[2026-05-07-1432-do]] (lease expired at 2026-05-07T14:33:05+00:00)\n"
                .to_string(),
        }
    );
    assert!(matches!(&notes[2], Note::Write { body, .. } if body.contains("state: pending")));
}

#[test]
fn decisions_are_mirrored_and_relations_linked() {
    let mut store = with_vault();
    let now = parse_stamp("2026-05-07T14:32:05Z").unwrap();
    store
        .create_task_full_at(1, "the bug", "bug", "low", Json::Null, now)
        .unwrap();
    store.take_notes();
    let payload = format!(
        r#"{{"fixed_bug_id": "{}", "blocked_by": "{}", "bug_id": "junk"}}"#,
        id_text(1),
        id_text(77)
    );
    store
        .create_task_full_at(2, "jwt", "decision", "low", parse(&payload).unwrap(), now)
        .unwrap();
    let notes = store.take_notes();
    assert_eq!(notes.len(), 2);
    let bodies: Vec<&String> = notes
        .iter()
        .map(|n| match n {
            Note::Write { body, .. } => body,
            other => panic!("{other:?}"),
        })
        .collect();
    assert_eq!(bodies[0], bodies[1]);
    assert!(matches!(&notes[1], Note::Write { path, .. } if path == "decisions/2026-05-07-jwt.md"));
    assert!(bodies[0].contains("## Related\n\n- `fixed_bug_id` → [[2026-05-07-1432-the-bug]]\n\n## Payload"));
}

#[test]
fn reports_begin_a_log_and_nothing_more() {
    let mut store = with_vault();
    store.heartbeat_at("agent", "Name", at(0)).unwrap();
    let notes = store.take_notes();
    assert_eq!(notes.len(), 1);
    assert!(matches!(&notes[0], Note::Create { path, body }
        if path == "agents/agent.md" && body.contains("name: Name\n")));
    assert!(store.take_notes().is_empty());
}

#[test]
fn without_a_vault_nothing_is_noted() {
    let mut store = empty();
    store.create_task("x", Json::Null).unwrap();
    store.heartbeat("a", "b").unwrap();
    assert!(store.take_notes().is_empty());
    let mut v = Vault::open(Vec::new());
    assert_eq!(v.take_notes().len(), 1);
    assert!(v.take_notes().is_empty());
}

fn carry_out(files: &mut BTreeMap<String, String>, notes: Vec<Note>) {
    for note in notes {
        match note {
            Note::Write { path, body } => {
                files.insert(path, body);
            }
            Note::Create { path, body } => {
                files.entry(path).or_insert(body);
            }
            Note::Append { path, line } => files.get_mut(&path).unwrap().push_str(&line),
        }
    }
}

#[test]
fn tasks_of_one_name_and_minute_have_their_own_files() {
    let mut store = with_vault();
    let now = parse_stamp("2026-05-07T14:32:05Z").unwrap();
    let mut files = BTreeMap::new();
    let refers = parse(&format!(r#"{{"follows_up": "{}"}}"#, id_text(2))).unwrap();
    for (id, payload) in [(1, Json::Null), (2, Json::Null), (3, refers)] {
        let t = store
            .create_task_full_at(id, "do", "decision", "low", payload, now)
            .unwrap();
        assert_eq!(t.id, id);
    }
    carry_out(&mut files, store.take_notes());
    let second = "2026-05-07-1432-do (00000000-0000-0000-0000-000000000002)";
    let paths: Vec<String> = files.keys().cloned().collect();
    assert_eq!(
        paths,
        vec![
            "decisions/2026-05-07-do (00000000-0000-0000-0000-000000000002).md".to_string(),
            "decisions/2026-05-07-do (00000000-0000-0000-0000-000000000003).md".to_string(),
            "decisions/2026-05-07-do.md".to_string(),
            format!("tasks/{second}.md"),
            "tasks/2026-05-07-1432-do (00000000-0000-0000-0000-000000000003).md".to_string(),
            "tasks/2026-05-07-1432-do.md".to_string(),
        ]
    );
    let first = store.get_task(1).unwrap().unwrap();
    assert_eq!(
        files["tasks/2026-05-07-1432-do.md"],
        render_task_md(&first, &Vec::new(), &Vec::new())
    );
    assert!(files["tasks/2026-05-07-1432-do (00000000-0000-0000-0000-000000000003).md"]
        .contains(&format!("- `follows_up` → [[{second}]]\n")));
    // A change of the second goes to its own file.
    store.cancel_task_at(2, now).unwrap();
    carry_out(&mut files, store.take_notes());
    assert_eq!(files.len(), 6);
    assert!(files[&format!("tasks/{second}.md")].contains("state: cancelled"));
    assert!(files["tasks/2026-05-07-1432-do.md"].contains("state: completed"));
}

#[test]
fn events_link_to_the_right_file() {
    let mut store = with_vault();
    let now = parse_stamp("2026-05-07T14:32:05Z").unwrap();
    let later = parse_stamp("2026-05-07T14:40:00Z").unwrap();
    for id in [1, 2] {
        store
            .create_task_full_at(id, "do", "task", "low", Json::Null, now)
            .unwrap();
    }
    store.claim_task_at(2, "a", Some(60), now).unwrap().unwrap();
    store.reclaim_expired_leases_at(later).unwrap();
    store.claim_task_at(2, "a", Some(60), later).unwrap().unwrap();
    store.complete_task_at(2, Json::Null, later).unwrap();
    let mut files = BTreeMap::new();
    carry_out(&mut files, store.take_notes());
    let link = "[[2026-05-07-1432-do (00000000-0000-0000-0000-000000000002)]]";
    let log = &files["agents/a.md"];
    for verb in ["claimed", "abandoned", "completed"] {
        assert!(log.contains(&format!("{verb} {link}")), "{log}");
    }
}

#[test]
fn version_numbers_stay_in_agents_files_and_links() {
    let mut store = with_vault();
    let now = parse_stamp("2026-05-07T14:32:05Z").unwrap();
    store
        .create_task_full_at(1, "do", "task", "low", Json::Null, now)
        .unwrap();
    store.heartbeat_at("feature-a-v1.2", "feature-a", now).unwrap();
    store.claim_task_at(1, "feature-a-v1.2", None, now).unwrap().unwrap();
    let mut files = BTreeMap::new();
    carry_out(&mut files, store.take_notes());
    assert!(files.contains_key("agents/feature-a-v1.2.md"));
    assert!(files["tasks/2026-05-07-1432-do.md"].contains("## Claimed by\n[[feature-a-v1.2]]\n"));
}

#[test]
fn a_second_report_leaves_the_log_as_it_was() {
    let mut files = BTreeMap::new();
    let mut v = Vault::open(Vec::new());
    v.touch_agent("a", "first name", &at(0));
    carry_out(&mut files, v.take_notes());
    v.append_agent_event("a", "did it", &at(1));
    carry_out(&mut files, v.take_notes());
    let log = files["agents/a.md"].clone();
    assert!(log.contains("name: first name\n"));
    assert!(log.ends_with("## Activity\n- `1970-01-01 00:00:01` did it\n"));
    v.touch_agent("a", "second name", &at(2));
    carry_out(&mut files, v.take_notes());
    assert_eq!(files["agents/a.md"], log);
}

#[test]
fn a_vault_writes_each_task_to_its_file() {
    let mut store = empty();
    let now = parse_stamp("2026-05-07T14:32:05Z").unwrap();
    let tasks: Vec<Task> = [1, 2]
        .iter()
        .map(|id| {
            store
                .create_task_full_at(*id, "do", "task", "low", Json::Null, now)
                .unwrap()
        })
        .collect();
    let mut v = Vault::open(Vec::new());
    v.take_notes();
    v.write_task(&tasks[0], &Vec::new());
    v.write_task(&tasks[1], &Vec::new());
    let mut files = BTreeMap::new();
    carry_out(&mut files, v.take_notes());
    assert_eq!(files.len(), 2);
    assert_eq!(
        files["tasks/2026-05-07-1432-do.md"],
        render_task_md(&tasks[0], &Vec::new(), &Vec::new())
    );
    assert_eq!(
        files["tasks/2026-05-07-1432-do (00000000-0000-0000-0000-000000000002).md"],
        render_task_md(&tasks[1], &Vec::new(), &Vec::new())
    );
}

#[test]
fn a_state_that_is_not_known_is_not_claimed() {
    let mut odd = row(9);
    odd.state = "parked".to_string();
    odd.claimed_by = None;
    odd.claimed_at = None;
    odd.lease_until = None;
    let mut store = Store::open(&vec![odd], &Vec::new()).unwrap();
    let t = store.get_task(9).unwrap().unwrap();
    assert_eq!(t.state, TaskState::Pending);
    assert_eq!(store.list_tasks(10).unwrap().len(), 1);
    for (state, count) in [("pending", 0), ("parked", 1)] {
        assert_eq!(
            store.list_tasks_filtered(10, &filter(state)).unwrap().len(),
            count
        );
    }
    assert!(store.claim_task_at(9, "a", None, at(5)).unwrap().is_none());
    store.cancel_task_at(9, at(6)).unwrap();
    let t = store.get_task(9).unwrap().unwrap();
    assert_eq!(t.state, TaskState::Cancelled);
    assert_eq!(store.task_rows()[0].state, "cancelled");
}

#[test]
fn agents_whose_slugs_agree_have_their_own_logs() {
    let mut store = with_vault();
    let now = parse_stamp("2026-05-07T14:32:05Z").unwrap();
    let mut files = BTreeMap::new();
    store.heartbeat_at("Agent A", "first", now).unwrap();
    store.heartbeat_at("agent-a", "second", now).unwrap();
    store
        .create_task_full_at(1, "do", "task", "low", Json::Null, now)
        .unwrap();
    store.claim_task_at(1, "agent-a", None, now).unwrap().unwrap();
    carry_out(&mut files, store.take_notes());
    let first = files["agents/agent-a.md"].clone();
    assert!(first.contains("id: Agent A\n") && !first.contains("claimed"));
    let second = &files["agents/agent-a (agent-a).md"];
    assert!(second.contains("id: agent-a\n") && second.contains("claimed [[2026-05-07-1432-do]]"));
    assert!(files["tasks/2026-05-07-1432-do.md"].contains("[[agent-a (agent-a)]]"));
    // Opened over the same files, the vault knows whose they are.
    let owners: Vec<Owner> = files
        .iter()
        .filter_map(|(path, body)| owner_in_file(path, body))
        .collect();
    assert_eq!(owners.len(), 3);
    let mut again = Store::open_with_vault(&Vec::new(), &Vec::new(), Some(owners)).unwrap();
    again.take_notes();
    again.heartbeat_at("agent-a", "second", now).unwrap();
    again.heartbeat_at("Agent A", "first", now).unwrap();
    let before = files.clone();
    carry_out(&mut files, again.take_notes());
    assert_eq!(files, before);
}

#[test]
fn files_say_whose_they_are() {
    let owner = |body: &str| owner_in_file("p", body).map(|o| o.id);
    assert_eq!(owner("---\nid: x y\nname: n\n"), Some("x y".to_string()));
    assert_eq!(owner("---\nid: "), Some(String::new()));
    assert_eq!(owner("---\nkind: x\n"), None);
    assert_eq!(owner("# page\n"), None);
    assert_eq!(owner(""), None);
    assert_eq!(owner(README), None);
}
