//! The subcommands: calls, tables, waits and scaffolds.

use coord::cli::command::{
    cancel_params, client_call, test_task_params, version_lines, Cmd, CmdError, Show,
};
use coord::cli::init::{
    file_line, scaffold_files, summary_lines, write_wanted, InitArgs, MCP_JSON,
};
use coord::cli::printing::{
    agent_entries, agent_heading, agent_line, human_age, parse_age, status_lines, task_lines, Age,
};
use coord::cli::wait::{
    effective_state, judge, matches_task, next_step, query_params, timeout_message, Verdict,
    WaitArgs, WaitStep,
};
use coord::json::{parse, to_text, Json};
use coord::time::Timestamp;

fn call(cmd: Cmd) -> (String, String, Show) {
    let c = client_call(&cmd).unwrap().unwrap();
    (c.method.to_string(), to_text(&c.params), c.show)
}

fn text(s: &str) -> Option<String> {
    Some(s.to_string())
}

#[test]
fn calls_are_exact() {
    let id = "00000000-0000-0000-0000-000000000005";
    assert_eq!(
        call(Cmd::Tasks { limit: 50 }),
        ("tasks/list".into(), r#"{"limit":50}"#.into(), Show::Tasks)
    );
    assert_eq!(
        call(Cmd::Agents),
        ("agents/list".into(), "{}".into(), Show::Agents)
    );
    assert_eq!(
        call(Cmd::Send {
            name: "n".into(),
            payload: text("[1]"),
            kind: "bug".into(),
            priority: "high".into()
        }),
        (
            "tasks/send".into(),
            r#"{"kind":"bug","name":"n","payload":[1],"priority":"high"}"#.into(),
            Show::Document
        )
    );
    assert_eq!(
        call(Cmd::Claim {
            id: 5,
            agent_id: "a".into(),
            lease: None
        }),
        (
            "tasks/claim".into(),
            format!(r#"{{"agentId":"a","id":"{id}"}}"#),
            Show::Document
        )
    );
    assert_eq!(
        call(Cmd::Extend {
            id: 5,
            agent_id: "a".into(),
            lease: Some(60)
        }),
        (
            "tasks/extend".into(),
            format!(r#"{{"agentId":"a","id":"{id}","leaseSeconds":60}}"#),
            Show::Document
        )
    );
    assert_eq!(
        call(Cmd::Reclaim),
        ("tasks/reclaim".into(), "{}".into(), Show::Document)
    );
    assert_eq!(
        call(Cmd::Complete { id: 5, result: None }),
        (
            "tasks/complete".into(),
            format!(r#"{{"id":"{id}","result":null}}"#),
            Show::Document
        )
    );
    assert_eq!(
        call(Cmd::Cancel { id: 5 }),
        (
            "tasks/cancel".into(),
            format!(r#"{{"id":"{id}"}}"#),
            Show::Document
        )
    );
    assert!(client_call(&Cmd::Status).unwrap().is_none());
    assert!(client_call(&Cmd::Version).unwrap().is_none());
    assert_eq!(
        to_text(&test_task_params("t")),
        r#"{"name":"t","payload":{}}"#
    );
    assert_eq!(to_text(&cancel_params("x")), r#"{"id":"x"}"#);
}

#[test]
fn agents_can_be_named_twice() {
    let beat = |pos: Option<String>, flag: Option<String>| Cmd::Heartbeat {
        agent_id_pos: pos,
        agent_id_flag: flag,
        name: "n".into(),
    };
    assert_eq!(
        call(beat(text("p"), text("f"))).1,
        r#"{"id":"f","name":"n"}"#
    );
    assert_eq!(call(beat(text("p"), None)).1, r#"{"id":"p","name":"n"}"#);
    let e = client_call(&beat(None, None)).unwrap_err();
    assert_eq!(e, CmdError::NoAgent);
    assert_eq!(
        e.message(),
        "agent ID required: pass it as a positional argument or with --as"
    );
}

#[test]
fn arguments_must_be_json() {
    let bad = Cmd::Send {
        name: "n".into(),
        payload: text("{"),
        kind: "task".into(),
        priority: "normal".into(),
    };
    let e = client_call(&bad).unwrap_err();
    assert_eq!(e.message(), "EOF while parsing an object at line 1 column 1");
    assert!(matches!(e, CmdError::NotJson(_)));
    let bad = Cmd::Complete {
        id: 1,
        result: text("nope"),
    };
    assert_eq!(
        client_call(&bad).unwrap_err(),
        CmdError::NotJson("expected ident at line 1 column 2".into())
    );
}

#[test]
fn tables_are_aligned() {
    let tasks = parse(
        r#"[{"id": "0123456789", "state": "pending", "priority": "high", "kind": "bug",
             "claimed_by": "me", "name": "fix"}, {}]"#,
    )
    .unwrap();
    assert_eq!(
        task_lines(&tasks),
        vec![
            "ID          STATE       PRIO      KIND        CLAIMED_BY            NAME",
            "01234567    pending     high      bug         me                    fix",
            "                        normal    task        -                     ",
        ]
    );
    assert!(task_lines(&Json::Null).is_empty());
    assert_eq!(
        agent_heading(),
        "ID                      NAME                    AGE       STATUS"
    );
    assert_eq!(
        agent_line("a", "b", "1m05s", "idle"),
        "a                       b                       1m05s     idle"
    );
}

#[test]
fn status_counts() {
    let tasks = parse(r#"[{"state": "pending"}, {"state": "claimed"}, {"state": "pending"}]"#);
    assert_eq!(
        status_lines("http://x/", &parse("[1]").unwrap(), &tasks.unwrap()),
        vec![
            "coord (http://x/)",
            "  agents     : 1",
            "  tasks      : 3 (pending: 2, claimed: 1)"
        ]
    );
    assert_eq!(
        status_lines("u", &Json::Null, &Json::Null)[2],
        "  tasks      : 0 (pending: 0, claimed: 0)"
    );
}

#[test]
fn ages_are_compact() {
    for (ms, age) in [
        (-5, Age::Short(0)),
        (0, Age::Short(0)),
        (59_999, Age::Short(59_999)),
        (60_000, Age::Text("1m00s".into())),
        (72_900, Age::Text("1m12s".into())),
        (3_599_999, Age::Text("59m59s".into())),
        (3_600_000, Age::Text("1h00m".into())),
        (11_100_000, Age::Text("3h05m".into())),
        (86_400_000, Age::Text("1d00h".into())),
        (187_200_000, Age::Text("2d04h".into())),
    ] {
        assert_eq!(human_age(ms), age);
    }
    let now = Timestamp::new(100, 0).unwrap();
    assert_eq!(parse_age("1970-01-01T00:01:38.500Z", &now), Some(1_500));
    assert_eq!(parse_age("", &now), None);
}

#[test]
fn agents_are_described_by_their_last_report() {
    let agents = parse(
        r#"[{"id": "a", "name": "x", "last_seen": "1970-01-01T00:01:25Z"},
            {"id": "b", "last_seen": "1970-01-01T00:01:24.999Z"},
            {"id": "c", "last_seen": "1970-01-01T00:00:39.999Z"},
            {"id": "d"}]"#,
    )
    .unwrap();
    let now = Timestamp::new(100, 0).unwrap();
    let entries = agent_entries(&agents, &now).unwrap();
    let status: Vec<&str> = entries.iter().map(|e| e.status).collect();
    assert_eq!(status, vec!["active", "idle", "stale", "?"]);
    assert_eq!(entries[0].name, "x");
    assert_eq!(entries[2].age, Age::Text("1m00s".into()));
    assert_eq!(entries[3].age, Age::Text("-".into()));
    assert!(agent_entries(&Json::Null, &now).is_none());
}

fn waiter() -> WaitArgs {
    WaitArgs {
        agent_id: "w".into(),
        name: "watcher".into(),
        kind: None,
        state: None,
        priority: Vec::new(),
        name_contains: None,
        ignore_ids: Vec::new(),
        timeout: 120,
        poll: 2,
        heartbeat: 10,
    }
}

#[test]
fn waiters_look_where_tasks_first_appear() {
    let mut w = waiter();
    assert_eq!(effective_state(&w).as_deref(), Some("pending"));
    w.kind = text("ack");
    assert_eq!(effective_state(&w).as_deref(), Some("completed"));
    assert_eq!(
        to_text(&query_params(&w, 7)),
        r#"{"kind":"ack","limit":200,"state":"completed","wait_ms":7}"#
    );
    w.state = text("any");
    assert_eq!(effective_state(&w), None);
    assert_eq!(
        to_text(&query_params(&w, 0)),
        r#"{"kind":"ack","limit":200,"wait_ms":0}"#
    );
    w.state = text("failed");
    assert_eq!(effective_state(&w).as_deref(), Some("failed"));
}

#[test]
fn waiters_match_by_all_conditions() {
    let t = parse(r#"{"id": "i", "name": "V1.1 STABLE Ä", "priority": "high"}"#).unwrap();
    let mut w = waiter();
    assert!(matches_task(&w, &t));
    w.name_contains = text("v1.1 stable ä");
    assert!(matches_task(&w, &t));
    w.name_contains = text("v1.2");
    assert!(!matches_task(&w, &t));
    w.name_contains = None;
    w.priority = vec!["urgent".into(), "high".into()];
    assert!(matches_task(&w, &t));
    assert!(!matches_task(&w, &Json::Null));
    w.priority = vec!["normal".into()];
    assert!(matches_task(&w, &Json::Null));
    assert!(!matches_task(&w, &t));
    w.priority = Vec::new();
    w.ignore_ids = vec!["i".into()];
    assert!(!matches_task(&w, &t));
}

#[test]
fn waiters_report_ask_and_time_out() {
    let w = waiter();
    assert_eq!(
        next_step(&w, 0, None),
        WaitStep::Ask {
            report: true,
            hold_ms: 10_000
        }
    );
    assert_eq!(
        next_step(&w, 4_000, Some(4_000)),
        WaitStep::Ask {
            report: false,
            hold_ms: 6_000
        }
    );
    assert_eq!(
        next_step(&w, 119_000, Some(10_000)),
        WaitStep::Ask {
            report: true,
            hold_ms: 1_000
        }
    );
    assert_eq!(next_step(&w, 120_000, None), WaitStep::Timeout);
    let slow = WaitArgs {
        heartbeat: u64::MAX,
        timeout: u64::MAX,
        ..waiter()
    };
    assert_eq!(
        next_step(&slow, 0, Some(5)),
        WaitStep::Ask {
            report: false,
            hold_ms: 20_000
        }
    );
    // A report with every query does not keep the daemon from holding it.
    let eager = WaitArgs {
        heartbeat: 0,
        ..waiter()
    };
    assert_eq!(
        next_step(&eager, 5, Some(0)),
        WaitStep::Ask {
            report: true,
            hold_ms: 20_000
        }
    );
    assert_eq!(
        timeout_message(&w),
        "coord wait: timeout after 120s, no matching task"
    );
}

#[test]
fn answers_are_judged() {
    let mut w = waiter();
    w.priority = vec!["high".into()];
    let answer = Ok(parse(r#"[{"id": "x"}, {"id": "y", "priority": "high"}]"#).unwrap());
    match judge(&w, 5, &answer) {
        Verdict::Found(t) => assert_eq!(t.get_str("id"), Some("y")),
        other => panic!("{other:?}"),
    }
    let others = Ok(parse(r#"[{"id": "x"}]"#).unwrap());
    assert!(matches!(judge(&w, 5, &others), Verdict::Again { pause: true }));
    let none = Ok(parse("[]").unwrap());
    assert!(matches!(judge(&w, 5, &none), Verdict::Again { pause: false }));
    assert!(matches!(judge(&w, 0, &none), Verdict::Again { pause: true }));
    assert!(matches!(judge(&w, 5, &Ok(Json::Null)), Verdict::Again { pause: false }));
    match judge(&w, 5, &Err("down".into())) {
        Verdict::Failed(msg) => assert_eq!(msg, "coord wait: list failed (down) — retrying"),
        other => panic!("{other:?}"),
    }
}

#[test]
fn scaffolds_are_planned() {
    let args = |no_mcp: bool, no_agents: bool| InitArgs {
        dir: ".".into(),
        force: false,
        no_mcp,
        no_agents,
    };
    let names = |a: InitArgs| -> Vec<&'static str> {
        scaffold_files(&a).iter().map(|f| f.name).collect()
    };
    assert_eq!(names(args(false, false)), vec![".mcp.json", "AGENTS.md"]);
    assert_eq!(names(args(true, false)), vec!["AGENTS.md"]);
    assert_eq!(names(args(false, true)), vec![".mcp.json"]);
    assert!(names(args(true, true)).is_empty());
    assert_eq!(
        parse(MCP_JSON),
        parse(r#"{"mcpServers": {"coord": {"command": "coord", "args": ["mcp"]}}}"#)
    );
    assert!(write_wanted(false, false) && write_wanted(true, true) && !write_wanted(true, false));
    assert_eq!(file_line("p/x", true), "  wrote   p/x");
    assert_eq!(
        file_line("p/x", false),
        "  skipped p/x (already exists; pass --force to overwrite)"
    );
    let lines = summary_lines("d", 1, 2);
    assert_eq!(lines.len(), 11);
    assert_eq!(lines[1], "scaffolded coord into d (1 written, 2 skipped)");
    assert_eq!(lines[10], "       coord top");
}

#[test]
fn version_is_told() {
    let lines = version_lines();
    assert_eq!(lines.len(), 8);
    assert_eq!(lines[0], "coord 0.4.1");
    assert_eq!(
        lines[7],
        "lease 300s default · 3600s max · auto-reclaim every 30s"
    );
}
