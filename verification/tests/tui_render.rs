//! Frames of the dashboard.

use coord::a2a::{dispatch_at, Request, TaskSendParams};
use coord::cli::frame::{
    build_detail, describe_doing, draw, kind_glyph, partition_agents, pretty_json_lines,
    priority_glyph, row_style, AgentsPane, Color, Content, Frame, Line, Style,
};
use coord::cli::printing::Age;
use coord::cli::tui::{filter_tasks, Action, Filter, Key, TopState};
use coord::json::{parse, Json};
use coord::store::Store;
use coord::time::Timestamp;

fn at(secs: i64) -> Timestamp {
    Timestamp::new(secs, 0).unwrap()
}

fn line_text(line: &Line) -> String {
    let mut s = String::new();
    for span in &line.spans {
        match &span.content {
            Content::Text(t) => s.push_str(t),
            Content::Age(Age::Short(ms)) => s.push_str(&format!("{}ms", ms)),
            Content::Age(Age::Text(t)) => s.push_str(t),
        }
    }
    s
}

fn frame_text(f: &Frame) -> String {
    let mut s = String::new();
    s.push_str(f.title);
    s.push('\n');
    for l in &f.header {
        s.push_str(&line_text(l));
        s.push('\n');
    }
    s.push_str(&f.agents_title);
    s.push('\n');
    match &f.agents {
        AgentsPane::Hint(h) => s.push_str(h),
        AgentsPane::Rows(rows) => {
            s.push_str(&f.agents_columns.join(" "));
            s.push('\n');
            for r in rows {
                s.push_str(&format!("{} {} {}\n", r.dot, r.id, r.doing));
            }
        }
    }
    s.push_str(&f.tasks_title);
    s.push('\n');
    s.push_str(&f.tasks_columns.join(" "));
    s.push('\n');
    for t in &f.tasks {
        s.push_str(&format!(
            "{} {} {} {} {} {}\n",
            t.id, t.priority, t.kind, t.state, t.claimed_by, t.name
        ));
    }
    if let Some(lines) = &f.detail {
        s.push_str(f.detail_title);
        s.push('\n');
        for l in lines {
            s.push_str(&line_text(l));
            s.push('\n');
        }
    }
    s.push_str(&line_text(&f.status));
    s.push('\n');
    s.push_str(&line_text(&f.hints));
    s
}

fn send(store: &mut Store, id: u128, name: &str, kind: &str, priority: &str, now: Timestamp) {
    let reply = dispatch_at(
        store,
        Request::Send(TaskSendParams {
            name: name.to_string(),
            kind: Some(kind.to_string()),
            priority: Some(priority.to_string()),
            payload: None,
        }),
        id,
        now,
    );
    assert!(reply.outcome.is_ok());
}

fn list(store: &Store) -> Json {
    coord::types::tasks_to_json(&store.list_tasks(200).unwrap())
}

#[test]
fn top_once_renders_priorities_and_kinds() {
    let mut store = Store::open(&Vec::new(), &Vec::new()).unwrap();
    store.heartbeat_at("feature-a-v1.2", "feature-a", at(10)).unwrap();
    store.heartbeat_at("docker-build", "docker", at(11)).unwrap();
    send(
        &mut store,
        1,
        "validate_token rejects valid tokens at day boundary",
        "bug",
        "urgent",
        at(12),
    );
    send(&mut store, 2, "implement /me endpoint", "feature", "normal", at(13));
    send(&mut store, 3, "use JWT not sessions", "decision", "normal", at(14));

    let agents = coord::types::agents_to_json(&store.list_agents().unwrap());
    let mut state = TopState::default();
    assert!(state.refresh(Ok(agents), Ok(list(&store))));
    let visible = filter_tasks(&state.tasks, state.filter);
    assert_eq!(state.settle(visible.len()), Some(0));
    let frame = draw(&state, &visible, &at(15), "0.2s ago", 140);
    let stdout = frame_text(&frame);

    assert!(stdout.contains("active"), "header missing 'active' agent bucket");
    assert!(stdout.contains("idle"), "header missing 'idle' agent bucket");
    assert!(stdout.contains("stale"), "header missing 'stale' agent bucket");
    // bug + feature start pending; decision is an announcement so it's
    // completed-on-creation. Header should reflect that.
    assert!(
        stdout.contains("pending=2"),
        "expected pending=2 in header (bug + feature; decision is auto-completed), got:\n{stdout}"
    );
    assert!(
        stdout.contains("completed=1"),
        "expected completed=1 in header (the auto-completed decision), got:\n{stdout}"
    );
    assert!(stdout.contains("filter:"), "header missing filter label");

    // Tasks pane new columns.
    assert!(
        stdout.contains("PRIO"),
        "tasks pane missing PRIO column header"
    );
    assert!(
        stdout.contains("KIND"),
        "tasks pane missing KIND column header"
    );
    // Each task has its priority and its kind.
    assert!(frame.tasks.iter().any(|t| t.priority == "‼ urgent"));
    assert!(frame.tasks.iter().any(|t| t.kind == "[B] bug"));
    assert!(
        stdout.contains("urgent") || stdout.contains("urgen"),
        "expected urgent priority to render somewhere, got:\n{stdout}",
    );
    assert!(
        stdout.contains("decision") || stdout.contains("decis"),
        "expected decision kind to render, got:\n{stdout}",
    );

    // Detail pane on by default.
    assert!(
        frame.detail.is_some(),
        "detail pane should be visible by default"
    );
    assert!(
        stdout.contains("detail"),
        "detail pane should be visible by default"
    );
}

#[test]
fn header_lines_are_exact() {
    let mut state = TopState::default();
    let agents = r#"[
        {"id": "a", "last_seen": "1970-01-01T00:16:30Z"},
        {"id": "b", "last_seen": "1970-01-01T00:16:00Z"},
        {"id": "c", "last_seen": "1970-01-01T00:00:00Z"},
        {"id": "d", "last_seen": "never"}
    ]"#;
    let tasks = r#"[{"state": "pending"}, {"state": "failed"}, {"state": "failed"}]"#;
    assert!(state.refresh(Ok(parse(agents).unwrap()), Ok(parse(tasks).unwrap())));
    let visible = filter_tasks(&state.tasks, state.filter);
    let f = draw(&state, &visible, &at(1_000), "never", 80);
    assert_eq!(
        line_text(&f.header[0]),
        "coord top  •  1 active  1 idle  2 stale  (4 agents total)"
    );
    assert_eq!(
        line_text(&f.header[1]),
        "tasks: 1 visible / 3 total  pending=1 claimed=0 completed=0 failed=2 cancelled=0"
    );
    assert_eq!(
        line_text(&f.header[2]),
        "filter: active  •  agents-hidden: stale  •  detail: on  •  refreshed never"
    );
    assert_eq!(f.agents_title, "agents (3 • +2 hidden)");
    assert_eq!(f.tasks_title, "tasks (1/3)");
    assert!(f.detail.is_none(), "too narrow for the detail pane");
    assert_eq!(line_text(&f.status), "ready");
    assert_eq!(
        line_text(&f.hints),
        "[q] quit  [↑↓] select  [d] detail  [A] stale  [p] pause  [r] refresh  [f] filter  [s] send  [c] cancel  "
    );
    match &f.agents {
        AgentsPane::Rows(rows) => {
            assert_eq!(rows[0].dot, "●");
            assert_eq!(
                rows[0].style,
                Style {
                    fg: Some(Color::Green),
                    bold: true
                }
            );
            assert_eq!(rows[1].style.fg, Some(Color::Yellow));
            assert_eq!(rows[2].dot, "○");
            assert_eq!(rows[2].id, "d");
            assert_eq!(rows[2].uptime, Age::Text("-".to_string()));
        }
        other => panic!("{other:?}"),
    }
    assert_eq!(partition_agents(&state.agents, &at(1_000)), (1, 1, 2));
}

#[test]
fn hints_stand_in_for_agents() {
    let mut state = TopState::default();
    let f = draw(&state, &Vec::new(), &at(0), "never", 140);
    assert_eq!(
        f.agents,
        AgentsPane::Hint("no agents have heartbeated yet".to_string())
    );
    assert_eq!(f.detail.as_ref().map(|d| line_text(&d[0])).unwrap(), "no task selected");
    let agents = r#"[{"id": "c", "last_seen": "1970-01-01T00:00:00Z"}]"#;
    state.refresh(Ok(parse(agents).unwrap()), Ok(Json::Null));
    let f = draw(&state, &Vec::new(), &at(1_000), "never", 140);
    assert_eq!(
        f.agents,
        AgentsPane::Hint("all 1 agents are stale\npress A to show them".to_string())
    );
    state.hide_stale_agents = false;
    let f = draw(&state, &Vec::new(), &at(1_000), "never", 140);
    assert_eq!(f.agents_title, "agents (1)");
    match f.agents {
        AgentsPane::Rows(rows) => assert_eq!(rows[0].uptime, Age::Text("16m40s".to_string())),
        other => panic!("{other:?}"),
    }
}

#[test]
fn uptime_counts_from_the_first_report() {
    let mut state = TopState::default();
    let agents = r#"[
        {"id": "a", "last_seen": "1971-01-01T00:01:00Z", "first_seen": "1971-01-01T00:00:00Z"},
        {"id": "b", "last_seen": "1971-01-01T00:01:00Z", "first_seen": "1970-01-01T00:00:00Z"}
    ]"#;
    state.refresh(Ok(parse(agents).unwrap()), Ok(Json::Null));
    let f = draw(&state, &Vec::new(), &at(31_536_000 + 65), "x", 140);
    match f.agents {
        AgentsPane::Rows(rows) => {
            assert_eq!(rows[0].uptime, Age::Text("1m05s".to_string()));
            assert_eq!(rows[1].uptime, Age::Short(5_000));
        }
        other => panic!("{other:?}"),
    }
}

#[test]
fn agents_do_what_they_hold() {
    let tasks = vec![
        parse(r#"{"id": "0123456789", "name": "fix", "kind": "bug"}"#).unwrap(),
        parse(r#"{"id": "t2", "name": "add", "kind": "feature"}"#).unwrap(),
        parse(r#"{"id": "t3", "name": "do"}"#).unwrap(),
    ];
    let agent = |t: &str| parse(&format!(r#"{{"current_task": "{t}"}}"#)).unwrap();
    assert_eq!(describe_doing(&agent("0123456789"), &tasks), "🐛 fix");
    assert_eq!(describe_doing(&agent("t2"), &tasks), "✨ add");
    assert_eq!(describe_doing(&agent("t3"), &tasks), "→ do");
    assert_eq!(describe_doing(&agent("abcdefghijk"), &tasks), "→ abcdefgh");
    assert_eq!(describe_doing(&Json::Null, &tasks), "waiting…");
}

#[test]
fn glyphs_and_styles() {
    assert_eq!(priority_glyph("urgent"), "‼ urgent");
    assert_eq!(priority_glyph("high"), "▲ high");
    assert_eq!(priority_glyph("low"), "▽ low");
    assert_eq!(priority_glyph("whatever"), "  normal");
    for (k, g) in [
        ("bug", "[B] bug"),
        ("feature", "[F] feature"),
        ("decision", "[D] decision"),
        ("ack", "[A] ack"),
        ("knowledge", "[K] knowledge"),
        ("build", "[X] build"),
        ("task", "[ ] task"),
        ("odd", "[ ] odd"),
    ] {
        assert_eq!(kind_glyph(k), g);
    }
    let style = |fg: Option<Color>, bold: bool| Style { fg, bold };
    assert_eq!(row_style("completed", "urgent"), style(Some(Color::Green), false));
    assert_eq!(row_style("cancelled", "urgent"), style(Some(Color::DarkGray), false));
    assert_eq!(row_style("failed", "low"), style(Some(Color::Red), true));
    assert_eq!(row_style("pending", "urgent"), style(Some(Color::Red), true));
    assert_eq!(row_style("claimed", "high"), style(Some(Color::Magenta), true));
    assert_eq!(row_style("pending", "normal"), style(Some(Color::Yellow), false));
    assert_eq!(row_style("claimed", "normal"), style(Some(Color::Cyan), false));
    assert_eq!(row_style("", ""), style(None, false));
}

#[test]
fn detail_shows_payload_and_result() {
    let t = parse(
        r#"{"id": "i", "name": "n", "kind": "bug", "priority": "high", "state": "claimed",
            "claimed_by": "w", "created_at": "1970-01-01T00:00:00Z",
            "updated_at": "1970-01-01T00:01:00Z",
            "payload": {"a": 1}, "result": null}"#,
    )
    .unwrap();
    let lines: Vec<String> = build_detail(Some(&t), &at(120)).iter().map(line_text).collect();
    assert_eq!(
        lines,
        vec![
            "n",
            "",
            "id        i",
            "kind      [B] bug",
            "priority  high",
            "state     claimed",
            "claimed   w",
            "age       2m00s (updated 1m00s)",
            "",
            "payload",
            "{",
            "  \"a\": 1",
            "}",
        ]
    );
}

#[test]
fn long_documents_are_cut() {
    let v = parse("[1, 2, 3, 4, 5, 6]").unwrap();
    assert_eq!(
        pretty_json_lines(&v, 3),
        vec!["[", "  1,", "  2,", "… +5 more lines"]
    );
    assert_eq!(pretty_json_lines(&v, 8).len(), 8);
    assert_eq!(pretty_json_lines(&Json::Null, 8), vec!["null"]);
}

#[test]
fn filters_cycle_and_widen() {
    assert_eq!(Filter::Active.cycle(), Filter::Attention);
    assert_eq!(Filter::Attention.cycle(), Filter::All);
    assert_eq!(Filter::All.cycle(), Filter::Active);
    assert_eq!(Filter::Active.label(), "active");
    assert_eq!(Filter::Attention.label(), "attention");
    assert_eq!(Filter::All.label(), "all");
    assert!(Filter::Active.matches("pending", "bug"));
    assert!(Filter::Active.matches("claimed", "bug"));
    assert!(!Filter::Active.matches("failed", "bug"));
    assert!(Filter::Active.matches("completed", "ack"));
    assert!(!Filter::Active.matches("completed", "bug"));
    assert!(Filter::Attention.matches("failed", "bug"));
    assert!(Filter::All.matches("cancelled", "bug"));
}

#[test]
fn keys_move_the_mark() {
    let mut s = TopState::default();
    let rows = vec![
        parse(r#"{"id": "one"}"#).unwrap(),
        parse(r#"{"id": "two"}"#).unwrap(),
        Json::Null,
    ];
    assert_eq!(s.on_key(Key::Char('j'), &rows), Action::Nothing);
    assert_eq!(s.selected, 1);
    assert_eq!(s.on_key(Key::Char('c'), &rows), Action::Cancel("two".to_string()));
    s.on_key(Key::Down, &rows);
    s.on_key(Key::Down, &rows);
    assert_eq!(s.selected, 2);
    assert_eq!(s.on_key(Key::Char('c'), &rows), Action::Nothing);
    s.on_key(Key::Up, &rows);
    assert_eq!(s.selected, 1);
    s.on_key(Key::Char('g'), &rows);
    assert_eq!(s.selected, 0);
    s.on_key(Key::Char('k'), &rows);
    assert_eq!(s.selected, 0);
    s.on_key(Key::Char('G'), &rows);
    assert_eq!(s.selected, 2);
    assert_eq!(s.settle(1), Some(0));
    assert_eq!(s.settle(0), None);
    s.on_key(Key::Char('j'), &Vec::new());
    assert_eq!(s.selected, 0);
}

#[test]
fn keys_set_switches_and_messages() {
    let mut s = TopState::default();
    let none: Vec<Json> = Vec::new();
    assert_eq!(s.on_key(Key::Char('q'), &none), Action::Quit);
    assert_eq!(s.on_key(Key::Esc, &none), Action::Quit);
    assert_eq!(s.on_key(Key::Other, &none), Action::Nothing);
    s.on_key(Key::Char('f'), &none);
    assert_eq!(s.filter, Filter::Attention);
    s.on_key(Key::Char('A'), &none);
    assert!(!s.hide_stale_agents);
    assert_eq!(s.status.as_deref(), Some("showing all agents"));
    s.on_key(Key::Char('A'), &none);
    assert_eq!(s.status.as_deref(), Some("hiding agents idle > 60s"));
    s.on_key(Key::Char('d'), &none);
    assert!(!s.show_detail);
    assert!(s.refresh_due(500) && !s.refresh_due(499));
    s.on_key(Key::Char('p'), &none);
    assert_eq!(s.status.as_deref(), Some("paused"));
    assert!(!s.refresh_due(10_000));
    s.on_key(Key::Char('p'), &none);
    assert_eq!(s.status.as_deref(), Some("resumed"));
    assert_eq!(s.on_key(Key::Char('r'), &none), Action::Refresh);
    s.on_refreshed();
    assert_eq!(s.status.as_deref(), Some("refreshed"));
    assert_eq!(
        s.on_key(Key::Char('s'), &none),
        Action::Send("top-test-1".to_string())
    );
    assert_eq!(
        s.on_key(Key::Char('s'), &none),
        Action::Send("top-test-2".to_string())
    );
    s.on_sent(&Ok(parse(r#"{"id": "0123456789"}"#).unwrap()));
    assert_eq!(s.status.as_deref(), Some("sent 01234567"));
    s.on_sent(&Ok(Json::Null));
    assert_eq!(s.status.as_deref(), Some("sent ?"));
    s.on_sent(&Err("no".to_string()));
    assert_eq!(s.status.as_deref(), Some("send failed: no"));
    s.on_cancelled("0123456789", &Ok(Json::Null));
    assert_eq!(s.status.as_deref(), Some("cancelled 01234567"));
    s.on_cancelled("x", &Err("no".to_string()));
    assert_eq!(s.status.as_deref(), Some("cancel failed: no"));
    s.expire_status(3_000);
    assert!(s.status.is_some());
    s.expire_status(3_001);
    assert!(s.status.is_none());
}

#[test]
fn failed_refresh_keeps_what_was_there() {
    let mut s = TopState::default();
    let one = || parse("[1]").unwrap();
    assert!(s.refresh(Ok(one()), Ok(one())));
    assert!(!s.refresh(Err("e1".to_string()), Ok(parse("[1,2]").unwrap())));
    assert_eq!(s.agents.len(), 1);
    assert_eq!(s.tasks.len(), 2);
    assert_eq!(s.last_err.as_deref(), Some("e1"));
    assert!(!s.refresh(Err("e1".to_string()), Err("e2".to_string())));
    assert_eq!(s.last_err.as_deref(), Some("e2"));
    s.paused = true;
    let f = draw(&s, &Vec::new(), &at(0), "1.0s ago", 140);
    assert_eq!(line_text(&f.status), "[error] e2");
    assert_eq!(
        line_text(&f.header[2]),
        "filter: active  •  agents-hidden: stale  •  detail: on  •  refreshed 1.0s ago  PAUSED"
    );
    assert!(s.refresh(Ok(Json::Null), Ok(Json::Null)));
    assert!(s.agents.is_empty() && s.tasks.is_empty());
    s.on_refreshed();
    let f = draw(&s, &Vec::new(), &at(0), "1.0s ago", 140);
    assert_eq!(line_text(&f.status), "[ok] refreshed");
}
