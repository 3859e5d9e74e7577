//! Plain-text output of `status`, `tasks` and `agents`, and ages as readers
//! like them.

use vstd::prelude::*;

use crate::json;
use crate::json::{Json, JsonView};
use crate::text;
use crate::time;
use crate::time::Timestamp;

verus! {

// ---------------------------------------------------------------------
// Ages
// ---------------------------------------------------------------------

/// An agent that has not reported for longer is idle, in milliseconds.
pub const IDLE_AGENT_AFTER_MS: i64 = 15_000;

/// An agent that has not reported for longer is stale, in milliseconds.
pub const STALE_AGENT_AFTER_MS: i64 = 60_000;

/// An age to be shown.
#[derive(Debug, PartialEq, Eq)]
pub enum Age {
    /// Less than a minute, in milliseconds: shown in seconds, with a decimal
    /// below ten.
    Short(u64),
    /// A minute or more, or not known: the text to show.
    Text(String),
}

/// What an age holds.
#[verifier::ext_equal]
pub enum AgeView {
    Short(int),
    Text(Seq<char>),
}

impl View for Age {
    type V = AgeView;

    open spec fn view(&self) -> AgeView {
        match self {
            Age::Short(ms) => AgeView::Short(*ms as int),
            Age::Text(s) => AgeView::Text(s@),
        }
    }
}

/// The milliseconds from an instant, spelled as text, to now.
pub open spec fn age_of(ts: Seq<char>, now: Timestamp) -> Option<int> {
    match time::read_stamp(ts) {
        Some(t) => Some(time::millis_between(now, t)),
        None => None,
    }
}

/// A minute or more: minutes and seconds, from an hour on hours and minutes,
/// from a day on days and hours.
pub open spec fn long_age(secs: nat) -> Seq<char> {
    if secs < 3_600 {
        text::decimal(secs / 60) + "m"@ + text::two_digits(secs % 60) + "s"@
    } else if secs < 86_400 {
        text::decimal(secs / 3_600) + "h"@ + text::two_digits((secs % 3_600) / 60) + "m"@
    } else {
        text::decimal(secs / 86_400) + "d"@ + text::two_digits((secs % 86_400) / 3_600) + "h"@
    }
}

/// How an age in milliseconds is shown; an instant to come counts as now.
pub open spec fn shown_age(ms: int) -> AgeView {
    if ms < 0 {
        AgeView::Short(0)
    } else if ms < 60_000 {
        AgeView::Short(ms)
    } else {
        AgeView::Text(long_age((ms / 1_000) as nat))
    }
}

/// How an age is shown that is not known.
pub open spec fn unknown_age() -> AgeView {
    AgeView::Text("-"@)
}

/// How the age of an instant, spelled as text, is shown.
pub open spec fn age_label(ts: Seq<char>, now: Timestamp) -> AgeView {
    match age_of(ts, now) {
        Some(ms) => shown_age(ms),
        None => unknown_age(),
    }
}

/// The milliseconds from an instant, spelled as text, to now.
pub fn parse_age(ts: &str, now: &Timestamp) -> (r: Option<i64>)
    ensures
        match r {
            Some(ms) => age_of(ts@, *now) == Some(ms as int),
            None => age_of(ts@, *now) is None,
        },
{
    match time::parse_stamp(ts) {
        Some(t) => Some(time::elapsed_millis(now, &t)),
        None => None,
    }
}

fn two_part(major: u64, unit: &str, minor: u64, minor_unit: &str) -> (r: String)
    ensures
        r@ == text::decimal(major as nat) + unit@ + text::two_digits(minor as nat) + minor_unit@,
{
    let mut out = text::decimal_text(major);
    out.append(unit);
    out.append(text::two_digit_text(minor).as_str());
    out.append(minor_unit);
    out
}

/// How an age in milliseconds is shown.
pub fn human_age(ms: i64) -> (r: Age)
    ensures
        r@ == shown_age(ms as int),
{
    if ms < 0 {
        return Age::Short(0);
    }
    let ms: u64 = ms as u64;
    if ms < 60_000 {
        return Age::Short(ms);
    }
    let s: u64 = ms / 1_000;
    if s < 3_600 {
        Age::Text(two_part(s / 60, "m", s % 60, "s"))
    } else if s < 86_400 {
        Age::Text(two_part(s / 3_600, "h", (s % 3_600) / 60, "m"))
    } else {
        Age::Text(two_part(s / 86_400, "d", (s % 86_400) / 3_600, "h"))
    }
}

/// How the age of an instant, spelled as text, is shown.
pub fn label_age(ts: &str, now: &Timestamp) -> (r: Age)
    ensures
        r@ == age_label(ts@, *now),
{
    match parse_age(ts, now) {
        Some(ms) => human_age(ms),
        None => Age::Text("-".to_owned()),
    }
}

// ---------------------------------------------------------------------
// Status
// ---------------------------------------------------------------------

/// How many documents have the given state.
pub open spec fn count_in(items: Seq<JsonView>, state: Seq<char>) -> nat
    decreases items.len(),
{
    if items.len() == 0 {
        0
    } else {
        count_in(items.drop_last(), state) + if json::member_text(items.last(), "state"@) == Some(
            state,
        ) {
            1nat
        } else {
            0nat
        }
    }
}

/// How many documents have the given state.
pub fn count_state(tasks: &Vec<Json>, state: &str) -> (n: usize)
    ensures
        n == count_in(json::views(tasks@), state@),
        n <= tasks@.len(),
{
    let mut n: usize = 0;
    let mut i: usize = 0;
    let ghost all = json::views(tasks@);
    while i < tasks.len()
        invariant
            i <= tasks.len(),
            n <= i,
            all == json::views(tasks@),
            n == count_in(all.take(i as int), state@),
        decreases tasks.len() - i,
    {
        let ghost seen = all.take(i + 1);
        assert(seen.drop_last() =~= all.take(i as int));
        assert(seen.last() == tasks@[i as int]@);
        match tasks[i].get_str("state") {
            Some(s) => if text::same(s, state) {
                n = n + 1;
            },
            None => {},
        }
        i = i + 1;
    }
    assert(all.take(all.len() as int) =~= all);
    n
}

/// The elements of an array; of anything else, none.
pub open spec fn items_or_none(v: JsonView) -> Seq<JsonView> {
    match json::as_items(v) {
        Some(items) => items,
        None => Seq::empty(),
    }
}

/// The summary of the daemon at `url`.
pub open spec fn status_text(url: Seq<char>, agents: JsonView, tasks: JsonView) -> Seq<
    Seq<char>,
> {
    seq![
        "coord ("@ + url + ")"@,
        "  agents     : "@ + text::decimal(items_or_none(agents).len()),
        "  tasks      : "@ + text::decimal(items_or_none(tasks).len()) + " (pending: "@
            + text::decimal(count_in(items_or_none(tasks), "pending"@)) + ", claimed: "@
            + text::decimal(count_in(items_or_none(tasks), "claimed"@)) + ")"@,
    ]
}

/// How many elements an array has, and how many of them have each state.
fn counts(v: &Json) -> (r: (u64, u64, u64))
    ensures
        r.0 == items_or_none(v@).len(),
        r.1 == count_in(items_or_none(v@), "pending"@),
        r.2 == count_in(items_or_none(v@), "claimed"@),
{
    match v.as_array() {
        Some(items) => (
            items.len() as u64,
            count_state(items, "pending") as u64,
            count_state(items, "claimed") as u64,
        ),
        None => (0, 0, 0),
    }
}

/// The lines of the summary of the daemon at `url`.
pub fn status_lines(url: &str, agents: &Json, tasks: &Json) -> (r: Vec<String>)
    ensures
        text::texts(r@) == status_text(url@, agents@, tasks@),
{
    let (agent_count, _, _) = counts(agents);
    let (task_count, pending, claimed) = counts(tasks);
    let mut first = "coord (".to_owned();
    first.append(url);
    first.append(")");
    let mut second = "  agents     : ".to_owned();
    second.append(text::decimal_text(agent_count).as_str());
    let mut third = "  tasks      : ".to_owned();
    third.append(text::decimal_text(task_count).as_str());
    third.append(" (pending: ");
    third.append(text::decimal_text(pending).as_str());
    third.append(", claimed: ");
    third.append(text::decimal_text(claimed).as_str());
    third.append(")");
    let mut out: Vec<String> = Vec::new();
    out.push(first);
    out.push(second);
    out.push(third);
    assert(text::texts(out@) =~= status_text(url@, agents@, tasks@));
    out
}

// ---------------------------------------------------------------------
// Tables
// ---------------------------------------------------------------------

/// A row of the task table: five columns of fixed width, then the name.
pub open spec fn task_columns(
    id: Seq<char>,
    state: Seq<char>,
    prio: Seq<char>,
    kind: Seq<char>,
    claimed: Seq<char>,
    name: Seq<char>,
) -> Seq<char> {
    text::padded(id, 10) + "  "@ + text::padded(state, 10) + "  "@ + text::padded(prio, 8) + "  "@
        + text::padded(kind, 10) + "  "@ + text::padded(claimed, 20) + "  "@ + name
}

/// The row of a task.
pub open spec fn task_row(t: JsonView) -> Seq<char> {
    task_columns(
        text::first_chars(json::member_text_or(t, "id"@, Seq::empty()), 8),
        json::member_text_or(t, "state"@, ""@),
        json::member_text_or(t, "priority"@, "normal"@),
        json::member_text_or(t, "kind"@, "task"@),
        json::member_text_or(t, "claimed_by"@, "-"@),
        json::member_text_or(t, "name"@, ""@),
    )
}

/// The heading of the task table.
pub open spec fn task_heading() -> Seq<char> {
    task_columns("ID"@, "STATE"@, "PRIO"@, "KIND"@, "CLAIMED_BY"@, "NAME"@)
}

/// The task table: a heading and a row for each task, or nothing for a
/// document that is not an array.
pub open spec fn task_table(v: JsonView) -> Seq<Seq<char>> {
    match json::as_items(v) {
        Some(items) => seq![task_heading()] + Seq::new(items.len(), |i: int| task_row(items[i])),
        None => Seq::empty(),
    }
}

fn push_column(out: &mut String, s: &str, width: usize)
    ensures
        final(out)@ == old(out)@ + text::padded(s@, width as nat) + "  "@,
{
    out.append(text::pad_right(s, width).as_str());
    out.append("  ");
}

fn task_line(id: &str, state: &str, prio: &str, kind: &str, claimed: &str, name: &str) -> (r:
    String)
    ensures
        r@ == task_columns(id@, state@, prio@, kind@, claimed@, name@),
{
    let mut out = text::pad_right(id, 10);
    out.append("  ");
    push_column(&mut out, state, 10);
    push_column(&mut out, prio, 8);
    push_column(&mut out, kind, 10);
    push_column(&mut out, claimed, 20);
    out.append(name);
    out
}

/// The first eight characters of an identifier.
pub fn short_id(t: &Json) -> (r: String)
    ensures
        r@ == text::first_chars(json::member_text_or(t@, "id"@, Seq::empty()), 8),
{
    match t.get_str("id") {
        Some(id) => text::take_chars(id, 8),
        None => {
            let none = String::new();
            assert(none@ =~= Seq::<char>::empty());
            none
        },
    }
}

/// The lines of the task table.
pub fn task_lines(value: &Json) -> (r: Vec<String>)
    ensures
        text::texts(r@) == task_table(value@),
{
    let mut out: Vec<String> = Vec::new();
    let items = match value.as_array() {
        Some(items) => items,
        None => {
            assert(text::texts(out@) =~= Seq::<Seq<char>>::empty());
            return out;
        },
    };
    out.push(task_line("ID", "STATE", "PRIO", "KIND", "CLAIMED_BY", "NAME"));
    let mut i: usize = 0;
    let ghost all = json::views(items@);
    while i < items.len()
        invariant
            i <= items.len(),
            all == json::views(items@),
            out@.len() == i + 1,
            out@[0]@ == task_heading(),
            forall|k: int| 0 < k < out@.len() ==> (#[trigger] out@[k])@ == task_row(all[k - 1]),
        decreases items.len() - i,
    {
        let t = &items[i];
        assert(all[i as int] == t@);
        let id = short_id(t);
        out.push(
            task_line(
                id.as_str(),
                t.get_str_or("state", ""),
                t.get_str_or("priority", "normal"),
                t.get_str_or("kind", "task"),
                t.get_str_or("claimed_by", "-"),
                t.get_str_or("name", ""),
            ),
        );
        i = i + 1;
    }
    assert(text::texts(out@) =~= task_table(value@));
    out
}

/// How an agent is to be described by the time since its last report.
pub open spec fn presence(age: Option<int>) -> Seq<char> {
    match age {
        Some(ms) => if ms <= IDLE_AGENT_AFTER_MS {
            "active"@
        } else if ms <= STALE_AGENT_AFTER_MS {
            "idle"@
        } else {
            "stale"@
        },
        None => "?"@,
    }
}

/// What the agent table shows of an agent.
#[derive(Debug)]
pub struct AgentEntry {
    pub id: String,
    pub name: String,
    pub age: Age,
    pub status: &'static str,
}

/// What an entry holds.
#[verifier::ext_equal]
pub struct AgentEntryView {
    pub id: Seq<char>,
    pub name: Seq<char>,
    pub age: AgeView,
    pub status: Seq<char>,
}

impl View for AgentEntry {
    type V = AgentEntryView;

    open spec fn view(&self) -> AgentEntryView {
        AgentEntryView {
            id: self.id@,
            name: self.name@,
            age: self.age@,
            status: self.status@,
        }
    }
}

/// The entry of an agent.
pub open spec fn agent_entry(a: JsonView, now: Timestamp) -> AgentEntryView {
    let last = json::member_text_or(a, "last_seen"@, ""@);
    AgentEntryView {
        id: json::member_text_or(a, "id"@, ""@),
        name: json::member_text_or(a, "name"@, ""@),
        age: age_label(last, now),
        status: presence(age_of(last, now)),
    }
}

/// The views of a sequence of entries.
pub open spec fn entry_views(entries: Seq<AgentEntry>) -> Seq<AgentEntryView> {
    Seq::new(entries.len(), |i: int| entries[i]@)
}

fn presence_text(age: Option<i64>) -> (r: &'static str)
    ensures
        r@ == presence(
            match age {
                Some(ms) => Some(ms as int),
                None => None,
            },
        ),
{
    match age {
        Some(ms) => if ms <= IDLE_AGENT_AFTER_MS {
            "active"
        } else if ms <= STALE_AGENT_AFTER_MS {
            "idle"
        } else {
            "stale"
        },
        None => "?",
    }
}

/// The entries of the agent table; `None` for a document that is not an
/// array.
pub fn agent_entries(value: &Json, now: &Timestamp) -> (r: Option<Vec<AgentEntry>>)
    ensures
        match json::as_items(value@) {
            Some(items) => r matches Some(entries) && entry_views(entries@) == Seq::new(
                items.len(),
                |i: int| agent_entry(items[i], *now),
            ),
            None => r is None,
        },
{
    let items = match value.as_array() {
        Some(items) => items,
        None => return None,
    };
    let mut out: Vec<AgentEntry> = Vec::new();
    let mut i: usize = 0;
    let ghost all = json::views(items@);
    while i < items.len()
        invariant
            i <= items.len(),
            all == json::views(items@),
            out@.len() == i,
            forall|k: int| 0 <= k < i ==> (#[trigger] out@[k])@ == agent_entry(all[k], *now),
        decreases items.len() - i,
    {
        let a = &items[i];
        assert(all[i as int] == a@);
        let last = a.get_str_or("last_seen", "");
        let age = parse_age(last, now);
        out.push(
            AgentEntry {
                id: a.get_str_or("id", "").to_owned(),
                name: a.get_str_or("name", "").to_owned(),
                age: label_age(last, now),
                status: presence_text(age),
            },
        );
        i = i + 1;
    }
    assert(entry_views(out@) =~= Seq::new(all.len(), |i: int| agent_entry(all[i], *now)));
    Some(out)
}

/// A row of the agent table: three columns of fixed width, then the status.
pub open spec fn agent_columns(
    id: Seq<char>,
    name: Seq<char>,
    age: Seq<char>,
    status: Seq<char>,
) -> Seq<char> {
    text::padded(id, 22) + "  "@ + text::padded(name, 22) + "  "@ + text::padded(age, 8) + "  "@
        + status
}

/// A row of the agent table.
pub fn agent_line(id: &str, name: &str, age: &str, status: &str) -> (r: String)
    ensures
        r@ == agent_columns(id@, name@, age@, status@),
{
    let mut out = text::pad_right(id, 22);
    out.append("  ");
    push_column(&mut out, name, 22);
    push_column(&mut out, age, 8);
    out.append(status);
    out
}

/// The heading of the agent table.
pub fn agent_heading() -> (r: String)
    ensures
        r@ == agent_columns("ID"@, "NAME"@, "AGE"@, "STATUS"@),
{
    agent_line("ID", "NAME", "AGE", "STATUS")
}

// ---------------------------------------------------------------------
// What is printed
// ---------------------------------------------------------------------

/// An age of a minute or more is shown in two units that together make up the
/// whole of it, down to the smaller unit: minutes and seconds within the hour,
/// hours and minutes within the day, days and hours after that. A shorter one
/// is shown as it is, and one that lies ahead as none.
pub proof fn lemma_ages(ms: int, major: nat, minor: nat)
    ensures
        ms <= 0 ==> shown_age(ms) == AgeView::Short(0),
        0 <= ms < 60_000 ==> shown_age(ms) == AgeView::Short(ms),
        1 <= major < 60 && minor < 60 && 0 <= ms - (major * 60 + minor) * 1_000 < 1_000
            ==> shown_age(ms) == AgeView::Text(
            text::decimal(major) + "m"@ + text::two_digits(minor) + "s"@,
        ),
        1 <= major < 24 && minor < 60 && 0 <= ms - (major * 60 + minor) * 60_000 < 60_000
            ==> shown_age(ms) == AgeView::Text(
            text::decimal(major) + "h"@ + text::two_digits(minor) + "m"@,
        ),
        1 <= major && minor < 24 && 0 <= ms - (major * 24 + minor) * 3_600_000 < 3_600_000
            ==> shown_age(ms) == AgeView::Text(
            text::decimal(major) + "d"@ + text::two_digits(minor) + "h"@,
        ),
{
    let secs = ms / 1_000;
    if 1 <= major < 60 && minor < 60 && 0 <= ms - (major * 60 + minor) * 1_000 < 1_000 {
        assert(secs == major * 60 + minor);
        assert(secs / 60 == major && secs % 60 == minor);
    }
    if 1 <= major < 24 && minor < 60 && 0 <= ms - (major * 60 + minor) * 60_000 < 60_000 {
        let rest = secs - (major * 60 + minor) * 60;
        assert(0 <= rest < 60);
        assert(secs / 3_600 == major && (secs % 3_600) / 60 == minor);
    }
    if 1 <= major && minor < 24 && 0 <= ms - (major * 24 + minor) * 3_600_000 < 3_600_000 {
        let rest = secs - (major * 24 + minor) * 3_600;
        assert(0 <= rest < 3_600);
        assert(secs / 86_400 == major && (secs % 86_400) / 3_600 == minor);
    }
}

/// The age of an instant is the time that has passed since; a text that
/// spells no instant has none, and a dash is shown for it.
pub proof fn lemma_age_of_instants(ts: Seq<char>, now: Timestamp, t: Timestamp)
    ensures
        time::read_stamp(ts) is None ==> age_of(ts, now) is None && age_label(ts, now)
            == AgeView::Text("-"@),
        time::read_stamp(ts) == Some(t) && t.nanos() < 1_000_000_000 && now.nanos()
            < 1_000_000_000 && !now.lt(t) ==> {
            let passed = (now.secs() - t.secs()) * 1_000_000_000 + now.nanos() - t.nanos();
            age_of(ts, now) matches Some(ms) && ms * 1_000_000 <= passed < (ms + 1) * 1_000_000
                && age_label(ts, now) == shown_age(ms)
        },
{
}

/// Tasks are counted one by one: those with the state count, others do not.
pub proof fn lemma_counting(items: Seq<JsonView>, t: JsonView, state: Seq<char>)
    ensures
        count_in(Seq::empty(), state) == 0,
        json::member(t, "state"@) == Some(JsonView::Text(state)) ==> count_in(
            items.push(t),
            state,
        ) == count_in(items, state) + 1,
        json::member(t, "state"@) != Some(JsonView::Text(state)) ==> count_in(
            items.push(t),
            state,
        ) == count_in(items, state),
{
    assert(items.push(t).drop_last() =~= items);
}

/// The summary has three lines: the address, the number of agents, and the
/// numbers of tasks: all of them, those pending and those claimed.
pub proof fn lemma_status(url: Seq<char>, agents: Seq<JsonView>, tasks: Seq<JsonView>)
    ensures
        ({
            let lines = status_text(url, JsonView::Array(agents), JsonView::Array(tasks));
            &&& lines.len() == 3
            &&& lines[0] == "coord ("@ + url + ")"@
            &&& text::has_suffix(lines[1], " : "@ + text::decimal(agents.len()))
            &&& text::occurs_in(" : "@ + text::decimal(tasks.len()) + " ("@, lines[2])
            &&& text::has_suffix(
                lines[2],
                "(pending: "@ + text::decimal(count_in(tasks, "pending"@)) + ", claimed: "@
                    + text::decimal(count_in(tasks, "claimed"@)) + ")"@,
            )
        }),
{
    let lines = status_text(url, JsonView::Array(agents), JsonView::Array(tasks));
    reveal_strlit("  agents     : ");
    reveal_strlit("  tasks      : ");
    reveal_strlit(" : ");
    reveal_strlit(" (");
    reveal_strlit(" (pending: ");
    reveal_strlit("(pending: ");
    let n = text::decimal(agents.len());
    let tail = " : "@ + n;
    assert(lines[1].skip(lines[1].len() - tail.len()) =~= tail);
    let all = text::decimal(tasks.len());
    let middle = " : "@ + all + " ("@;
    let head = "  tasks      : "@.take(12);
    let rest = text::decimal(count_in(tasks, "pending"@)) + ", claimed: "@ + text::decimal(
        count_in(tasks, "claimed"@),
    ) + ")"@;
    assert(lines[2] =~= (head + middle) + ("pending: "@ + rest)) by {
        reveal_strlit("pending: ");
    }
    text::lemma_occurs(middle, lines[2]);
    let end = "(pending: "@ + text::decimal(count_in(tasks, "pending"@)) + ", claimed: "@
        + text::decimal(count_in(tasks, "claimed"@)) + ")"@;
    assert(lines[2].skip(lines[2].len() - end.len()) =~= end);
}

/// What the table of tasks says of a task: a row below the heading for each,
/// in their order. The first eight characters of the identifier begin the row,
/// the name ends it, and state, priority, kind and claimer stand between, each
/// at the place of its heading where those before it fit their columns.
pub proof fn lemma_task_table(items: Seq<JsonView>, i: int)
    requires
        0 <= i < items.len(),
    ensures
        ({
            let table = task_table(JsonView::Array(items));
            let row = table[i + 1];
            let id = json::member_text_or(items[i], "id"@, Seq::empty());
            let state = json::member_text_or(items[i], "state"@, ""@);
            let priority = json::member_text_or(items[i], "priority"@, "normal"@);
            let kind = json::member_text_or(items[i], "kind"@, "task"@);
            let claimer = json::member_text_or(items[i], "claimed_by"@, "-"@);
            &&& table.len() == items.len() + 1
            &&& id.len() >= 8 ==> text::has_prefix(row, id.take(8) + "  "@)
            &&& id.len() < 8 ==> text::has_prefix(row, id + "  "@)
            &&& text::has_suffix(row, "  "@ + json::member_text_or(items[i], "name"@, ""@))
            &&& column(row, 12, state)
            &&& state.len() <= 10 ==> column(row, 24, priority)
            &&& state.len() <= 10 && priority.len() <= 8 ==> column(row, 34, kind)
            &&& state.len() <= 10 && priority.len() <= 8 && kind.len() <= 10 ==> column(
                row,
                46,
                claimer,
            )
        }),
{
    let t = items[i];
    let id = json::member_text_or(t, "id"@, Seq::empty());
    let short = text::first_chars(id, 8);
    let state = json::member_text_or(t, "state"@, ""@);
    let priority = json::member_text_or(t, "priority"@, "normal"@);
    let kind = json::member_text_or(t, "kind"@, "task"@);
    let claimer = json::member_text_or(t, "claimed_by"@, "-"@);
    let name = json::member_text_or(t, "name"@, ""@);
    let row = task_row(t);
    assert(task_table(JsonView::Array(items))[i + 1] == row);
    lemma_row_ends(short, state, priority, kind, claimer, name);
    lemma_row_columns(short, state, priority, kind, claimer, name);
    if id.len() == 8 {
        assert(id.take(8) =~= id);
    }
}

proof fn lemma_row_ends(
    id: Seq<char>,
    state: Seq<char>,
    prio: Seq<char>,
    kind: Seq<char>,
    claimed: Seq<char>,
    name: Seq<char>,
)
    requires
        id.len() <= 8,
    ensures
        text::has_prefix(task_columns(id, state, prio, kind, claimed, name), id + "  "@),
        text::has_suffix(task_columns(id, state, prio, kind, claimed, name), "  "@ + name),
{
    let row = task_columns(id, state, prio, kind, claimed, name);
    reveal_strlit("  ");
    let head = id + "  "@;
    text::lemma_padded(id, 10);
    let front = text::padded(id, 10) + "  "@ + text::padded(state, 10) + "  "@ + text::padded(
        prio,
        8,
    ) + "  "@ + text::padded(kind, 10) + "  "@ + text::padded(claimed, 20);
    assert(row =~= front + ("  "@ + name));
    let tail = "  "@ + name;
    assert(row.skip(row.len() - tail.len()) =~= tail);
    assert(row.take(head.len() as int) =~= head);
}

proof fn lemma_row_columns(
    id: Seq<char>,
    state: Seq<char>,
    prio: Seq<char>,
    kind: Seq<char>,
    claimed: Seq<char>,
    name: Seq<char>,
)
    requires
        id.len() <= 8,
    ensures
        ({
            let row = task_columns(id, state, prio, kind, claimed, name);
            &&& column(row, 12, state)
            &&& state.len() <= 10 ==> column(row, 24, prio)
            &&& state.len() <= 10 && prio.len() <= 8 ==> column(row, 34, kind)
            &&& state.len() <= 10 && prio.len() <= 8 && kind.len() <= 10 ==> column(
                row,
                46,
                claimed,
            )
        }),
{
    let row = task_columns(id, state, prio, kind, claimed, name);
    reveal_strlit("  ");
    let gap = "  "@;
    let p0 = text::padded(id, 10);
    let p1 = text::padded(state, 10);
    let p2 = text::padded(prio, 8);
    let p3 = text::padded(kind, 10);
    let p4 = text::padded(claimed, 20);
    let f1 = p0 + gap;
    let f2 = f1 + p1 + gap;
    let f3 = f2 + p2 + gap;
    let f4 = f3 + p3 + gap;
    assert(row == f4 + p4 + gap + name);
    let b4 = name;
    assert(row =~= f4 + (p4 + gap) + b4);
    lemma_column(f4, claimed, 20, b4);
    let b3 = (p4 + gap) + b4;
    assert(row =~= f3 + (p3 + gap) + b3);
    lemma_column(f3, kind, 10, b3);
    let b2 = (p3 + gap) + b3;
    assert(row =~= f2 + (p2 + gap) + b2);
    lemma_column(f2, prio, 8, b2);
    let b1 = (p2 + gap) + b2;
    assert(row =~= f1 + (p1 + gap) + b1);
    lemma_column(f1, state, 10, b1);
}

/// Whether a text stands in a row from a place on, with a blank behind it.
pub open spec fn column(row: Seq<char>, at: int, s: Seq<char>) -> bool {
    &&& 0 <= at && at + s.len() < row.len()
    &&& row.subrange(at, at + s.len()) == s
    &&& row[at + s.len()] == ' '
}

proof fn lemma_column(before: Seq<char>, s: Seq<char>, width: nat, behind: Seq<char>)
    ensures
        column(before + (text::padded(s, width) + "  "@) + behind, before.len() as int, s),
{
    let row = before + (text::padded(s, width) + "  "@) + behind;
    let at = before.len() as int;
    reveal_strlit("  ");
    text::lemma_padded(s, width);
    assert(row.subrange(at, at + s.len()) =~= s);
}

/// An agent is active for fifteen seconds after its report, then idle, and
/// stale once a minute has passed. Of one whose report cannot be read nothing
/// is known.
pub proof fn lemma_presence(ms: int)
    ensures
        presence(Some(ms)) == "active"@ <==> ms <= 15_000,
        presence(Some(ms)) == "idle"@ <==> 15_000 < ms <= 60_000,
        presence(Some(ms)) == "stale"@ <==> ms > 60_000,
        presence(None) == "?"@,
{
    reveal_strlit("active");
    reveal_strlit("idle");
    reveal_strlit("stale");
    assert("active"@.len() == 6 && "idle"@.len() == 4 && "stale"@.len() == 5);
}

/// An agent is shown under its identifier and name, with the age of its last
/// report and what that makes of it.
pub proof fn lemma_agent_entry(a: JsonView, id: Seq<char>, name: Seq<char>, last: Seq<char>, now: Timestamp)
    requires
        json::member(a, "id"@) == Some(JsonView::Text(id)),
        json::member(a, "name"@) == Some(JsonView::Text(name)),
        json::member(a, "last_seen"@) == Some(JsonView::Text(last)),
    ensures
        agent_entry(a, now).id == id,
        agent_entry(a, now).name == name,
        agent_entry(a, now).age == age_label(last, now),
        agent_entry(a, now).status == presence(age_of(last, now)),
{
}

/// A row of the agents begins with the identifier and ends with the status;
/// the name and the age stand at the places of their headings where what is
/// before them fits its columns.
pub proof fn lemma_agent_row(id: Seq<char>, name: Seq<char>, age: Seq<char>, status: Seq<char>)
    ensures
        ({
            let row = agent_columns(id, name, age, status);
            &&& column(row, 0, id)
            &&& id.len() <= 22 ==> column(row, 24, name)
            &&& id.len() <= 22 && name.len() <= 22 ==> column(row, 48, age)
            &&& text::has_suffix(row, "  "@ + status)
        }),
{
    let row = agent_columns(id, name, age, status);
    reveal_strlit("  ");
    let none = Seq::<char>::empty();
    let c0 = text::padded(id, 22) + "  "@;
    let c1 = text::padded(name, 22) + "  "@;
    let c2 = text::padded(age, 8) + "  "@;
    assert(row =~= none + (c0) + (c1 + c2 + status));
    assert(row =~= c0 + (c1) + (c2 + status));
    assert(row =~= (c0 + c1) + (c2) + status);
    lemma_column(none, id, 22, c1 + c2 + status);
    lemma_column(c0, name, 22, c2 + status);
    lemma_column(c0 + c1, age, 8, status);
    let tail = "  "@ + status;
    assert(row.skip(row.len() - tail.len()) =~= tail);
}

} // verus!
