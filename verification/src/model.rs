//! The bulletin as mathematics: what it holds, and what each operation makes
//! of it.
//!
//! The bulletin is two tables of text, one of tasks and one of agents. An
//! operation finds rows by what their columns hold, and a row is read as a
//! task only where the task itself is asked for.

use vstd::prelude::*;

use crate::json;
use crate::json::JsonView;
use crate::order;
use crate::rows;
use crate::rows::{AgentRowView, ChangeView, RowError, TaskRowView};
use crate::text;
use crate::time;
use crate::time::Timestamp;
use crate::types;
use crate::types::{AgentView, TaskId, TaskState, TaskView};
use crate::vault;
use crate::vault::VaultView;

verus! {

/// What the bulletin holds: the rows of tasks and agents in the order in
/// which they came, the changes of rows that are not yet written out, and,
/// where a vault is kept, what the vault holds.
#[verifier::ext_equal]
pub struct StoreView {
    pub tasks: Seq<TaskRowView>,
    pub agents: Seq<AgentRowView>,
    pub changes: Seq<ChangeView>,
    pub vault: Option<VaultView>,
    /// The length of a lease that is not asked for, in seconds.
    pub default_lease: u64,
}

/// No two rows of tasks share an identifier.
pub open spec fn ids_unique(tasks: Seq<TaskRowView>) -> bool {
    forall|i: int, j: int|
        0 <= i < j < tasks.len() ==> (#[trigger] tasks[i]).id != (#[trigger] tasks[j]).id
}

/// No two rows of agents share an identifier.
pub open spec fn agents_unique(agents: Seq<AgentRowView>) -> bool {
    forall|i: int, j: int|
        0 <= i < j < agents.len() ==> (#[trigger] agents[i]).id != (#[trigger] agents[j]).id
}

/// A bulletin in order.
pub open spec fn well_formed(s: StoreView) -> bool {
    ids_unique(s.tasks) && agents_unique(s.agents)
}

// ---------------------------------------------------------------------
// Access
// ---------------------------------------------------------------------

/// The row whose identifier is the given text.
pub open spec fn row_at(tasks: Seq<TaskRowView>, key: Seq<char>) -> Option<TaskRowView>
    decreases tasks.len(),
{
    if tasks.len() == 0 {
        None
    } else if tasks[0].id == key {
        Some(tasks[0])
    } else {
        row_at(tasks.drop_first(), key)
    }
}

/// The row of a task, which is found by the spelling of its identifier.
pub open spec fn task_row(tasks: Seq<TaskRowView>, id: TaskId) -> Option<TaskRowView> {
    row_at(tasks, types::uuid_text(id))
}

/// The task with the given identifier, or why its row cannot be read.
pub open spec fn task_at(tasks: Seq<TaskRowView>, id: TaskId) -> Result<
    Option<TaskView>,
    RowError,
> {
    match task_row(tasks, id) {
        Some(r) => match rows::task_of_row(r) {
            Ok(t) => Ok(Some(t)),
            Err(e) => Err(e),
        },
        None => Ok(None),
    }
}

/// The tasks that rows hold, or why the first that cannot be read cannot.
pub open spec fn read_all(table: Seq<TaskRowView>) -> Result<Seq<TaskView>, RowError>
    decreases table.len(),
{
    if table.len() == 0 {
        Ok(Seq::empty())
    } else {
        match read_all(table.drop_last()) {
            Err(e) => Err(e),
            Ok(tasks) => match rows::task_of_row(table.last()) {
                Err(e) => Err(e),
                Ok(t) => Ok(tasks.push(t)),
            },
        }
    }
}

/// The rows with the one that has the identifier of `r` replaced by `r`.
pub open spec fn put(tasks: Seq<TaskRowView>, r: TaskRowView) -> Seq<TaskRowView> {
    Seq::new(
        tasks.len(),
        |i: int|
            if tasks[i].id == r.id {
                r
            } else {
                tasks[i]
            },
    )
}

/// The bulletin with a row of a task changed.
pub open spec fn saved(s: StoreView, r: TaskRowView) -> StoreView {
    StoreView { tasks: put(s.tasks, r), changes: s.changes.push(ChangeView::Task(r)), ..s }
}

/// The bulletin with a row of a task behind the others.
pub open spec fn added(s: StoreView, r: TaskRowView) -> StoreView {
    StoreView { tasks: s.tasks.push(r), changes: s.changes.push(ChangeView::Task(r)), ..s }
}

// ---------------------------------------------------------------------
// Notes
// ---------------------------------------------------------------------

/// Whose the files of the vault are.
pub open spec fn owners_of(s: StoreView) -> Seq<(Seq<char>, Seq<char>)> {
    match s.vault {
        Some(v) => v.owners,
        None => Seq::empty(),
    }
}

/// The task that a payload names under `key`, with the name of its note.
pub open spec fn relation(
    tasks: Seq<TaskRowView>,
    owners: Seq<(Seq<char>, Seq<char>)>,
    payload: JsonView,
    key: Seq<char>,
) -> Seq<(Seq<char>, Seq<char>)> {
    match json::member_text(payload, key) {
        Some(s) => match types::uuid_parse(s) {
            Some(id) => match task_at(tasks, id) {
                Ok(Some(t)) => seq![(key, vault::task_name(owners, t))],
                _ => Seq::empty(),
            },
            None => Seq::empty(),
        },
        None => Seq::empty(),
    }
}

/// The tasks that a payload refers to.
pub open spec fn relations(
    tasks: Seq<TaskRowView>,
    owners: Seq<(Seq<char>, Seq<char>)>,
    payload: JsonView,
) -> Seq<(Seq<char>, Seq<char>)> {
    relation(tasks, owners, payload, "fixed_bug_id"@) + relation(
        tasks,
        owners,
        payload,
        "related_ack"@,
    ) + relation(tasks, owners, payload, "related_bug"@) + relation(
        tasks,
        owners,
        payload,
        "bug_id"@,
    ) + relation(tasks, owners, payload, "ack_id"@) + relation(
        tasks,
        owners,
        payload,
        "blocked_by"@,
    ) + relation(tasks, owners, payload, "follows_up"@)
}

/// The bulletin once the present state of `t` is noted in the vault.
pub open spec fn noted(s: StoreView, t: TaskView) -> StoreView {
    match s.vault {
        Some(v) => StoreView {
            vault: Some(vault::task_written(v, t, relations(s.tasks, v.owners, t.payload))),
            ..s
        },
        None => s,
    }
}

/// The bulletin once an event is noted in an agent's log.
pub open spec fn told(s: StoreView, agent: Seq<char>, event: Seq<char>, now: Timestamp) -> StoreView {
    match s.vault {
        Some(v) => StoreView { vault: Some(vault::event_logged(v, agent, event, now)), ..s },
        None => s,
    }
}

/// An event that links to a task's note.
pub open spec fn link_event(s: StoreView, verb: Seq<char>, t: TaskView) -> Seq<char> {
    verb + " [["@ + vault::task_name(owners_of(s), t) + "]]"@
}

// ---------------------------------------------------------------------
// Creating tasks
// ---------------------------------------------------------------------

/// A kind whose tasks are publications rather than work.
pub open spec fn is_announcement(kind: Seq<char>) -> bool {
    kind == "ack"@ || kind == "knowledge"@ || kind == "decision"@
}

/// The state in which a task of the given kind begins.
pub open spec fn initial_state(kind: Seq<char>) -> TaskState {
    if is_announcement(kind) {
        TaskState::Completed
    } else {
        TaskState::Pending
    }
}

/// A task as it is first posted.
pub open spec fn fresh_task(
    id: TaskId,
    name: Seq<char>,
    kind: Seq<char>,
    priority: Seq<char>,
    payload: JsonView,
    now: Timestamp,
) -> TaskView {
    TaskView {
        id,
        name,
        kind,
        priority,
        state: initial_state(kind),
        claimed_by: None,
        payload,
        result: None,
        created_at: now,
        updated_at: now,
        claimed_at: None,
        lease_until: None,
    }
}

/// The bulletin with `t` posted.
pub open spec fn posted(s: StoreView, t: TaskView) -> StoreView {
    noted(added(s, rows::row_of_task(t)), t)
}

// ---------------------------------------------------------------------
// Leases
// ---------------------------------------------------------------------

/// The nearest length of a lease that is allowed: at least a second and at
/// most an hour.
pub open spec fn clamped(secs: u64) -> int {
    if secs < 1 {
        1
    } else if secs > types::MAX_LEASE_SECONDS {
        types::MAX_LEASE_SECONDS as int
    } else {
        secs as int
    }
}

/// The length of a lease: what is asked for, or else the default, within what
/// is allowed.
pub open spec fn lease_length(default_lease: u64, asked: Option<u64>) -> int {
    match asked {
        Some(n) => clamped(n),
        None => clamped(default_lease),
    }
}

/// When a lease that begins now ends.
pub open spec fn lease_end(default_lease: u64, now: Timestamp, asked: Option<u64>) -> Option<
    Timestamp,
> {
    time::seconds_after(now, lease_length(default_lease, asked))
}

/// A row under a new claim.
pub open spec fn granted(
    r: TaskRowView,
    agent: Seq<char>,
    now: Timestamp,
    until: Timestamp,
) -> TaskRowView {
    TaskRowView {
        state: "claimed"@,
        claimed_by: Some(agent),
        claimed_at: Some(time::stamp(now)),
        lease_until: Some(time::stamp(until)),
        updated_at: time::stamp(now),
        ..r
    }
}

/// What a claim makes of the bulletin, and the task where it is won: the
/// task must be pending. Where the row that was claimed cannot be read, the
/// claim stands and that is said.
pub open spec fn claim(
    s: StoreView,
    id: TaskId,
    agent: Seq<char>,
    now: Timestamp,
    until: Timestamp,
) -> (StoreView, Result<Option<TaskView>, RowError>) {
    match task_row(s.tasks, id) {
        Some(r) if r.state == "pending"@ => {
            let won = granted(r, agent, now, until);
            let s1 = saved(s, won);
            match rows::task_of_row(won) {
                Ok(t) => {
                    let s2 = noted(s1, t);
                    (told(s2, agent, link_event(s2, "claimed"@, t), now), Ok(Some(t)))
                },
                Err(e) => (s1, Err(e)),
            }
        },
        _ => (s, Ok(None)),
    }
}

/// Whether an agent holds the claim on a task.
pub open spec fn holds(r: TaskRowView, agent: Seq<char>) -> bool {
    r.state == "claimed"@ && r.claimed_by == Some(agent)
}

/// The end of a lease that is on record, where it is later than `until`.
pub open spec fn later_than(lease: Option<Seq<char>>, until: Timestamp) -> Option<Timestamp> {
    match rows::optional_stamp(lease) {
        Some(Some(end)) if until.lt(end) => Some(end),
        _ => None,
    }
}

/// When a lease ends that is asked to last until `until`: not before it was
/// to end already.
pub open spec fn later_end(lease: Option<Seq<char>>, until: Timestamp) -> Timestamp {
    match later_than(lease, until) {
        Some(end) => end,
        None => until,
    }
}

/// A row whose lease has been extended.
pub open spec fn extended(r: TaskRowView, now: Timestamp, until: Timestamp) -> TaskRowView {
    TaskRowView {
        lease_until: if later_than(r.lease_until, until) is Some {
            r.lease_until
        } else {
            Some(time::stamp(until))
        },
        updated_at: time::stamp(now),
        ..r
    }
}

/// What an extension makes of the bulletin, and when the lease then ends,
/// where it is granted: only to the agent that holds the claim.
pub open spec fn extend(
    s: StoreView,
    id: TaskId,
    agent: Seq<char>,
    now: Timestamp,
    until: Timestamp,
) -> (StoreView, Result<Option<Timestamp>, RowError>) {
    match task_row(s.tasks, id) {
        Some(r) if holds(r, agent) => {
            let e = extended(r, now, until);
            let s1 = saved(s, e);
            match rows::task_of_row(e) {
                Ok(t) => (noted(s1, t), Ok(Some(later_end(r.lease_until, until)))),
                Err(e) => (s1, Err(e)),
            }
        },
        _ => (s, Ok(None)),
    }
}

/// Whether a claim has outlived its lease: the columns hold texts, which are
/// compared as such.
pub open spec fn expired(r: TaskRowView, now: Timestamp) -> bool {
    r.state == "claimed"@ && (r.lease_until matches Some(u) && text::text_lt(u, time::stamp(now)))
}

/// A row whose claim is taken back.
pub open spec fn released(r: TaskRowView, now: Timestamp) -> TaskRowView {
    TaskRowView {
        state: "pending"@,
        claimed_by: None,
        claimed_at: None,
        lease_until: None,
        updated_at: time::stamp(now),
        ..r
    }
}

/// A row after a sweep.
pub open spec fn swept(r: TaskRowView, now: Timestamp) -> TaskRowView {
    if expired(r, now) {
        released(r, now)
    } else {
        r
    }
}

/// The rows after a sweep.
pub open spec fn swept_tasks(tasks: Seq<TaskRowView>, now: Timestamp) -> Seq<TaskRowView> {
    Seq::new(tasks.len(), |i: int| swept(tasks[i], now))
}

/// The rows whose claims have outlived their leases.
pub open spec fn expired_rows(tasks: Seq<TaskRowView>, now: Timestamp) -> Seq<TaskRowView>
    decreases tasks.len(),
{
    if tasks.len() == 0 {
        Seq::empty()
    } else if expired(tasks.last(), now) {
        expired_rows(tasks.drop_last(), now).push(tasks.last())
    } else {
        expired_rows(tasks.drop_last(), now)
    }
}

/// The changes that a sweep makes.
pub open spec fn releases(gone: Seq<TaskRowView>, now: Timestamp) -> Seq<ChangeView> {
    Seq::new(gone.len(), |i: int| ChangeView::Task(released(gone[i], now)))
}

/// The bulletin with its rows swept.
pub open spec fn rows_swept(s: StoreView, now: Timestamp) -> StoreView {
    StoreView {
        tasks: swept_tasks(s.tasks, now),
        changes: s.changes + releases(expired_rows(s.tasks, now), now),
        ..s
    }
}

/// The tasks once more, each found by its identifier.
pub open spec fn refetched(tasks: Seq<TaskRowView>, before: Seq<TaskView>) -> Result<
    Seq<TaskView>,
    RowError,
>
    decreases before.len(),
{
    if before.len() == 0 {
        Ok(Seq::empty())
    } else {
        match refetched(tasks, before.drop_last()) {
            Err(e) => Err(e),
            Ok(after) => match task_at(tasks, before.last().id) {
                Err(e) => Err(e),
                Ok(None) => Err(RowError::Missing),
                Ok(Some(t)) => Ok(after.push(t)),
            },
        }
    }
}

/// The first of the tasks with the given identifier.
pub open spec fn first_with(tasks: Seq<TaskView>, id: TaskId) -> Option<TaskView>
    decreases tasks.len(),
{
    if tasks.len() == 0 {
        None
    } else if tasks[0].id == id {
        Some(tasks[0])
    } else {
        first_with(tasks.drop_first(), id)
    }
}

/// What an agent's log says of a claim that was taken back.
pub open spec fn abandoned_event(s: StoreView, t: TaskView) -> Seq<char> {
    link_event(s, "abandoned"@, t) + " (lease expired at "@ + (match t.lease_until {
        Some(u) => time::stamp(u),
        None => "unknown"@,
    }) + ")"@
}

/// The bulletin once the end of one claim is noted, in the log of the agent
/// that held it and for the task.
pub open spec fn abandonment_noted(
    s: StoreView,
    before: Option<TaskView>,
    after: TaskView,
    now: Timestamp,
) -> StoreView {
    let s1 = match before {
        Some(b) => match b.claimed_by {
            Some(agent) => told(s, agent, abandoned_event(s, b), now),
            None => s,
        },
        None => s,
    };
    noted(s1, after)
}

/// The bulletin once the end of each of the first `k` claims is noted.
pub open spec fn abandonments_noted(
    s: StoreView,
    before: Seq<TaskView>,
    after: Seq<TaskView>,
    now: Timestamp,
    k: nat,
) -> StoreView
    decreases k,
{
    if k == 0 {
        s
    } else {
        let i = k - 1;
        abandonment_noted(
            abandonments_noted(s, before, after, now, i as nat),
            first_with(before, before[i].id),
            after[i],
            now,
        )
    }
}

/// What a sweep makes of the bulletin, and the tasks that it returned to it,
/// as they are afterwards. Where one of the rows to be swept cannot be read
/// nothing is swept; where one cannot be found again by the spelling of its
/// identifier, the rows are swept and that is said.
pub open spec fn reclaim(s: StoreView, now: Timestamp) -> (
    StoreView,
    Result<Seq<TaskView>, RowError>,
) {
    match read_all(expired_rows(s.tasks, now)) {
        Err(e) => (s, Err(e)),
        Ok(before) => if before.len() == 0 {
            (s, Ok(before))
        } else {
            let s1 = rows_swept(s, now);
            match refetched(s1.tasks, before) {
                Err(e) => (s1, Err(e)),
                Ok(after) => (
                    abandonments_noted(s1, before, after, now, before.len()),
                    Ok(after),
                ),
            }
        },
    }
}

// ---------------------------------------------------------------------
// Ends
// ---------------------------------------------------------------------

/// A row that was completed.
pub open spec fn completed(r: TaskRowView, result: JsonView, now: Timestamp) -> TaskRowView {
    TaskRowView {
        state: "completed"@,
        result: Some(json::json_text(result)),
        lease_until: None,
        updated_at: time::stamp(now),
        ..r
    }
}

/// The bulletin once the completion of `c` is noted.
pub open spec fn completion_noted(s: StoreView, c: TaskView, now: Timestamp) -> StoreView {
    let s1 = noted(s, c);
    match c.claimed_by {
        Some(agent) => told(s1, agent, link_event(s1, "completed"@, c), now),
        None => s1,
    }
}

/// What a completion makes of the bulletin, and whether it is accepted: the
/// task must be claimed.
pub open spec fn complete(s: StoreView, id: TaskId, result: JsonView, now: Timestamp) -> (
    StoreView,
    Result<bool, RowError>,
) {
    match task_row(s.tasks, id) {
        Some(r) if r.state == "claimed"@ => {
            let c = completed(r, result, now);
            let s1 = saved(s, c);
            match rows::task_of_row(c) {
                Ok(t) => (completion_noted(s1, t, now), Ok(true)),
                Err(e) => (s1, Err(e)),
            }
        },
        _ => (s, Ok(false)),
    }
}

/// A row that was called off.
pub open spec fn cancelled(r: TaskRowView, now: Timestamp) -> TaskRowView {
    TaskRowView {
        state: "cancelled"@,
        lease_until: None,
        updated_at: time::stamp(now),
        ..r
    }
}

/// What a cancellation makes of the bulletin, and whether the row could be
/// read.
pub open spec fn cancel(s: StoreView, id: TaskId, now: Timestamp) -> (
    StoreView,
    Result<(), RowError>,
) {
    match task_row(s.tasks, id) {
        Some(r) => {
            let c = cancelled(r, now);
            let s1 = saved(s, c);
            match rows::task_of_row(c) {
                Ok(t) => (noted(s1, t), Ok(())),
                Err(e) => (s1, Err(e)),
            }
        },
        None => (s, Ok(())),
    }
}

// ---------------------------------------------------------------------
// Acknowledgements
// ---------------------------------------------------------------------

/// The members of an acknowledgement's payload: those that were handed in,
/// and the identifier of the task that it acknowledges.
pub open spec fn ack_payload(given: Seq<(Seq<char>, JsonView)>, source: TaskId) -> JsonView {
    JsonView::Object(
        json::with_member(given, "fixed_bug_id"@, JsonView::Text(types::uuid_text(source))),
    )
}

/// The bulletin once the completed row `c`, read as `t`, and the
/// acknowledgement `ack` are in their places and both are noted.
pub open spec fn acknowledged(
    s: StoreView,
    c: TaskRowView,
    t: TaskView,
    ack: TaskView,
    now: Timestamp,
) -> StoreView {
    noted(completion_noted(added(saved(s, c), rows::row_of_task(ack)), t, now), ack)
}

/// What a completion with an acknowledgement makes of the bulletin: the task
/// is completed and the acknowledgement `ack` posted, in one step. Neither
/// happens where the task cannot be read.
pub open spec fn complete_with_ack(
    s: StoreView,
    id: TaskId,
    result: JsonView,
    ack: TaskView,
    now: Timestamp,
) -> StoreView {
    match task_row(s.tasks, id) {
        Some(r) if r.state == "claimed"@ => match rows::task_of_row(completed(r, result, now)) {
            Ok(t) => acknowledged(s, completed(r, result, now), t, ack, now),
            Err(_) => s,
        },
        _ => s,
    }
}

// ---------------------------------------------------------------------
// Listing tasks
// ---------------------------------------------------------------------

/// What a listing is narrowed to.
#[verifier::ext_equal]
pub struct FilterView {
    pub state: Option<Seq<char>>,
    pub kind: Option<Seq<char>>,
    pub priority: Option<Seq<char>>,
}

/// The filter that every task passes.
pub open spec fn no_filter() -> FilterView {
    FilterView { state: None, kind: None, priority: None }
}

/// Whether a row passes a filter.
pub open spec fn admits(f: FilterView, r: TaskRowView) -> bool {
    &&& (f.state matches Some(s) ==> r.state == s)
    &&& (f.kind matches Some(k) ==> r.kind == k)
    &&& (f.priority matches Some(p) ==> r.priority == p)
}

/// The rows that pass a filter.
pub open spec fn admitted(tasks: Seq<TaskRowView>, f: FilterView) -> Seq<TaskRowView>
    decreases tasks.len(),
{
    if tasks.len() == 0 {
        Seq::empty()
    } else if admits(f, tasks.last()) {
        admitted(tasks.drop_last(), f).push(tasks.last())
    } else {
        admitted(tasks.drop_last(), f)
    }
}

/// What the rows have for the time of their creation.
pub open spec fn created_ats(tasks: Seq<TaskRowView>) -> Seq<Seq<char>> {
    Seq::new(tasks.len(), |i: int| tasks[i].created_at)
}

/// The rows that pass a filter, the newest first, at most `limit` of them.
pub open spec fn listed(tasks: Seq<TaskRowView>, limit: nat, f: FilterView) -> Seq<TaskRowView> {
    order::newest(admitted(tasks, f), created_ats(admitted(tasks, f)), limit)
}

// ---------------------------------------------------------------------
// Agents
// ---------------------------------------------------------------------

/// A row after a report: the first report on record stays.
pub open spec fn reported(a: AgentRowView, name: Seq<char>, now: Timestamp) -> AgentRowView {
    AgentRowView {
        id: a.id,
        name,
        last_seen: time::stamp(now),
        first_seen: if a.first_seen == rows::FIRST_SEEN_UNKNOWN@ {
            time::stamp(now)
        } else {
            a.first_seen
        },
    }
}

/// The row of an agent that reports for the first time.
pub open spec fn first_row(id: Seq<char>, name: Seq<char>, now: Timestamp) -> AgentRowView {
    AgentRowView { id, name, last_seen: time::stamp(now), first_seen: time::stamp(now) }
}

/// The row of an agent.
pub open spec fn agent_at(agents: Seq<AgentRowView>, id: Seq<char>) -> Option<AgentRowView>
    decreases agents.len(),
{
    if agents.len() == 0 {
        None
    } else if agents[0].id == id {
        Some(agents[0])
    } else {
        agent_at(agents.drop_first(), id)
    }
}

/// The row of an agent after a report.
pub open spec fn row_reported(
    agents: Seq<AgentRowView>,
    id: Seq<char>,
    name: Seq<char>,
    now: Timestamp,
) -> AgentRowView {
    match agent_at(agents, id) {
        Some(a) => reported(a, name, now),
        None => first_row(id, name, now),
    }
}

/// The rows with the one that has the identifier of `a` replaced by `a`.
pub open spec fn put_agent(agents: Seq<AgentRowView>, a: AgentRowView) -> Seq<AgentRowView> {
    Seq::new(
        agents.len(),
        |i: int|
            if agents[i].id == a.id {
                a
            } else {
                agents[i]
            },
    )
}

/// The rows after a report.
pub open spec fn with_report(
    agents: Seq<AgentRowView>,
    id: Seq<char>,
    name: Seq<char>,
    now: Timestamp,
) -> Seq<AgentRowView> {
    if agent_at(agents, id) is Some {
        put_agent(agents, row_reported(agents, id, name, now))
    } else {
        agents.push(row_reported(agents, id, name, now))
    }
}

/// The bulletin after an agent's report.
pub open spec fn heartbeat(
    s: StoreView,
    id: Seq<char>,
    name: Seq<char>,
    now: Timestamp,
) -> StoreView {
    StoreView {
        agents: with_report(s.agents, id, name, now),
        changes: s.changes.push(ChangeView::Agent(row_reported(s.agents, id, name, now))),
        vault: match s.vault {
            Some(v) => Some(vault::log_begun(v, id, name, now)),
            None => None,
        },
        ..s
    }
}

/// The first row on which an agent holds the claim.
pub open spec fn held_row(tasks: Seq<TaskRowView>, agent: Seq<char>) -> Option<TaskRowView>
    decreases tasks.len(),
{
    if tasks.len() == 0 {
        None
    } else if holds(tasks[0], agent) {
        Some(tasks[0])
    } else {
        held_row(tasks.drop_first(), agent)
    }
}

/// The task that an agent holds a claim on.
pub open spec fn current_task(tasks: Seq<TaskRowView>, agent: Seq<char>) -> Option<TaskId> {
    match held_row(tasks, agent) {
        Some(r) => types::uuid_parse(r.id),
        None => None,
    }
}

/// What the rows have for the time of the last report.
pub open spec fn last_seens(agents: Seq<AgentRowView>) -> Seq<Seq<char>> {
    Seq::new(agents.len(), |i: int| agents[i].last_seen)
}

/// The rows of agents, the one that reported last first.
pub open spec fn agents_in_order(agents: Seq<AgentRowView>) -> Seq<AgentRowView> {
    order::newest(agents, last_seens(agents), agents.len())
}

/// The agents that rows hold, each with a task that it holds, or why the
/// first that cannot be read cannot.
pub open spec fn agents_read(table: Seq<AgentRowView>, tasks: Seq<TaskRowView>) -> Result<
    Seq<AgentView>,
    RowError,
>
    decreases table.len(),
{
    if table.len() == 0 {
        Ok(Seq::empty())
    } else {
        match agents_read(table.drop_last(), tasks) {
            Err(e) => Err(e),
            Ok(agents) => match rows::agent_of_row(
                table.last(),
                current_task(tasks, table.last().id),
            ) {
                Err(e) => Err(e),
                Ok(a) => Ok(agents.push(a)),
            },
        }
    }
}

/// The agents as readers see them, the one that reported last first.
pub open spec fn agents_listed(s: StoreView) -> Result<Seq<AgentView>, RowError> {
    agents_read(agents_in_order(s.agents), s.tasks)
}

// ---------------------------------------------------------------------
// Tables
// ---------------------------------------------------------------------

/// A table of tasks once a row is written to it.
pub open spec fn upserted(tasks: Seq<TaskRowView>, r: TaskRowView) -> Seq<TaskRowView> {
    if row_at(tasks, r.id) is Some {
        put(tasks, r)
    } else {
        tasks.push(r)
    }
}

/// A table of agents once a row is written to it.
pub open spec fn agent_upserted(agents: Seq<AgentRowView>, a: AgentRowView) -> Seq<AgentRowView> {
    if agent_at(agents, a.id) is Some {
        put_agent(agents, a)
    } else {
        agents.push(a)
    }
}

/// The two tables once changes are written to them in order.
pub open spec fn written(
    tasks: Seq<TaskRowView>,
    agents: Seq<AgentRowView>,
    changes: Seq<ChangeView>,
) -> (Seq<TaskRowView>, Seq<AgentRowView>)
    decreases changes.len(),
{
    if changes.len() == 0 {
        (tasks, agents)
    } else {
        let (t, a) = written(tasks, agents, changes.drop_last());
        match changes.last() {
            ChangeView::Task(r) => (upserted(t, r), a),
            ChangeView::Agent(r) => (t, agent_upserted(a, r)),
        }
    }
}

} // verus!
