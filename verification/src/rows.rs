//! Table rows: tasks and agents as the text columns of the database.

use vstd::prelude::*;

use crate::json;
use crate::json::{Json, JsonView};
use crate::text;
use crate::time;
use crate::time::Timestamp;
use crate::types;
use crate::types::{Agent, AgentView, Task, TaskId, TaskState, TaskView};

verus! {

/// Why a row cannot be read.
#[derive(Debug, Clone, Copy, PartialEq, Eq, Structural)]
pub enum RowError {
    /// The identifier is not a UUID.
    Id,
    /// A column that holds an instant spells none.
    Instant,
    /// There is no row under the identifier.
    Missing,
}

/// A row of the task table.
#[derive(Debug, PartialEq, Eq)]
pub struct TaskRow {
    pub id: String,
    pub name: String,
    pub kind: String,
    pub priority: String,
    pub state: String,
    pub claimed_by: Option<String>,
    pub payload: String,
    pub result: Option<String>,
    pub created_at: String,
    pub updated_at: String,
    pub claimed_at: Option<String>,
    pub lease_until: Option<String>,
}

/// What a row of the task table holds.
#[verifier::ext_equal]
pub struct TaskRowView {
    pub id: Seq<char>,
    pub name: Seq<char>,
    pub kind: Seq<char>,
    pub priority: Seq<char>,
    pub state: Seq<char>,
    pub claimed_by: Option<Seq<char>>,
    pub payload: Seq<char>,
    pub result: Option<Seq<char>>,
    pub created_at: Seq<char>,
    pub updated_at: Seq<char>,
    pub claimed_at: Option<Seq<char>>,
    pub lease_until: Option<Seq<char>>,
}

impl View for TaskRow {
    type V = TaskRowView;

    open spec fn view(&self) -> TaskRowView {
        TaskRowView {
            id: self.id@,
            name: self.name@,
            kind: self.kind@,
            priority: self.priority@,
            state: self.state@,
            claimed_by: text::opt_text(self.claimed_by),
            payload: self.payload@,
            result: text::opt_text(self.result),
            created_at: self.created_at@,
            updated_at: self.updated_at@,
            claimed_at: text::opt_text(self.claimed_at),
            lease_until: text::opt_text(self.lease_until),
        }
    }
}

impl Clone for TaskRow {
    fn clone(&self) -> (r: TaskRow)
        ensures
            r@ == self@,
    {
        TaskRow {
            id: self.id.clone(),
            name: self.name.clone(),
            kind: self.kind.clone(),
            priority: self.priority.clone(),
            state: self.state.clone(),
            claimed_by: text::clone_opt(&self.claimed_by),
            payload: self.payload.clone(),
            result: text::clone_opt(&self.result),
            created_at: self.created_at.clone(),
            updated_at: self.updated_at.clone(),
            claimed_at: text::clone_opt(&self.claimed_at),
            lease_until: text::clone_opt(&self.lease_until),
        }
    }
}

/// The views of a sequence of rows.
pub open spec fn row_views(table: Seq<TaskRow>) -> Seq<TaskRowView> {
    Seq::new(table.len(), |i: int| table[i]@)
}

// ---------------------------------------------------------------------
// Reading
// ---------------------------------------------------------------------

/// The instant in a column that may be empty: `None` where the column spells
/// no instant, `Some(None)` where it is empty or absent.
pub open spec fn optional_stamp(s: Option<Seq<char>>) -> Option<Option<Timestamp>> {
    match s {
        Some(t) if t.len() > 0 => match time::read_stamp(t) {
            Some(at) => Some(Some(at)),
            None => None,
        },
        _ => Some(None),
    }
}

/// The state that a column names; a name that is not known counts as
/// pending.
pub open spec fn read_state(s: Seq<char>) -> TaskState {
    match types::state_named(s) {
        Some(state) => state,
        None => TaskState::Pending,
    }
}

/// The document that a column spells; text that is not JSON counts as
/// `null`.
pub open spec fn read_payload(s: Seq<char>) -> JsonView {
    match json::json_parse(s) {
        Some(v) => v,
        None => JsonView::Null,
    }
}

/// The document that a column spells; text that is not JSON counts as none.
pub open spec fn read_result(s: Option<Seq<char>>) -> Option<JsonView> {
    match s {
        Some(t) => json::json_parse(t),
        None => None,
    }
}

/// The task that a row holds.
pub open spec fn task_of_row(row: TaskRowView) -> Result<TaskView, RowError> {
    match types::uuid_parse(row.id) {
        None => Err(RowError::Id),
        Some(id) => match (
            time::read_stamp(row.created_at),
            time::read_stamp(row.updated_at),
            optional_stamp(row.claimed_at),
            optional_stamp(row.lease_until),
        ) {
            (Some(created_at), Some(updated_at), Some(claimed_at), Some(lease_until)) => Ok(
                TaskView {
                    id,
                    name: row.name,
                    kind: row.kind,
                    priority: row.priority,
                    state: read_state(row.state),
                    claimed_by: row.claimed_by,
                    payload: read_payload(row.payload),
                    result: read_result(row.result),
                    created_at,
                    updated_at,
                    claimed_at,
                    lease_until,
                },
            ),
            _ => Err(RowError::Instant),
        },
    }
}

/// The instant in a column that may be empty.
pub(crate) fn parse_opt_stamp(s: &Option<String>) -> (r: Option<Option<Timestamp>>)
    ensures
        r == optional_stamp(text::opt_text(*s)),
{
    match s {
        Some(t) => if t.as_str().is_empty() {
            Some(None)
        } else {
            match time::parse_stamp(t.as_str()) {
                Some(at) => Some(Some(at)),
                None => None,
            }
        },
        None => Some(None),
    }
}

/// What a reader makes of a task, or why it could not be read.
pub open spec fn task_read(r: Result<Task, RowError>) -> Result<TaskView, RowError> {
    match r {
        Ok(t) => Ok(t@),
        Err(e) => Err(e),
    }
}

/// The task that a row holds.
pub fn row_to_task(row: &TaskRow) -> (r: Result<Task, RowError>)
    ensures
        task_read(r) == task_of_row(row@),
{
    let id = match types::parse_id(row.id.as_str()) {
        Some(id) => id,
        None => return Err(RowError::Id),
    };
    let state = match TaskState::parse(row.state.as_str()) {
        Some(state) => state,
        None => TaskState::Pending,
    };
    let payload = match json::parse(row.payload.as_str()) {
        Some(v) => v,
        None => Json::Null,
    };
    let result = match &row.result {
        Some(s) => json::parse(s.as_str()),
        None => None,
    };
    let created_at = match time::parse_stamp(row.created_at.as_str()) {
        Some(at) => at,
        None => return Err(RowError::Instant),
    };
    let updated_at = match time::parse_stamp(row.updated_at.as_str()) {
        Some(at) => at,
        None => return Err(RowError::Instant),
    };
    let claimed_at = match parse_opt_stamp(&row.claimed_at) {
        Some(at) => at,
        None => return Err(RowError::Instant),
    };
    let lease_until = match parse_opt_stamp(&row.lease_until) {
        Some(at) => at,
        None => return Err(RowError::Instant),
    };
    Ok(
        Task {
            id,
            name: row.name.clone(),
            kind: row.kind.clone(),
            priority: row.priority.clone(),
            state,
            claimed_by: text::clone_opt(&row.claimed_by),
            payload,
            result,
            created_at,
            updated_at,
            claimed_at,
            lease_until,
        },
    )
}

// ---------------------------------------------------------------------
// Writing
// ---------------------------------------------------------------------

/// The spelling of an instant that may be absent.
pub open spec fn stamp_column(t: Option<Timestamp>) -> Option<Seq<char>> {
    match t {
        Some(t) => Some(time::stamp(t)),
        None => None,
    }
}

/// The row that holds a task.
pub open spec fn row_of_task(t: TaskView) -> TaskRowView {
    TaskRowView {
        id: types::uuid_text(t.id),
        name: t.name,
        kind: t.kind,
        priority: t.priority,
        state: types::state_name(t.state),
        claimed_by: t.claimed_by,
        payload: json::json_text(t.payload),
        result: match t.result {
            Some(v) => Some(json::json_text(v)),
            None => None,
        },
        created_at: time::stamp(t.created_at),
        updated_at: time::stamp(t.updated_at),
        claimed_at: stamp_column(t.claimed_at),
        lease_until: stamp_column(t.lease_until),
    }
}

/// An instant that comes back from its spelling, or none at all.
pub open spec fn stable_instant(t: Option<Timestamp>) -> bool {
    t matches Some(t) ==> time::four_digit_year(t)
}

/// A task that comes back from its row as it was: its documents are plain
/// and its instants have years of four digits.
pub open spec fn stable(t: TaskView) -> bool {
    &&& json::plain(t.payload)
    &&& (t.result matches Some(v) ==> json::plain(v))
    &&& time::four_digit_year(t.created_at)
    &&& time::four_digit_year(t.updated_at)
    &&& stable_instant(t.claimed_at)
    &&& stable_instant(t.lease_until)
}

fn stamp_opt(t: &Option<Timestamp>) -> (r: Option<String>)
    ensures
        text::opt_text(r) == stamp_column(*t),
        stable_instant(*t) ==> optional_stamp(text::opt_text(r)) == Some(*t),
{
    proof {
        reveal_strlit("+00:00");
    }
    match t {
        Some(t) => Some(time::stamp_text(t)),
        None => None,
    }
}

/// The row that holds a task. A task whose documents are plain and whose
/// years have four digits is read back from it as it was.
pub fn task_to_row(t: &Task) -> (r: TaskRow)
    ensures
        r@ == row_of_task(t@),
        stable(t@) ==> task_of_row(r@) == Ok::<TaskView, RowError>(t@),
        time::well_spelled(t@.created_at),
{
    let result = match &t.result {
        Some(v) => Some(json::to_text(v)),
        None => None,
    };
    proof {
        types::lemma_state_names(t.state, Seq::empty());
    }
    TaskRow {
        id: types::id_text(t.id),
        name: t.name.clone(),
        kind: t.kind.clone(),
        priority: t.priority.clone(),
        state: t.state.as_str().to_owned(),
        claimed_by: text::clone_opt(&t.claimed_by),
        payload: json::to_text(&t.payload),
        result,
        created_at: time::stamp_text(&t.created_at),
        updated_at: time::stamp_text(&t.updated_at),
        claimed_at: stamp_opt(&t.claimed_at),
        lease_until: stamp_opt(&t.lease_until),
    }
}

// ---------------------------------------------------------------------
// Agents
// ---------------------------------------------------------------------

/// What the column of the first report holds for agents whose first report
/// is not on record.
pub const FIRST_SEEN_UNKNOWN: &'static str = "1970-01-01T00:00:00Z";

/// A row of the agent table.
#[derive(Debug, PartialEq, Eq)]
pub struct AgentRow {
    pub id: String,
    pub name: String,
    pub last_seen: String,
    pub first_seen: String,
}

/// What a row of the agent table holds.
#[verifier::ext_equal]
pub struct AgentRowView {
    pub id: Seq<char>,
    pub name: Seq<char>,
    pub last_seen: Seq<char>,
    pub first_seen: Seq<char>,
}

impl View for AgentRow {
    type V = AgentRowView;

    open spec fn view(&self) -> AgentRowView {
        AgentRowView {
            id: self.id@,
            name: self.name@,
            last_seen: self.last_seen@,
            first_seen: self.first_seen@,
        }
    }
}

impl Clone for AgentRow {
    fn clone(&self) -> (r: AgentRow)
        ensures
            r@ == self@,
    {
        AgentRow {
            id: self.id.clone(),
            name: self.name.clone(),
            last_seen: self.last_seen.clone(),
            first_seen: self.first_seen.clone(),
        }
    }
}

/// The views of a sequence of rows.
pub open spec fn agent_row_views(table: Seq<AgentRow>) -> Seq<AgentRowView> {
    Seq::new(table.len(), |i: int| table[i]@)
}

/// The agent that a row holds, with a task that it holds a claim on.
pub open spec fn agent_of_row(row: AgentRowView, current_task: Option<TaskId>) -> Result<
    AgentView,
    RowError,
> {
    match (time::read_stamp(row.last_seen), time::read_stamp(row.first_seen)) {
        (Some(last_seen), Some(first_seen)) => Ok(
            AgentView { id: row.id, name: row.name, first_seen, last_seen, current_task },
        ),
        _ => Err(RowError::Instant),
    }
}

/// What a reader makes of an agent, or why it could not be read.
pub open spec fn agent_read(r: Result<Agent, RowError>) -> Result<AgentView, RowError> {
    match r {
        Ok(a) => Ok(a@),
        Err(e) => Err(e),
    }
}

/// The agent that a row holds, with a task that it holds a claim on.
pub fn row_to_agent(row: &AgentRow, current_task: Option<TaskId>) -> (r: Result<Agent, RowError>)
    ensures
        agent_read(r) == agent_of_row(row@, current_task),
{
    let last_seen = match time::parse_stamp(row.last_seen.as_str()) {
        Some(at) => at,
        None => return Err(RowError::Instant),
    };
    let first_seen = match time::parse_stamp(row.first_seen.as_str()) {
        Some(at) => at,
        None => return Err(RowError::Instant),
    };
    Ok(
        Agent {
            id: row.id.clone(),
            name: row.name.clone(),
            first_seen,
            last_seen,
            current_task,
        },
    )
}

// ---------------------------------------------------------------------
// Changes
// ---------------------------------------------------------------------

/// A row as it is to stand in its table, in place of the one with its
/// identifier or else behind the others.
#[derive(Debug, PartialEq, Eq)]
pub enum Change {
    Task(TaskRow),
    Agent(AgentRow),
}

/// What a change holds.
#[verifier::ext_equal]
pub enum ChangeView {
    Task(TaskRowView),
    Agent(AgentRowView),
}

impl View for Change {
    type V = ChangeView;

    open spec fn view(&self) -> ChangeView {
        match self {
            Change::Task(r) => ChangeView::Task(r@),
            Change::Agent(r) => ChangeView::Agent(r@),
        }
    }
}

/// The views of a sequence of changes.
pub open spec fn change_views(changes: Seq<Change>) -> Seq<ChangeView> {
    Seq::new(changes.len(), |i: int| changes[i]@)
}

} // verus!
