//! The bulletin: its tables, the vault's notes and every change of state as
//! one step.
//!
//! Each operation that depends on the clock comes twice: under a name ending
//! in `_at` it is told the time, and under its plain name it reads the clock
//! and, for a new task, draws an identifier.
//!
//! A row that cannot be read is kept like any other. It is an error only to
//! an operation that has to read it.

use vstd::prelude::*;

use crate::json;
use crate::json::{Json, JsonObject, JsonView};
use crate::model;
use crate::model::{FilterView, StoreView};
use crate::order;
use crate::rows;
use crate::rows::{
    AgentRow, AgentRowView, Change, ChangeView, RowError, TaskRow, TaskRowView, FIRST_SEEN_UNKNOWN,
};
use crate::text;
use crate::time;
use crate::time::Timestamp;
use crate::types;
use crate::types::{
    Agent, AgentView, Task, TaskId, TaskState, TaskView, DEFAULT_KIND, DEFAULT_PRIORITY,
};
use crate::vault;
use crate::vault::{Note, Owner, Relation, Vault};

verus! {

// ---------------------------------------------------------------------
// Types
// ---------------------------------------------------------------------

/// What a listing is narrowed to: each field that is set must agree with the
/// task.
#[derive(Debug)]
pub struct TaskFilter {
    pub state: Option<String>,
    pub kind: Option<String>,
    pub priority: Option<String>,
}

impl View for TaskFilter {
    type V = FilterView;

    open spec fn view(&self) -> FilterView {
        FilterView {
            state: text::opt_text(self.state),
            kind: text::opt_text(self.kind),
            priority: text::opt_text(self.priority),
        }
    }
}

impl Default for TaskFilter {
    fn default() -> (f: TaskFilter)
        ensures
            f@ == model::no_filter(),
    {
        TaskFilter { state: None, kind: None, priority: None }
    }
}

impl Clone for TaskFilter {
    fn clone(&self) -> (f: TaskFilter)
        ensures
            f@ == self@,
    {
        TaskFilter {
            state: text::clone_opt(&self.state),
            kind: text::clone_opt(&self.kind),
            priority: text::clone_opt(&self.priority),
        }
    }
}

/// Why an operation on the bulletin failed.
#[derive(Debug, Clone, Copy, PartialEq, Eq, Structural)]
pub enum StoreError {
    /// A row cannot be read.
    Row(RowError),
    /// There is a task with this identifier already.
    DuplicateTask,
    /// There is an agent with this identifier already.
    DuplicateAgent,
    /// The lease would end after the last instant there is.
    LeaseEnd,
}

/// What an error says.
pub open spec fn error_text(e: StoreError) -> Seq<char> {
    match e {
        StoreError::Row(RowError::Id) => "row has an invalid task id"@,
        StoreError::Row(RowError::Instant) => "row has an invalid timestamp"@,
        StoreError::Row(RowError::Missing) => "Query returned no rows"@,
        StoreError::DuplicateTask => "UNIQUE constraint failed: tasks.id"@,
        StoreError::DuplicateAgent => "UNIQUE constraint failed: agents.id"@,
        StoreError::LeaseEnd => "lease ends out of range"@,
    }
}

impl StoreError {
    /// What the error says.
    pub fn message(&self) -> (r: &'static str)
        ensures
            r@ == error_text(*self),
    {
        match self {
            StoreError::Row(RowError::Id) => "row has an invalid task id",
            StoreError::Row(RowError::Instant) => "row has an invalid timestamp",
            StoreError::Row(RowError::Missing) => "Query returned no rows",
            StoreError::DuplicateTask => "UNIQUE constraint failed: tasks.id",
            StoreError::DuplicateAgent => "UNIQUE constraint failed: agents.id",
            StoreError::LeaseEnd => "lease ends out of range",
        }
    }
}

/// What an acknowledgement says; what is left out has a default.
#[derive(Debug)]
pub struct Ack {
    pub name: Option<String>,
    pub priority: Option<String>,
    pub payload: JsonObject,
}

/// The bulletin.
#[derive(Debug)]
pub struct Store {
    tasks: Vec<TaskRow>,
    agents: Vec<AgentRow>,
    changes: Vec<Change>,
    vault: Option<Vault>,
    default_lease: u64,
}

/// The view of a task that may be missing.
pub open spec fn opt_task(t: Option<Task>) -> Option<TaskView> {
    match t {
        Some(t) => Some(t@),
        None => None,
    }
}

/// A task or none that agrees with the model's, or else the error of a row.
pub open spec fn task_result(
    r: Result<Option<Task>, StoreError>,
    m: Result<Option<TaskView>, RowError>,
) -> bool {
    match m {
        Ok(t) => r matches Ok(u) && opt_task(u) == t,
        Err(e) => r == Err::<Option<Task>, StoreError>(StoreError::Row(e)),
    }
}

/// A list of tasks that agrees with the model's.
pub open spec fn tasks_result(
    r: Result<Vec<Task>, StoreError>,
    m: Result<Seq<TaskView>, RowError>,
) -> bool {
    match m {
        Ok(t) => r matches Ok(u) && types::task_views(u@) == t,
        Err(e) => r == Err::<Vec<Task>, StoreError>(StoreError::Row(e)),
    }
}

/// A plain result with the error of a row as the bulletin's.
pub open spec fn lifted<T>(m: Result<T, RowError>) -> Result<T, StoreError> {
    match m {
        Ok(t) => Ok(t),
        Err(e) => Err(StoreError::Row(e)),
    }
}

impl View for Store {
    type V = StoreView;

    closed spec fn view(&self) -> StoreView {
        StoreView {
            tasks: rows::row_views(self.tasks@),
            agents: rows::agent_row_views(self.agents@),
            changes: rows::change_views(self.changes@),
            vault: match self.vault {
                Some(v) => Some(v@),
                None => None,
            },
            default_lease: self.default_lease,
        }
    }
}

impl Store {
    /// No identifier occurs twice.
    pub open spec fn wf(&self) -> bool {
        model::well_formed(self@)
    }
}

/// Replacing a row changes what is found under its identifier, and nothing
/// else.
pub proof fn lemma_put(tasks: Seq<TaskRowView>, r: TaskRowView, key: Seq<char>)
    ensures
        model::row_at(model::put(tasks, r), key) == if key == r.id && model::row_at(
            tasks,
            key,
        ) is Some {
            Some(r)
        } else {
            model::row_at(tasks, key)
        },
    decreases tasks.len(),
{
    if tasks.len() > 0 {
        lemma_put(tasks.drop_first(), r, key);
        assert(model::put(tasks, r).drop_first() =~= model::put(tasks.drop_first(), r));
    }
}

/// A row that is found is one of the rows, and one of the rows is found under
/// its identifier where identifiers are unique.
pub proof fn lemma_row_at(tasks: Seq<TaskRowView>, key: Seq<char>)
    ensures
        match model::row_at(tasks, key) {
            Some(r) => r.id == key && tasks.contains(r),
            None => forall|i: int| 0 <= i < tasks.len() ==> (#[trigger] tasks[i]).id != key,
        },
        model::ids_unique(tasks) ==> forall|i: int|
            0 <= i < tasks.len() && (#[trigger] tasks[i]).id == key ==> model::row_at(tasks, key)
                == Some(tasks[i]),
    decreases tasks.len(),
{
    if tasks.len() > 0 {
        let rest = tasks.drop_first();
        lemma_row_at(rest, key);
        if tasks[0].id == key {
            assert(tasks.contains(tasks[0]));
        } else {
            match model::row_at(rest, key) {
                Some(r) => {
                    let k = choose|k: int| 0 <= k < rest.len() && rest[k] == r;
                    assert(tasks[k + 1] == r);
                },
                None => {
                    assert forall|i: int| 0 <= i < tasks.len() implies (#[trigger] tasks[i]).id
                        != key by {
                        if i > 0 {
                            assert(rest[i - 1] == tasks[i]);
                        }
                    }
                },
            }
        }
        if model::ids_unique(tasks) {
            assert(model::ids_unique(rest)) by {
                assert forall|i: int, j: int| 0 <= i < j < rest.len() implies (
                #[trigger] rest[i]).id != (#[trigger] rest[j]).id by {
                    assert(rest[i] == tasks[i + 1] && rest[j] == tasks[j + 1]);
                }
            }
            assert forall|i: int| 0 <= i < tasks.len() && (#[trigger] tasks[i]).id == key implies
                model::row_at(tasks, key) == Some(tasks[i]) by {
                if i > 0 {
                    assert(rest[i - 1] == tasks[i]);
                    assert(tasks[0].id != tasks[i].id);
                }
            }
        }
    }
}

/// A row with a new identifier keeps identifiers unique.
pub proof fn lemma_push_unique(tasks: Seq<TaskRowView>, r: TaskRowView)
    requires
        model::ids_unique(tasks),
        model::row_at(tasks, r.id) is None,
    ensures
        model::ids_unique(tasks.push(r)),
{
    lemma_row_at(tasks, r.id);
}

/// Replacing a row keeps identifiers unique.
pub proof fn lemma_put_unique(tasks: Seq<TaskRowView>, r: TaskRowView)
    requires
        model::ids_unique(tasks),
    ensures
        model::ids_unique(model::put(tasks, r)),
{
    let out = model::put(tasks, r);
    assert forall|i: int, j: int| 0 <= i < j < out.len() implies (#[trigger] out[i]).id != (
    #[trigger] out[j]).id by {
        assert(tasks[i].id != tasks[j].id);
    }
}

/// A sweep keeps identifiers unique.
pub proof fn lemma_swept_unique(tasks: Seq<TaskRowView>, now: Timestamp)
    requires
        model::ids_unique(tasks),
    ensures
        model::ids_unique(model::swept_tasks(tasks, now)),
{
    let out = model::swept_tasks(tasks, now);
    assert forall|i: int, j: int| 0 <= i < j < out.len() implies (#[trigger] out[i]).id != (
    #[trigger] out[j]).id by {
        assert(tasks[i].id != tasks[j].id);
    }
}

/// An agent that is found is one of the rows.
pub proof fn lemma_agent_at(agents: Seq<AgentRowView>, id: Seq<char>)
    ensures
        match model::agent_at(agents, id) {
            Some(a) => a.id == id && agents.contains(a),
            None => forall|i: int| 0 <= i < agents.len() ==> (#[trigger] agents[i]).id != id,
        },
    decreases agents.len(),
{
    if agents.len() > 0 {
        let rest = agents.drop_first();
        lemma_agent_at(rest, id);
        if agents[0].id == id {
            assert(agents.contains(agents[0]));
        } else {
            match model::agent_at(rest, id) {
                Some(a) => {
                    let k = choose|k: int| 0 <= k < rest.len() && rest[k] == a;
                    assert(agents[k + 1] == a);
                },
                None => {
                    assert forall|i: int| 0 <= i < agents.len() implies (#[trigger] agents[i]).id
                        != id by {
                        if i > 0 {
                            assert(rest[i - 1] == agents[i]);
                        }
                    }
                },
            }
        }
    }
}

/// A report keeps identifiers unique.
pub proof fn lemma_report_unique(
    agents: Seq<AgentRowView>,
    id: Seq<char>,
    name: Seq<char>,
    now: Timestamp,
)
    requires
        model::agents_unique(agents),
    ensures
        model::agents_unique(model::with_report(agents, id, name, now)),
{
    lemma_agent_at(agents, id);
    let out = model::with_report(agents, id, name, now);
    assert forall|i: int, j: int| 0 <= i < j < out.len() implies (#[trigger] out[i]).id != (
    #[trigger] out[j]).id by {
        if j < agents.len() {
            assert(agents[i].id != agents[j].id);
        } else {
            assert(agents[i].id != id);
        }
    }
}

// ---------------------------------------------------------------------
// Finding and reading rows
// ---------------------------------------------------------------------

/// The position of the row whose identifier is the given text.
fn index_of(tasks: &Vec<TaskRow>, key: &str) -> (r: Option<usize>)
    ensures
        match r {
            Some(i) => i < tasks@.len() && tasks@[i as int].id@ == key@ && model::row_at(
                rows::row_views(tasks@),
                key@,
            ) == Some(tasks@[i as int]@),
            None => model::row_at(rows::row_views(tasks@), key@) is None,
        },
{
    let cs = text::chars_of(key);
    let mut i: usize = 0;
    let ghost all = rows::row_views(tasks@);
    assert(all.skip(0) =~= all);
    while i < tasks.len()
        invariant
            i <= tasks.len(),
            cs@ == key@,
            all == rows::row_views(tasks@),
            model::row_at(all, key@) == model::row_at(all.skip(i as int), key@),
        decreases tasks.len() - i,
    {
        assert(all.skip(i as int).drop_first() =~= all.skip(i + 1));
        assert(all.skip(i as int)[0] == tasks@[i as int]@);
        if text::same_chars(tasks[i].id.as_str(), &cs) {
            return Some(i);
        }
        i = i + 1;
    }
    None
}

/// The position of the row of a task.
fn task_index(tasks: &Vec<TaskRow>, id: TaskId) -> (r: Option<usize>)
    ensures
        match r {
            Some(i) => i < tasks@.len() && tasks@[i as int].id@ == types::uuid_text(id)
                && model::task_row(rows::row_views(tasks@), id) == Some(tasks@[i as int]@),
            None => model::task_row(rows::row_views(tasks@), id) is None,
        },
{
    index_of(tasks, types::id_text(id).as_str())
}

/// The position of the row of an agent.
fn agent_index(agents: &Vec<AgentRow>, id: &str) -> (r: Option<usize>)
    ensures
        match r {
            Some(i) => i < agents@.len() && agents@[i as int].id@ == id@ && model::agent_at(
                rows::agent_row_views(agents@),
                id@,
            ) == Some(agents@[i as int]@),
            None => model::agent_at(rows::agent_row_views(agents@), id@) is None,
        },
{
    let cs = text::chars_of(id);
    let mut i: usize = 0;
    let ghost all = rows::agent_row_views(agents@);
    assert(all.skip(0) =~= all);
    while i < agents.len()
        invariant
            i <= agents.len(),
            cs@ == id@,
            all == rows::agent_row_views(agents@),
            model::agent_at(all, id@) == model::agent_at(all.skip(i as int), id@),
        decreases agents.len() - i,
    {
        assert(all.skip(i as int).drop_first() =~= all.skip(i + 1));
        assert(all.skip(i as int)[0] == agents@[i as int]@);
        if text::same_chars(agents[i].id.as_str(), &cs) {
            return Some(i);
        }
        i = i + 1;
    }
    None
}

/// The task with the given identifier.
fn find_task(tasks: &Vec<TaskRow>, id: TaskId) -> (r: Result<Option<Task>, RowError>)
    ensures
        match model::task_at(rows::row_views(tasks@), id) {
            Ok(t) => r matches Ok(u) && opt_task(u) == t,
            Err(e) => r == Err::<Option<Task>, RowError>(e),
        },
{
    match task_index(tasks, id) {
        Some(i) => match rows::row_to_task(&tasks[i]) {
            Ok(t) => Ok(Some(t)),
            Err(e) => Err(e),
        },
        None => Ok(None),
    }
}

/// The rows at the given positions.
pub open spec fn picked(tasks: Seq<TaskRowView>, at: Seq<usize>) -> Seq<TaskRowView> {
    Seq::new(at.len(), |k: int| tasks[at[k] as int])
}

proof fn lemma_unreadable(table: Seq<TaskRowView>, k: int)
    requires
        0 <= k <= table.len(),
        model::read_all(table.take(k)) is Err,
    ensures
        model::read_all(table) == model::read_all(table.take(k)),
    decreases table.len() - k,
{
    if k < table.len() {
        assert(table.take(k + 1).drop_last() =~= table.take(k));
        lemma_unreadable(table, k + 1);
    } else {
        assert(table.take(k) =~= table);
    }
}

/// The tasks that the rows at the given positions hold.
fn read_rows(tasks: &Vec<TaskRow>, at: &Vec<usize>) -> (r: Result<Vec<Task>, RowError>)
    requires
        forall|k: int| 0 <= k < at@.len() ==> #[trigger] at@[k] < tasks@.len(),
    ensures
        match model::read_all(picked(rows::row_views(tasks@), at@)) {
            Ok(t) => r matches Ok(u) && types::task_views(u@) == t,
            Err(e) => r == Err::<Vec<Task>, RowError>(e),
        },
{
    let ghost table = picked(rows::row_views(tasks@), at@);
    let mut out: Vec<Task> = Vec::new();
    let mut k: usize = 0;
    assert(types::task_views(out@) =~= Seq::<TaskView>::empty());
    assert(table.take(0) =~= Seq::<TaskRowView>::empty());
    while k < at.len()
        invariant
            k <= at.len(),
            table == picked(rows::row_views(tasks@), at@),
            forall|j: int| 0 <= j < at@.len() ==> #[trigger] at@[j] < tasks@.len(),
            model::read_all(table.take(k as int)) == Ok::<Seq<TaskView>, RowError>(
                types::task_views(out@),
            ),
        decreases at.len() - k,
    {
        let ghost seen = table.take(k + 1);
        let ghost before = out@;
        assert(seen.drop_last() =~= table.take(k as int));
        assert(seen.last() == tasks@[at@[k as int] as int]@);
        match rows::row_to_task(&tasks[at[k]]) {
            Ok(t) => {
                out.push(t);
                assert(types::task_views(out@) =~= types::task_views(before).push(t@));
            },
            Err(e) => {
                proof {
                    lemma_unreadable(table, k + 1);
                }
                return Err(e);
            },
        }
        k = k + 1;
    }
    assert(table.take(table.len() as int) =~= table);
    Ok(out)
}

// ---------------------------------------------------------------------
// Opening
// ---------------------------------------------------------------------

/// What tables hold when they are opened. A table in which an identifier
/// occurs twice is none.
pub open spec fn opened(
    tasks: Seq<TaskRowView>,
    agents: Seq<AgentRowView>,
    owners: Option<Seq<(Seq<char>, Seq<char>)>>,
) -> Result<StoreView, StoreError> {
    if !model::ids_unique(tasks) {
        Err(StoreError::DuplicateTask)
    } else if !model::agents_unique(agents) {
        Err(StoreError::DuplicateAgent)
    } else {
        Ok(
            StoreView {
                tasks,
                agents,
                changes: Seq::empty(),
                vault: match owners {
                    Some(owners) => Some(vault::front_page(owners)),
                    None => None,
                },
                default_lease: types::DEFAULT_LEASE_SECONDS,
            },
        )
    }
}

/// What an opened bulletin holds, or why it could not be opened.
pub open spec fn store_read(r: Result<Store, StoreError>) -> Result<StoreView, StoreError> {
    match r {
        Ok(s) => Ok(s@),
        Err(e) => Err(e),
    }
}

/// What a list of owners holds, where there is one.
pub open spec fn opt_owners(owners: Option<Vec<Owner>>) -> Option<Seq<(Seq<char>, Seq<char>)>> {
    match owners {
        Some(o) => Some(vault::owner_views(o@)),
        None => None,
    }
}

fn copy_tasks(table: &Vec<TaskRow>) -> (r: Option<Vec<TaskRow>>)
    ensures
        match r {
            Some(t) => rows::row_views(t@) == rows::row_views(table@) && model::ids_unique(
                rows::row_views(table@),
            ),
            None => !model::ids_unique(rows::row_views(table@)),
        },
{
    let ghost all = rows::row_views(table@);
    let mut out: Vec<TaskRow> = Vec::new();
    let mut i: usize = 0;
    while i < table.len()
        invariant
            i <= table.len(),
            all == rows::row_views(table@),
            out@.len() == i,
            rows::row_views(out@) =~= all.take(i as int),
            model::ids_unique(all.take(i as int)),
        decreases table.len() - i,
    {
        let ghost seen = all.take(i as int);
        match index_of(&out, table[i].id.as_str()) {
            Some(j) => {
                proof {
                    assert(rows::row_views(out@)[j as int].id == all[i as int].id);
                    assert(all[j as int] == seen[j as int]);
                    assert(all[j as int].id == all[i as int].id);
                }
                return None;
            },
            None => {},
        }
        proof {
            lemma_push_unique(seen, all[i as int]);
            assert(all.take(i + 1) =~= seen.push(all[i as int]));
        }
        out.push(table[i].clone());
        i = i + 1;
    }
    assert(all.take(all.len() as int) =~= all);
    Some(out)
}

fn copy_agents(table: &Vec<AgentRow>) -> (r: Option<Vec<AgentRow>>)
    ensures
        match r {
            Some(t) => rows::agent_row_views(t@) == rows::agent_row_views(table@)
                && model::agents_unique(rows::agent_row_views(table@)),
            None => !model::agents_unique(rows::agent_row_views(table@)),
        },
{
    let ghost all = rows::agent_row_views(table@);
    let mut out: Vec<AgentRow> = Vec::new();
    let mut i: usize = 0;
    while i < table.len()
        invariant
            i <= table.len(),
            all == rows::agent_row_views(table@),
            out@.len() == i,
            rows::agent_row_views(out@) =~= all.take(i as int),
            model::agents_unique(all.take(i as int)),
        decreases table.len() - i,
    {
        let ghost seen = all.take(i as int);
        match agent_index(&out, table[i].id.as_str()) {
            Some(j) => {
                proof {
                    assert(rows::agent_row_views(out@)[j as int].id == all[i as int].id);
                    assert(all[j as int] == seen[j as int]);
                    assert(all[j as int].id == all[i as int].id);
                }
                return None;
            },
            None => {},
        }
        proof {
            lemma_agent_at(seen, all[i as int].id);
            assert(all.take(i + 1) =~= seen.push(all[i as int]));
        }
        out.push(table[i].clone());
        i = i + 1;
    }
    assert(all.take(all.len() as int) =~= all);
    Some(out)
}

impl Store {
    /// The bulletin that the given tables hold, without a vault.
    pub fn open(tasks: &Vec<TaskRow>, agents: &Vec<AgentRow>) -> (r: Result<Store, StoreError>)
        ensures
            store_read(r) == opened(
                rows::row_views(tasks@),
                rows::agent_row_views(agents@),
                None,
            ),
            r matches Ok(s) ==> s.wf(),
    {
        Store::open_with_vault(tasks, agents, None)
    }

    /// The bulletin that the given tables hold, with a vault over the given
    /// files where one is kept.
    pub fn open_with_vault(
        tasks: &Vec<TaskRow>,
        agents: &Vec<AgentRow>,
        vault: Option<Vec<Owner>>,
    ) -> (r: Result<Store, StoreError>)
        ensures
            store_read(r) == opened(
                rows::row_views(tasks@),
                rows::agent_row_views(agents@),
                opt_owners(vault),
            ),
            r matches Ok(s) ==> s.wf(),
    {
        let tasks = match copy_tasks(tasks) {
            Some(tasks) => tasks,
            None => return Err(StoreError::DuplicateTask),
        };
        let agents = match copy_agents(agents) {
            Some(agents) => agents,
            None => return Err(StoreError::DuplicateAgent),
        };
        let vault = match vault {
            Some(owners) => Some(Vault::open(owners)),
            None => None,
        };
        let changes: Vec<Change> = Vec::new();
        assert(rows::change_views(changes@) =~= Seq::<ChangeView>::empty());
        Ok(Store { tasks, agents, changes, vault, default_lease: types::DEFAULT_LEASE_SECONDS })
    }

    /// Sets the length of leases that are not asked for, in seconds.
    pub fn set_default_lease(&mut self, secs: u64)
        ensures
            final(self)@ == (StoreView { default_lease: secs, ..old(self)@ }),
    {
        self.default_lease = secs;
    }

    /// Hands over the changes of rows that have yet to be written out, in
    /// order.
    pub fn take_changes(&mut self) -> (r: Vec<Change>)
        ensures
            rows::change_views(r@) == old(self)@.changes,
            final(self)@ == (StoreView { changes: Seq::empty(), ..old(self)@ }),
    {
        let mut out: Vec<Change> = Vec::new();
        std::mem::swap(&mut out, &mut self.changes);
        assert(rows::change_views(self.changes@) =~= Seq::<ChangeView>::empty());
        out
    }

    /// The rows of the tasks.
    pub fn task_rows(&self) -> (r: &Vec<TaskRow>)
        ensures
            rows::row_views(r@) == self@.tasks,
    {
        &self.tasks
    }

    /// The rows of the agents.
    pub fn agent_rows(&self) -> (r: &Vec<AgentRow>)
        ensures
            rows::agent_row_views(r@) == self@.agents,
    {
        &self.agents
    }
}

// ---------------------------------------------------------------------
// Notes
// ---------------------------------------------------------------------

/// The relation that a payload has under `key` goes behind those in `out`.
fn push_relation(
    tasks: &Vec<TaskRow>,
    owners: &Vec<Owner>,
    payload: &Json,
    key: &str,
    out: &mut Vec<Relation>,
)
    ensures
        vault::relation_views(final(out)@) == vault::relation_views(old(out)@) + model::relation(
            rows::row_views(tasks@),
            vault::owner_views(owners@),
            payload@,
            key@,
        ),
{
    let ghost before = out@;
    match payload.get_str(key) {
        Some(s) => match types::parse_id(s) {
            Some(id) => match find_task(tasks, id) {
                Ok(Some(t)) => {
                    let target = vault::name_of_task(owners, &t);
                    out.push(Relation { label: key.to_owned(), target });
                },
                _ => {},
            },
            None => {},
        },
        None => {},
    }
    assert(vault::relation_views(out@) =~= vault::relation_views(before) + model::relation(
        rows::row_views(tasks@),
        vault::owner_views(owners@),
        payload@,
        key@,
    ));
}

/// The tasks that a payload refers to.
fn collect_relations(tasks: &Vec<TaskRow>, owners: &Vec<Owner>, payload: &Json) -> (r: Vec<Relation>)
    ensures
        vault::relation_views(r@) == model::relations(
            rows::row_views(tasks@),
            vault::owner_views(owners@),
            payload@,
        ),
{
    let mut out: Vec<Relation> = Vec::new();
    push_relation(tasks, owners, payload, "fixed_bug_id", &mut out);
    assert(vault::relation_views(out@) =~= model::relation(
        rows::row_views(tasks@),
        vault::owner_views(owners@),
        payload@,
        "fixed_bug_id"@,
    ));
    push_relation(tasks, owners, payload, "related_ack", &mut out);
    push_relation(tasks, owners, payload, "related_bug", &mut out);
    push_relation(tasks, owners, payload, "bug_id", &mut out);
    push_relation(tasks, owners, payload, "ack_id", &mut out);
    push_relation(tasks, owners, payload, "blocked_by", &mut out);
    push_relation(tasks, owners, payload, "follows_up", &mut out);
    out
}

impl Store {
    /// Notes the present state of a task, where a vault is kept.
    fn vault_write(&mut self, task: &Task)
        ensures
            final(self)@ == model::noted(old(self)@, task@),
    {
        match &mut self.vault {
            Some(v) => {
                let relations = collect_relations(&self.tasks, v.owners(), &task.payload);
                v.write_task(task, &relations);
            },
            None => {},
        }
    }

    /// Notes an event in an agent's log, where a vault is kept.
    fn vault_agent_event(&mut self, agent_id: &str, event: &str, now: &Timestamp)
        ensures
            final(self)@ == model::told(old(self)@, agent_id@, event@, *now),
    {
        match &mut self.vault {
            Some(v) => v.append_agent_event(agent_id, event, now),
            None => {},
        }
    }

    /// An event that links to a task's note.
    fn link_event(&self, verb: &str, task: &Task) -> (r: String)
        ensures
            r@ == model::link_event(self@, verb@, task@),
    {
        let none: Vec<Owner> = Vec::new();
        assert(vault::owner_views(none@) =~= Seq::<(Seq<char>, Seq<char>)>::empty());
        let name = match &self.vault {
            Some(v) => vault::name_of_task(v.owners(), task),
            None => vault::name_of_task(&none, task),
        };
        let mut event = verb.to_owned();
        event.append(" [[");
        event.append(name.as_str());
        event.append("]]");
        event
    }

    /// Hands over the notes that have yet to be carried out, in order.
    pub fn take_notes(&mut self) -> (r: Vec<Note>)
        ensures
            vault::note_views(r@) == match old(self)@.vault {
                Some(v) => v.notes,
                None => Seq::empty(),
            },
            final(self)@ == (StoreView {
                vault: match old(self)@.vault {
                    Some(v) => Some(vault::VaultView { notes: Seq::empty(), ..v }),
                    None => None,
                },
                ..old(self)@
            }),
    {
        match &mut self.vault {
            Some(v) => v.take_notes(),
            None => {
                let none: Vec<Note> = Vec::new();
                assert(vault::note_views(none@) =~= Seq::<vault::NoteView>::empty());
                none
            },
        }
    }

    /// Puts a new row behind the others.
    fn add_row(&mut self, row: TaskRow)
        requires
            old(self).wf(),
            model::row_at(old(self)@.tasks, row@.id) is None,
        ensures
            final(self).wf(),
            final(self)@ == model::added(old(self)@, row@),
    {
        let ghost before = self@;
        let ghost r = row@;
        proof {
            lemma_push_unique(before.tasks, r);
        }
        self.changes.push(Change::Task(row.clone()));
        self.tasks.push(row);
        assert(self@.tasks =~= before.tasks.push(r));
        assert(self@.changes =~= before.changes.push(ChangeView::Task(r)));
    }

    /// Puts a row in the place of the one with its identifier.
    fn save_row(&mut self, i: usize, row: TaskRow)
        requires
            old(self).wf(),
            i < old(self)@.tasks.len(),
            old(self)@.tasks[i as int].id == row@.id,
        ensures
            final(self).wf(),
            final(self)@ == model::saved(old(self)@, row@),
    {
        let ghost before = self@;
        let ghost r = row@;
        self.changes.push(Change::Task(row.clone()));
        self.tasks.set(i, row);
        assert(self@.changes =~= before.changes.push(ChangeView::Task(r)));
        assert(self@.tasks =~= model::put(before.tasks, r)) by {
            assert forall|k: int| 0 <= k < before.tasks.len() implies self@.tasks[k]
                == #[trigger] model::put(before.tasks, r)[k] by {
                if k < i {
                    assert(before.tasks[k].id != before.tasks[i as int].id);
                } else if k > i {
                    assert(before.tasks[i as int].id != before.tasks[k].id);
                }
            }
        }
        proof {
            lemma_put_unique(before.tasks, r);
        }
    }
}

// ---------------------------------------------------------------------
// Creating tasks
// ---------------------------------------------------------------------

/// The state in which a task of the given kind begins: publications are done
/// when they are posted, work is pending.
pub fn default_state_for_kind(kind: &str) -> (r: TaskState)
    ensures
        r == model::initial_state(kind@),
{
    if text::same(kind, "ack") || text::same(kind, "knowledge") || text::same(kind, "decision") {
        TaskState::Completed
    } else {
        TaskState::Pending
    }
}

/// A task as it is first posted.
fn fresh(
    id: TaskId,
    name: String,
    kind: &str,
    priority: String,
    payload: Json,
    now: Timestamp,
) -> (t: Task)
    ensures
        t@ == model::fresh_task(id, name@, kind@, priority@, payload@, now),
{
    Task {
        id,
        name,
        kind: kind.to_owned(),
        priority,
        state: default_state_for_kind(kind),
        claimed_by: None,
        payload,
        result: None,
        created_at: now,
        updated_at: now,
        claimed_at: None,
        lease_until: None,
    }
}

/// What a posting comes to: it is refused where its identifier is taken.
pub open spec fn create_outcome(
    s: StoreView,
    t: TaskView,
    r: Result<Task, StoreError>,
    after: StoreView,
) -> bool {
    if model::task_row(s.tasks, t.id) is Some {
        r == Err::<Task, StoreError>(StoreError::DuplicateTask) && after == s
    } else {
        (r matches Ok(task) && task@ == t) && after == model::posted(s, t)
    }
}

impl Store {
    /// Posts a task under the given identifier at the given time.
    pub fn create_task_full_at(
        &mut self,
        id: TaskId,
        name: &str,
        kind: &str,
        priority: &str,
        payload: Json,
        now: Timestamp,
    ) -> (r: Result<Task, StoreError>)
        requires
            old(self).wf(),
        ensures
            final(self).wf(),
            create_outcome(
                old(self)@,
                model::fresh_task(id, name@, kind@, priority@, payload@, now),
                r,
                final(self)@,
            ),
            r matches Ok(t) ==> rows::stable(t@) ==> rows::task_of_row(rows::row_of_task(t@)) == Ok::<
                TaskView,
                RowError,
            >(t@),
            r is Ok ==> time::well_spelled(now),
    {
        if task_index(&self.tasks, id).is_some() {
            return Err(StoreError::DuplicateTask);
        }
        let task = fresh(id, name.to_owned(), kind, priority.to_owned(), payload, now);
        self.add_row(rows::task_to_row(&task));
        self.vault_write(&task);
        Ok(task)
    }

    /// Posts a task.
    pub fn create_task_full(
        &mut self,
        name: &str,
        kind: &str,
        priority: &str,
        payload: Json,
    ) -> (r: Result<Task, StoreError>)
        requires
            old(self).wf(),
        ensures
            final(self).wf(),
            exists|id: TaskId, now: Timestamp|
                types::is_random(id) && time::on_clock(now) && create_outcome(
                    old(self)@,
                    #[trigger] model::fresh_task(id, name@, kind@, priority@, payload@, now),
                    r,
                    final(self)@,
                ),
            r matches Ok(t) ==> rows::stable(t@) ==> rows::task_of_row(rows::row_of_task(t@)) == Ok::<
                TaskView,
                RowError,
            >(t@),
    {
        let id = types::fresh_id();
        let now = time::now();
        let ghost given = payload@;
        let r = self.create_task_full_at(id, name, kind, priority, payload, now);
        assert(create_outcome(
            old(self)@,
            model::fresh_task(id, name@, kind@, priority@, given, now),
            r,
            self@,
        ));
        r
    }

    /// Posts a task of the default kind and priority.
    pub fn create_task(&mut self, name: &str, payload: Json) -> (r: Result<Task, StoreError>)
        requires
            old(self).wf(),
        ensures
            final(self).wf(),
            exists|id: TaskId, now: Timestamp|
                types::is_random(id) && time::on_clock(now) && create_outcome(
                    old(self)@,
                    #[trigger] model::fresh_task(
                        id,
                        name@,
                        DEFAULT_KIND@,
                        DEFAULT_PRIORITY@,
                        payload@,
                        now,
                    ),
                    r,
                    final(self)@,
                ),
            r matches Ok(t) ==> rows::stable(t@) ==> rows::task_of_row(rows::row_of_task(t@)) == Ok::<
                TaskView,
                RowError,
            >(t@),
    {
        self.create_task_full(name, DEFAULT_KIND, DEFAULT_PRIORITY, payload)
    }

    /// The task with the given identifier.
    pub fn get_task(&self, id: TaskId) -> (r: Result<Option<Task>, StoreError>)
        ensures
            task_result(r, model::task_at(self@.tasks, id)),
    {
        match find_task(&self.tasks, id) {
            Ok(t) => Ok(t),
            Err(e) => Err(StoreError::Row(e)),
        }
    }
}

// ---------------------------------------------------------------------
// Leases
// ---------------------------------------------------------------------

/// A lease of at least a second and at most an hour.
pub fn clamp_lease(secs: u64) -> (r: u64)
    ensures
        r == model::clamped(secs),
        1 <= r <= types::MAX_LEASE_SECONDS,
{
    if secs < 1 {
        1
    } else if secs > types::MAX_LEASE_SECONDS {
        types::MAX_LEASE_SECONDS
    } else {
        secs
    }
}

/// When a lease that begins now ends.
fn end_of_lease(default_lease: u64, now: &Timestamp, asked: Option<u64>) -> (r: Option<Timestamp>)
    ensures
        r == model::lease_end(default_lease, *now, asked),
{
    let secs: u64 = match asked {
        Some(n) => n,
        None => default_lease,
    };
    now.plus_seconds(clamp_lease(secs))
}

/// What a claim comes to.
pub open spec fn claim_outcome(
    s: StoreView,
    id: TaskId,
    agent: Seq<char>,
    asked: Option<u64>,
    now: Timestamp,
    r: Result<Option<Task>, StoreError>,
    after: StoreView,
) -> bool {
    match model::lease_end(s.default_lease, now, asked) {
        Some(until) => {
            &&& task_result(r, model::claim(s, id, agent, now, until).1)
            &&& after == model::claim(s, id, agent, now, until).0
            &&& r matches Ok(Some(_)) ==> time::well_spelled(now) && time::well_spelled(until)
        },
        None => r == Err::<Option<Task>, StoreError>(StoreError::LeaseEnd) && after == s,
    }
}

/// What an extension comes to: when the lease ends, where it is granted.
pub open spec fn extend_outcome(
    s: StoreView,
    id: TaskId,
    agent: Seq<char>,
    asked: Option<u64>,
    now: Timestamp,
    r: Result<Option<Timestamp>, StoreError>,
    after: StoreView,
) -> bool {
    match model::lease_end(s.default_lease, now, asked) {
        Some(until) => {
            &&& r == lifted(model::extend(s, id, agent, now, until).1)
            &&& after == model::extend(s, id, agent, now, until).0
            &&& r matches Ok(Some(_)) ==> time::well_spelled(now) && time::well_spelled(until)
        },
        None => r == Err::<Option<Timestamp>, StoreError>(StoreError::LeaseEnd) && after == s,
    }
}

/// What a sweep comes to.
pub open spec fn reclaim_outcome(
    s: StoreView,
    now: Timestamp,
    r: Result<Vec<Task>, StoreError>,
    after: StoreView,
) -> bool {
    &&& tasks_result(r, model::reclaim(s, now).1)
    &&& after == model::reclaim(s, now).0
    &&& time::well_spelled(now)
}

/// Whether a row names the agent as its claimer.
fn claimed_by(row: &TaskRow, agent_id: &str) -> (r: bool)
    ensures
        r == (row@.claimed_by == Some(agent_id@)),
{
    match &row.claimed_by {
        Some(by) => text::same(by.as_str(), agent_id),
        None => false,
    }
}

/// Whether an agent holds the claim on a row.
fn is_held(row: &TaskRow, agent_id: &str) -> (r: bool)
    ensures
        r == model::holds(row@, agent_id@),
{
    text::same(row.state.as_str(), "claimed") && claimed_by(row, agent_id)
}

impl Store {
    /// Claims a pending task for an agent at the given time. `None` where the
    /// task is not pending or not there.
    pub fn claim_task_at(
        &mut self,
        id: TaskId,
        agent_id: &str,
        lease_seconds: Option<u64>,
        now: Timestamp,
    ) -> (r: Result<Option<Task>, StoreError>)
        requires
            old(self).wf(),
        ensures
            final(self).wf(),
            claim_outcome(old(self)@, id, agent_id@, lease_seconds, now, r, final(self)@),
    {
        let until = match end_of_lease(self.default_lease, &now, lease_seconds) {
            Some(until) => until,
            None => return Err(StoreError::LeaseEnd),
        };
        let i = match task_index(&self.tasks, id) {
            Some(i) => i,
            None => return Ok(None),
        };
        if !text::same(self.tasks[i].state.as_str(), "pending") {
            return Ok(None);
        }
        let mut row = self.tasks[i].clone();
        row.state = "claimed".to_owned();
        row.claimed_by = Some(agent_id.to_owned());
        row.claimed_at = Some(time::stamp_text(&now));
        row.lease_until = Some(time::stamp_text(&until));
        row.updated_at = time::stamp_text(&now);
        let read = rows::row_to_task(&row);
        self.save_row(i, row);
        match read {
            Ok(t) => {
                self.vault_write(&t);
                let event = self.link_event("claimed", &t);
                self.vault_agent_event(agent_id, event.as_str(), &now);
                Ok(Some(t))
            },
            Err(e) => Err(StoreError::Row(e)),
        }
    }

    /// Claims a pending task for an agent.
    pub fn claim_task(&mut self, id: TaskId, agent_id: &str, lease_seconds: Option<u64>) -> (r:
        Result<Option<Task>, StoreError>)
        requires
            old(self).wf(),
        ensures
            final(self).wf(),
            exists|now: Timestamp|
                time::on_clock(now) && #[trigger] claim_outcome(
                    old(self)@,
                    id,
                    agent_id@,
                    lease_seconds,
                    now,
                    r,
                    final(self)@,
                ),
    {
        let now = time::now();
        self.claim_task_at(id, agent_id, lease_seconds, now)
    }

    /// Extends a lease at the given time, for the agent that holds the claim,
    /// and returns when it then ends: never before it was to end already.
    /// `None` where the agent does not hold the claim.
    pub fn extend_lease_at(
        &mut self,
        id: TaskId,
        agent_id: &str,
        lease_seconds: Option<u64>,
        now: Timestamp,
    ) -> (r: Result<Option<Timestamp>, StoreError>)
        requires
            old(self).wf(),
        ensures
            final(self).wf(),
            extend_outcome(old(self)@, id, agent_id@, lease_seconds, now, r, final(self)@),
    {
        let until = match end_of_lease(self.default_lease, &now, lease_seconds) {
            Some(until) => until,
            None => return Err(StoreError::LeaseEnd),
        };
        let i = match task_index(&self.tasks, id) {
            Some(i) => i,
            None => return Ok(None),
        };
        if !is_held(&self.tasks[i], agent_id) {
            return Ok(None);
        }
        let mut row = self.tasks[i].clone();
        let asked = time::stamp_text(&until);
        let end = match rows::parse_opt_stamp(&row.lease_until) {
            Some(Some(end)) => if until.is_before(&end) {
                end
            } else {
                row.lease_until = Some(asked);
                until
            },
            _ => {
                row.lease_until = Some(asked);
                until
            },
        };
        row.updated_at = time::stamp_text(&now);
        let read = rows::row_to_task(&row);
        self.save_row(i, row);
        match read {
            Ok(t) => {
                self.vault_write(&t);
                Ok(Some(end))
            },
            Err(e) => Err(StoreError::Row(e)),
        }
    }

    /// Extends a lease, for the agent that holds the claim.
    pub fn extend_lease(&mut self, id: TaskId, agent_id: &str, lease_seconds: Option<u64>) -> (r:
        Result<Option<Timestamp>, StoreError>)
        requires
            old(self).wf(),
        ensures
            final(self).wf(),
            exists|now: Timestamp|
                time::on_clock(now) && #[trigger] extend_outcome(
                    old(self)@,
                    id,
                    agent_id@,
                    lease_seconds,
                    now,
                    r,
                    final(self)@,
                ),
    {
        let now = time::now();
        self.extend_lease_at(id, agent_id, lease_seconds, now)
    }
}

/// Whether a claim has outlived its lease, where `stamp` spells the time.
fn is_expired(row: &TaskRow, stamp: &str) -> (r: bool)
    ensures
        r == (row@.state == "claimed"@ && (row@.lease_until matches Some(u) && text::text_lt(
            u,
            stamp@,
        ))),
{
    match &row.lease_until {
        Some(u) => text::same(row.state.as_str(), "claimed") && text::comes_before(
            u.as_str(),
            stamp,
        ),
        None => false,
    }
}

/// A row whose claim is taken back, where `stamp` spells the time.
fn release(row: &TaskRow, stamp: &str, now: Ghost<Timestamp>) -> (r: TaskRow)
    requires
        stamp@ == time::stamp(now@),
    ensures
        r@ == model::released(row@, now@),
{
    let mut after = row.clone();
    after.state = "pending".to_owned();
    after.claimed_by = None;
    after.claimed_at = None;
    after.lease_until = None;
    after.updated_at = stamp.to_owned();
    after
}

proof fn lemma_refetch_failed(tasks: Seq<TaskRowView>, before: Seq<TaskView>, k: int)
    requires
        0 <= k <= before.len(),
        model::refetched(tasks, before.take(k)) is Err,
    ensures
        model::refetched(tasks, before) == model::refetched(tasks, before.take(k)),
    decreases before.len() - k,
{
    if k < before.len() {
        assert(before.take(k + 1).drop_last() =~= before.take(k));
        lemma_refetch_failed(tasks, before, k + 1);
    } else {
        assert(before.take(k) =~= before);
    }
}

/// The tasks once more, each found by its identifier.
fn refetch(tasks: &Vec<TaskRow>, before: &Vec<Task>) -> (r: Result<Vec<Task>, RowError>)
    ensures
        match model::refetched(rows::row_views(tasks@), types::task_views(before@)) {
            Ok(t) => r matches Ok(u) && types::task_views(u@) == t && u@.len() == before@.len(),
            Err(e) => r == Err::<Vec<Task>, RowError>(e),
        },
{
    let ghost all = types::task_views(before@);
    let ghost table = rows::row_views(tasks@);
    let mut out: Vec<Task> = Vec::new();
    let mut k: usize = 0;
    assert(types::task_views(out@) =~= Seq::<TaskView>::empty());
    assert(all.take(0) =~= Seq::<TaskView>::empty());
    while k < before.len()
        invariant
            k <= before.len(),
            all == types::task_views(before@),
            table == rows::row_views(tasks@),
            out@.len() == k,
            model::refetched(table, all.take(k as int)) == Ok::<Seq<TaskView>, RowError>(
                types::task_views(out@),
            ),
        decreases before.len() - k,
    {
        let ghost seen = all.take(k + 1);
        let ghost held = out@;
        assert(seen.drop_last() =~= all.take(k as int));
        assert(seen.last() == before@[k as int]@);
        match find_task(tasks, before[k].id) {
            Ok(Some(t)) => {
                out.push(t);
                assert(types::task_views(out@) =~= types::task_views(held).push(t@));
            },
            Ok(None) => {
                proof {
                    lemma_refetch_failed(table, all, k + 1);
                }
                return Err(RowError::Missing);
            },
            Err(e) => {
                proof {
                    lemma_refetch_failed(table, all, k + 1);
                }
                return Err(e);
            },
        }
        k = k + 1;
    }
    assert(all.take(all.len() as int) =~= all);
    Ok(out)
}

/// The position of the first task with the given identifier.
fn first_index(tasks: &Vec<Task>, id: TaskId) -> (r: Option<usize>)
    ensures
        match r {
            Some(i) => i < tasks@.len() && model::first_with(types::task_views(tasks@), id) == Some(
                tasks@[i as int]@,
            ),
            None => model::first_with(types::task_views(tasks@), id) is None,
        },
{
    let mut i: usize = 0;
    let ghost all = types::task_views(tasks@);
    assert(all.skip(0) =~= all);
    while i < tasks.len()
        invariant
            i <= tasks.len(),
            all == types::task_views(tasks@),
            model::first_with(all, id) == model::first_with(all.skip(i as int), id),
        decreases tasks.len() - i,
    {
        assert(all.skip(i as int).drop_first() =~= all.skip(i + 1));
        assert(all.skip(i as int)[0] == tasks@[i as int]@);
        if tasks[i].id == id {
            return Some(i);
        }
        i = i + 1;
    }
    None
}

impl Store {
    /// The positions of the rows whose claims have outlived their leases.
    fn expired_at(&self, stamp: &str, now: Ghost<Timestamp>) -> (r: Vec<usize>)
        requires
            stamp@ == time::stamp(now@),
        ensures
            picked(self@.tasks, r@) == model::expired_rows(self@.tasks, now@),
            forall|k: int| 0 <= k < r@.len() ==> #[trigger] r@[k] < self@.tasks.len(),
    {
        let ghost all = self@.tasks;
        let mut gone: Vec<usize> = Vec::new();
        let mut i: usize = 0;
        assert(picked(all, gone@) =~= model::expired_rows(all.take(0), now@));
        while i < self.tasks.len()
            invariant
                i <= self.tasks.len(),
                all == rows::row_views(self.tasks@),
                stamp@ == time::stamp(now@),
                picked(all, gone@) == model::expired_rows(all.take(i as int), now@),
                forall|k: int| 0 <= k < gone@.len() ==> #[trigger] gone@[k] < self.tasks@.len(),
            decreases self.tasks.len() - i,
        {
            let ghost seen = all.take(i + 1);
            let ghost before = gone@;
            assert(seen.drop_last() =~= all.take(i as int));
            assert(seen.last() == self.tasks@[i as int]@);
            if is_expired(&self.tasks[i], stamp) {
                gone.push(i);
                assert(picked(all, gone@) =~= picked(all, before).push(seen.last()));
            }
            i = i + 1;
        }
        assert(all.take(all.len() as int) =~= all);
        gone
    }

    /// Sweeps the rows.
    fn sweep_rows(&mut self, stamp: &str, now: Ghost<Timestamp>)
        requires
            old(self).wf(),
            stamp@ == time::stamp(now@),
        ensures
            final(self).wf(),
            final(self)@ == model::rows_swept(old(self)@, now@),
    {
        let ghost start = self@;
        let mut i: usize = 0;
        assert(start.changes =~= start.changes + model::releases(
            model::expired_rows(start.tasks.take(0), now@),
            now@,
        ));
        while i < self.tasks.len()
            invariant
                i <= self.tasks.len(),
                stamp@ == time::stamp(now@),
                start.tasks.len() == self.tasks@.len(),
                self@.agents == start.agents,
                self@.vault == start.vault,
                self@.default_lease == start.default_lease,
                self@.changes == start.changes + model::releases(
                    model::expired_rows(start.tasks.take(i as int), now@),
                    now@,
                ),
                forall|k: int|
                    0 <= k < i ==> (#[trigger] self.tasks@[k])@ == model::swept(
                        start.tasks[k],
                        now@,
                    ),
                forall|k: int|
                    i <= k < self.tasks@.len() ==> (#[trigger] self.tasks@[k])@ == start.tasks[k],
            decreases self.tasks.len() - i,
        {
            let ghost seen = start.tasks.take(i + 1);
            assert(seen.drop_last() =~= start.tasks.take(i as int));
            assert(seen.last() == self.tasks@[i as int]@);
            if is_expired(&self.tasks[i], stamp) {
                let ghost held = self@.changes;
                let freed = release(&self.tasks[i], stamp, now);
                let ghost f = freed@;
                self.changes.push(Change::Task(freed.clone()));
                self.tasks.set(i, freed);
                assert(self@.changes =~= held.push(ChangeView::Task(f)));
                assert(model::releases(model::expired_rows(seen, now@), now@) =~= model::releases(
                    model::expired_rows(start.tasks.take(i as int), now@),
                    now@,
                ).push(ChangeView::Task(f)));
                assert(self@.changes =~= start.changes + model::releases(
                    model::expired_rows(seen, now@),
                    now@,
                ));
            }
            i = i + 1;
        }
        assert(start.tasks.take(start.tasks.len() as int) =~= start.tasks);
        assert(self@.tasks =~= model::swept_tasks(start.tasks, now@));
        proof {
            lemma_swept_unique(start.tasks, now@);
        }
    }

    /// Notes the end of a claim, in the log of the agent that held it and for
    /// the task.
    fn note_abandonment(&mut self, before: Option<&Task>, after: &Task, now: &Timestamp)
        ensures
            final(self)@ == model::abandonment_noted(
                old(self)@,
                match before {
                    Some(b) => Some(b@),
                    None => None,
                },
                after@,
                *now,
            ),
            final(self)@.tasks == old(self)@.tasks,
            final(self)@.agents == old(self)@.agents,
    {
        match before {
            Some(b) => match &b.claimed_by {
                Some(agent) => {
                    let mut event = self.link_event("abandoned", b);
                    event.append(" (lease expired at ");
                    match &b.lease_until {
                        Some(u) => event.append(time::stamp_text(u).as_str()),
                        None => event.append("unknown"),
                    }
                    event.append(")");
                    assert(event@ == model::abandoned_event(self@, b@));
                    self.vault_agent_event(agent.as_str(), event.as_str(), now);
                },
                None => {},
            },
            None => {},
        }
        self.vault_write(after);
    }

    /// Takes back every claim whose lease has ended before the given time,
    /// and returns the tasks as they are afterwards.
    pub fn reclaim_expired_leases_at(&mut self, now: Timestamp) -> (r: Result<
        Vec<Task>,
        StoreError,
    >)
        requires
            old(self).wf(),
        ensures
            final(self).wf(),
            reclaim_outcome(old(self)@, now, r, final(self)@),
    {
        let ghost start = self@;
        let stamp = time::stamp_text(&now);
        let gone = self.expired_at(stamp.as_str(), Ghost(now));
        let before = match read_rows(&self.tasks, &gone) {
            Ok(before) => before,
            Err(e) => return Err(StoreError::Row(e)),
        };
        let ghost all = types::task_views(before@);
        if before.len() == 0 {
            return Ok(before);
        }
        self.sweep_rows(stamp.as_str(), Ghost(now));
        let ghost swept = self@;
        let after = match refetch(&self.tasks, &before) {
            Ok(after) => after,
            Err(e) => return Err(StoreError::Row(e)),
        };
        let ghost freed = types::task_views(after@);
        let mut k: usize = 0;
        while k < before.len()
            invariant
                k <= before.len(),
                before@.len() == after@.len(),
                all == types::task_views(before@),
                freed == types::task_views(after@),
                self@ == model::abandonments_noted(swept, all, freed, now, k as nat),
                self@.tasks == swept.tasks,
                self@.agents == swept.agents,
            decreases before.len() - k,
        {
            assert(all[k as int] == before@[k as int]@);
            assert(freed[k as int] == after@[k as int]@);
            match first_index(&before, before[k].id) {
                Some(j) => self.note_abandonment(Some(&before[j]), &after[k], &now),
                None => self.note_abandonment(None, &after[k], &now),
            }
            k = k + 1;
        }
        Ok(after)
    }

    /// Takes back every claim whose lease has ended.
    pub fn reclaim_expired_leases(&mut self) -> (r: Result<Vec<Task>, StoreError>)
        requires
            old(self).wf(),
        ensures
            final(self).wf(),
            exists|now: Timestamp|
                time::on_clock(now) && #[trigger] reclaim_outcome(
                    old(self)@,
                    now,
                    r,
                    final(self)@,
                ),
    {
        let now = time::now();
        self.reclaim_expired_leases_at(now)
    }
}

// ---------------------------------------------------------------------
// Ends
// ---------------------------------------------------------------------

/// What a completion comes to: whether the task was claimed.
pub open spec fn complete_outcome(
    s: StoreView,
    id: TaskId,
    result: JsonView,
    now: Timestamp,
    r: Result<bool, StoreError>,
    after: StoreView,
) -> bool {
    &&& r == lifted(model::complete(s, id, result, now).1)
    &&& after == model::complete(s, id, result, now).0
    &&& r matches Ok(true) ==> time::well_spelled(now)
    &&& r matches Ok(true) ==> json::plain(result) ==> json::json_parse(json::json_text(result))
        == Some(result)
}

/// What a cancellation comes to.
pub open spec fn cancel_outcome(
    s: StoreView,
    id: TaskId,
    now: Timestamp,
    r: Result<(), StoreError>,
    after: StoreView,
) -> bool {
    &&& r == lifted(model::cancel(s, id, now).1)
    &&& after == model::cancel(s, id, now).0
}

/// The acknowledgement of the task in a row.
pub open spec fn ack_task(
    source: TaskRowView,
    source_id: TaskId,
    ack: Ack,
    id: TaskId,
    now: Timestamp,
) -> TaskView {
    model::fresh_task(
        id,
        match ack.name {
            Some(name) => name@,
            None => "ack: "@ + source.name,
        },
        "ack"@,
        match ack.priority {
            Some(priority) => priority@,
            None => DEFAULT_PRIORITY@,
        },
        model::ack_payload(ack.payload@, source_id),
        now,
    )
}

/// What a completion with an acknowledgement comes to: both happen, or
/// neither. `None` where the task is not claimed.
pub open spec fn ack_outcome(
    s: StoreView,
    id: TaskId,
    result: JsonView,
    ack: Ack,
    ack_id: TaskId,
    now: Timestamp,
    r: Result<Option<Task>, StoreError>,
    after: StoreView,
) -> bool {
    match model::task_row(s.tasks, id) {
        Some(row) if row.state == "claimed"@ => {
            let posted = ack_task(row, id, ack, ack_id, now);
            match rows::task_of_row(model::completed(row, result, now)) {
                Err(e) => r == Err::<Option<Task>, StoreError>(StoreError::Row(e)) && after == s,
                Ok(_) => if model::task_row(s.tasks, ack_id) is Some {
                    r == Err::<Option<Task>, StoreError>(StoreError::DuplicateTask) && after == s
                } else {
                    &&& r matches Ok(a) && opt_task(a) == Some(posted)
                    &&& after == model::complete_with_ack(s, id, result, posted, now)
                },
            }
        },
        _ => (r matches Ok(a) && a is None) && after == s,
    }
}

/// A row that was completed.
fn completion(row: &TaskRow, result: &Json, now: &Timestamp) -> (r: TaskRow)
    ensures
        r@ == model::completed(row@, result@, *now),
        time::well_spelled(*now),
        json::plain(result@) ==> json::json_parse(json::json_text(result@)) == Some(result@),
{
    let mut done = row.clone();
    done.state = "completed".to_owned();
    done.result = Some(json::to_text(result));
    done.lease_until = None;
    done.updated_at = time::stamp_text(now);
    done
}

impl Store {
    /// Notes the completion of a task, also in the log of the agent that held
    /// it.
    fn note_completion(&mut self, done: &Task, now: &Timestamp)
        ensures
            final(self)@ == model::completion_noted(old(self)@, done@, *now),
    {
        self.vault_write(done);
        match &done.claimed_by {
            Some(agent) => {
                let event = self.link_event("completed", done);
                self.vault_agent_event(agent.as_str(), event.as_str(), now);
            },
            None => {},
        }
    }

    /// Completes a claimed task at the given time. Returns whether the task
    /// was claimed: one that was called off or taken back stays as it is.
    pub fn complete_task_at(&mut self, id: TaskId, result: Json, now: Timestamp) -> (r: Result<
        bool,
        StoreError,
    >)
        requires
            old(self).wf(),
        ensures
            final(self).wf(),
            complete_outcome(old(self)@, id, result@, now, r, final(self)@),
    {
        let i = match task_index(&self.tasks, id) {
            Some(i) => i,
            None => return Ok(false),
        };
        if !text::same(self.tasks[i].state.as_str(), "claimed") {
            return Ok(false);
        }
        let row = completion(&self.tasks[i], &result, &now);
        let read = rows::row_to_task(&row);
        self.save_row(i, row);
        match read {
            Ok(done) => {
                self.note_completion(&done, &now);
                Ok(true)
            },
            Err(e) => Err(StoreError::Row(e)),
        }
    }

    /// Completes a claimed task.
    pub fn complete_task(&mut self, id: TaskId, result: Json) -> (r: Result<bool, StoreError>)
        requires
            old(self).wf(),
        ensures
            final(self).wf(),
            exists|now: Timestamp|
                time::on_clock(now) && #[trigger] complete_outcome(
                    old(self)@,
                    id,
                    result@,
                    now,
                    r,
                    final(self)@,
                ),
    {
        let now = time::now();
        self.complete_task_at(id, result, now)
    }

    /// Completes a claimed task and posts its acknowledgement, in one step at
    /// the given time. Returns the acknowledgement, `None` where the task is
    /// not claimed. The acknowledgement leads back to the task: its
    /// `fixed_bug_id` is read as the task's identifier.
    pub fn complete_task_with_ack_at(
        &mut self,
        id: TaskId,
        result: Json,
        ack: Ack,
        ack_id: TaskId,
        now: Timestamp,
    ) -> (r: Result<Option<Task>, StoreError>)
        requires
            old(self).wf(),
        ensures
            final(self).wf(),
            ack_outcome(old(self)@, id, result@, ack, ack_id, now, r, final(self)@),
            r matches Ok(Some(a)) ==> rows::stable(a@) ==> rows::task_of_row(rows::row_of_task(a@))
                == Ok::<TaskView, RowError>(a@),
            r matches Ok(Some(a)) ==> (json::member_text(
                a@.payload,
                "fixed_bug_id"@,
            ) matches Some(source) && types::uuid_parse(source) == Some(id)),
    {
        let ghost start = self@;
        let ghost asked = ack;
        let i = match task_index(&self.tasks, id) {
            Some(i) => i,
            None => return Ok(None),
        };
        if !text::same(self.tasks[i].state.as_str(), "claimed") {
            return Ok(None);
        }
        let row = completion(&self.tasks[i], &result, &now);
        let done = match rows::row_to_task(&row) {
            Ok(done) => done,
            Err(e) => return Err(StoreError::Row(e)),
        };
        let name = match ack.name {
            Some(name) => name,
            None => {
                let mut name = "ack: ".to_owned();
                name.append(self.tasks[i].name.as_str());
                name
            },
        };
        let priority = match ack.priority {
            Some(priority) => priority,
            None => DEFAULT_PRIORITY.to_owned(),
        };
        let mut members = ack.payload;
        members.insert("fixed_bug_id".to_owned(), Json::Text(types::id_text(id)));
        let payload = Json::Object(members);
        let ghost posted = ack_task(start.tasks[i as int], id, asked, ack_id, now);
        assert(payload@ == posted.payload);
        if task_index(&self.tasks, ack_id).is_some() {
            return Err(StoreError::DuplicateTask);
        }
        let acknowledgement = fresh(ack_id, name, "ack", priority, payload, now);
        proof {
            lemma_put(start.tasks, row@, types::uuid_text(ack_id));
        }
        self.save_row(i, row);
        self.add_row(rows::task_to_row(&acknowledgement));
        self.note_completion(&done, &now);
        self.vault_write(&acknowledgement);
        Ok(Some(acknowledgement))
    }

    /// Completes a claimed task and posts its acknowledgement, in one step.
    pub fn complete_task_with_ack(&mut self, id: TaskId, result: Json, ack: Ack) -> (r: Result<
        Option<Task>,
        StoreError,
    >)
        requires
            old(self).wf(),
        ensures
            final(self).wf(),
            exists|ack_id: TaskId, now: Timestamp|
                types::is_random(ack_id) && time::on_clock(now) && #[trigger] ack_outcome(
                    old(self)@,
                    id,
                    result@,
                    ack,
                    ack_id,
                    now,
                    r,
                    final(self)@,
                ),
    {
        let ack_id = types::fresh_id();
        let now = time::now();
        self.complete_task_with_ack_at(id, result, ack, ack_id, now)
    }

    /// Calls a task off at the given time, whatever its state.
    pub fn cancel_task_at(&mut self, id: TaskId, now: Timestamp) -> (r: Result<(), StoreError>)
        requires
            old(self).wf(),
        ensures
            final(self).wf(),
            cancel_outcome(old(self)@, id, now, r, final(self)@),
    {
        let i = match task_index(&self.tasks, id) {
            Some(i) => i,
            None => return Ok(()),
        };
        let mut row = self.tasks[i].clone();
        row.state = "cancelled".to_owned();
        row.lease_until = None;
        row.updated_at = time::stamp_text(&now);
        let read = rows::row_to_task(&row);
        self.save_row(i, row);
        match read {
            Ok(t) => {
                self.vault_write(&t);
                Ok(())
            },
            Err(e) => Err(StoreError::Row(e)),
        }
    }

    /// Calls a task off.
    pub fn cancel_task(&mut self, id: TaskId) -> (r: Result<(), StoreError>)
        requires
            old(self).wf(),
        ensures
            final(self).wf(),
            exists|now: Timestamp|
                time::on_clock(now) && #[trigger] cancel_outcome(
                    old(self)@,
                    id,
                    now,
                    r,
                    final(self)@,
                ),
    {
        let now = time::now();
        self.cancel_task_at(id, now)
    }
}

// ---------------------------------------------------------------------
// Listing tasks
// ---------------------------------------------------------------------

fn agrees(wanted: &Option<String>, found: &str) -> (r: bool)
    ensures
        r == (text::opt_text(*wanted) matches Some(w) ==> found@ == w),
{
    match wanted {
        Some(w) => text::same(found, w.as_str()),
        None => true,
    }
}

/// Whether a row passes a filter.
fn passes(filter: &TaskFilter, row: &TaskRow) -> (r: bool)
    ensures
        r == model::admits(filter@, row@),
{
    agrees(&filter.state, row.state.as_str()) && agrees(&filter.kind, row.kind.as_str()) && agrees(
        &filter.priority,
        row.priority.as_str(),
    )
}

impl Store {
    /// The tasks that pass a filter, the newest first, at most `limit` of
    /// them. The limit counts tasks that pass.
    pub fn list_tasks_filtered(&self, limit: usize, filter: &TaskFilter) -> (r: Result<
        Vec<Task>,
        StoreError,
    >)
        ensures
            tasks_result(
                r,
                model::read_all(model::listed(self@.tasks, limit as nat, filter@)),
            ),
    {
        let ghost all = self@.tasks;
        let mut found: Vec<usize> = Vec::new();
        let mut at: Vec<String> = Vec::new();
        let mut i: usize = 0;
        assert(picked(all, found@) =~= model::admitted(all.take(0), filter@));
        while i < self.tasks.len()
            invariant
                i <= self.tasks.len(),
                all == rows::row_views(self.tasks@),
                picked(all, found@) == model::admitted(all.take(i as int), filter@),
                text::texts(at@) =~= model::created_ats(picked(all, found@)),
                forall|k: int| 0 <= k < found@.len() ==> #[trigger] found@[k] < self.tasks@.len(),
            decreases self.tasks.len() - i,
        {
            let ghost seen = all.take(i + 1);
            let ghost before = found@;
            assert(seen.drop_last() =~= all.take(i as int));
            assert(seen.last() == self.tasks@[i as int]@);
            if passes(filter, &self.tasks[i]) {
                let ghost keys = at@;
                found.push(i);
                at.push(self.tasks[i].created_at.clone());
                assert(text::texts(at@) =~= text::texts(keys).push(seen.last().created_at));
                assert(picked(all, found@) =~= picked(all, before).push(seen.last()));
            }
            i = i + 1;
        }
        assert(all.take(all.len() as int) =~= all);
        let ghost passing = model::admitted(all, filter@);
        assert(text::texts(at@).len() == at@.len());
        let order = order::newest_positions(&at);
        let mut chosen: Vec<usize> = Vec::new();
        let mut k: usize = 0;
        while k < order.len() && k < limit
            invariant
                k <= order.len(),
                k <= limit,
                chosen@.len() == k,
                all == rows::row_views(self.tasks@),
                passing == picked(all, found@),
                order@.len() == found@.len(),
                order::positions(order@) == order::newest_order(text::texts(at@)),
                forall|j: int| 0 <= j < order@.len() ==> #[trigger] order@[j] < found@.len(),
                forall|j: int| 0 <= j < found@.len() ==> #[trigger] found@[j] < self.tasks@.len(),
                forall|j: int| 0 <= j < k ==> #[trigger] chosen@[j] < self.tasks@.len(),
                forall|j: int|
                    0 <= j < k ==> all[(#[trigger] chosen@[j]) as int]
                        == passing[order::newest_order(text::texts(at@))[j]],
            decreases order.len() - k,
        {
            assert(order::positions(order@)[k as int] == order@[k as int]);
            chosen.push(found[order[k]]);
            k = k + 1;
        }
        assert(picked(all, chosen@) =~= model::listed(all, limit as nat, filter@));
        match read_rows(&self.tasks, &chosen) {
            Ok(tasks) => Ok(tasks),
            Err(e) => Err(StoreError::Row(e)),
        }
    }

    /// How many rows of tasks there are.
    pub fn task_count(&self) -> (n: usize)
        ensures
            n == self@.tasks.len(),
    {
        self.tasks.len()
    }

    /// The tasks, the newest first, at most `limit` of them.
    pub fn list_tasks(&self, limit: usize) -> (r: Result<Vec<Task>, StoreError>)
        ensures
            tasks_result(
                r,
                model::read_all(model::listed(self@.tasks, limit as nat, model::no_filter())),
            ),
    {
        self.list_tasks_filtered(limit, &TaskFilter::default())
    }
}

// ---------------------------------------------------------------------
// Agents
// ---------------------------------------------------------------------

/// A list of agents that agrees with the model's.
pub open spec fn agents_result(
    r: Result<Vec<Agent>, StoreError>,
    m: Result<Seq<AgentView>, RowError>,
) -> bool {
    match m {
        Ok(a) => r matches Ok(u) && types::agent_views(u@) == a,
        Err(e) => r == Err::<Vec<Agent>, StoreError>(StoreError::Row(e)),
    }
}

proof fn lemma_agent_unreadable(table: Seq<AgentRowView>, tasks: Seq<TaskRowView>, k: int)
    requires
        0 <= k <= table.len(),
        model::agents_read(table.take(k), tasks) is Err,
    ensures
        model::agents_read(table, tasks) == model::agents_read(table.take(k), tasks),
    decreases table.len() - k,
{
    if k < table.len() {
        assert(table.take(k + 1).drop_last() =~= table.take(k));
        lemma_agent_unreadable(table, tasks, k + 1);
    } else {
        assert(table.take(k) =~= table);
    }
}

impl Store {
    /// Puts an agent's report at the given time on record.
    pub fn heartbeat_at(&mut self, agent_id: &str, name: &str, now: Timestamp) -> (r: Result<
        (),
        StoreError,
    >)
        requires
            old(self).wf(),
        ensures
            final(self).wf(),
            r is Ok,
            final(self)@ == model::heartbeat(old(self)@, agent_id@, name@, now),
    {
        let ghost start = self@;
        let stamp = time::stamp_text(&now);
        proof {
            lemma_report_unique(start.agents, agent_id@, name@, now);
        }
        match agent_index(&self.agents, agent_id) {
            Some(i) => {
                let first_seen = if text::same(
                    self.agents[i].first_seen.as_str(),
                    FIRST_SEEN_UNKNOWN,
                ) {
                    stamp.clone()
                } else {
                    self.agents[i].first_seen.clone()
                };
                let id = self.agents[i].id.clone();
                let row = AgentRow { id, name: name.to_owned(), last_seen: stamp, first_seen };
                let ghost a = row@;
                assert(a == model::row_reported(start.agents, agent_id@, name@, now));
                self.changes.push(Change::Agent(row.clone()));
                self.agents.set(i, row);
                assert(self@.changes =~= start.changes.push(ChangeView::Agent(a)));
                assert(self@.agents =~= model::put_agent(start.agents, a)) by {
                    assert forall|k: int| 0 <= k < start.agents.len() implies self@.agents[k]
                        == #[trigger] model::put_agent(start.agents, a)[k] by {
                        if k < i {
                            assert(start.agents[k].id != start.agents[i as int].id);
                        } else if k > i {
                            assert(start.agents[i as int].id != start.agents[k].id);
                        }
                    }
                }
            },
            None => {
                let row = AgentRow {
                    id: agent_id.to_owned(),
                    name: name.to_owned(),
                    last_seen: stamp.clone(),
                    first_seen: stamp,
                };
                let ghost a = row@;
                assert(a == model::row_reported(start.agents, agent_id@, name@, now));
                self.changes.push(Change::Agent(row.clone()));
                self.agents.push(row);
                assert(self@.changes =~= start.changes.push(ChangeView::Agent(a)));
                assert(self@.agents =~= start.agents.push(a));
            },
        }
        match &mut self.vault {
            Some(v) => v.touch_agent(agent_id, name, &now),
            None => {},
        }
        Ok(())
    }

    /// Puts an agent's report on record.
    pub fn heartbeat(&mut self, agent_id: &str, name: &str) -> (r: Result<(), StoreError>)
        requires
            old(self).wf(),
        ensures
            final(self).wf(),
            r is Ok,
            exists|now: Timestamp|
                time::on_clock(now) && final(self)@ == #[trigger] model::heartbeat(
                    old(self)@,
                    agent_id@,
                    name@,
                    now,
                ),
    {
        let now = time::now();
        self.heartbeat_at(agent_id, name, now)
    }

    /// The task that an agent holds a claim on.
    fn current_task(&self, agent_id: &str) -> (r: Option<TaskId>)
        ensures
            r == model::current_task(self@.tasks, agent_id@),
    {
        let mut i: usize = 0;
        let ghost all = self@.tasks;
        assert(all.skip(0) =~= all);
        while i < self.tasks.len()
            invariant
                i <= self.tasks.len(),
                all == rows::row_views(self.tasks@),
                model::held_row(all, agent_id@) == model::held_row(all.skip(i as int), agent_id@),
            decreases self.tasks.len() - i,
        {
            assert(all.skip(i as int).drop_first() =~= all.skip(i + 1));
            assert(all.skip(i as int)[0] == self.tasks@[i as int]@);
            if is_held(&self.tasks[i], agent_id) {
                return types::parse_id(self.tasks[i].id.as_str());
            }
            i = i + 1;
        }
        None
    }

    /// The agents on record, the one that reported last first, each with a
    /// task that it holds.
    pub fn list_agents(&self) -> (r: Result<Vec<Agent>, StoreError>)
        ensures
            agents_result(r, model::agents_listed(self@)),
    {
        let ghost all = self@.agents;
        let ghost table = model::agents_in_order(all);
        let mut at: Vec<String> = Vec::new();
        let mut i: usize = 0;
        while i < self.agents.len()
            invariant
                i <= self.agents.len(),
                all == rows::agent_row_views(self.agents@),
                text::texts(at@) =~= model::last_seens(all).take(i as int),
            decreases self.agents.len() - i,
        {
            let ghost keys = at@;
            at.push(self.agents[i].last_seen.clone());
            assert(text::texts(at@) =~= text::texts(keys).push(all[i as int].last_seen));
            i = i + 1;
        }
        assert(text::texts(at@) =~= model::last_seens(all));
        assert(text::texts(at@).len() == at@.len());
        let order = order::newest_positions(&at);
        let mut out: Vec<Agent> = Vec::new();
        let mut k: usize = 0;
        assert(types::agent_views(out@) =~= Seq::<AgentView>::empty());
        assert(table.take(0) =~= Seq::<AgentRowView>::empty());
        while k < order.len()
            invariant
                k <= order.len(),
                all == rows::agent_row_views(self.agents@),
                table == model::agents_in_order(all),
                order@.len() == all.len(),
                order::positions(order@) == order::newest_order(model::last_seens(all)),
                forall|j: int| 0 <= j < order@.len() ==> #[trigger] order@[j] < all.len(),
                model::agents_read(table.take(k as int), self@.tasks) == Ok::<
                    Seq<AgentView>,
                    RowError,
                >(types::agent_views(out@)),
            decreases order.len() - k,
        {
            assert(order::positions(order@)[k as int] == order@[k as int]);
            let ghost seen = table.take(k + 1);
            let ghost before = out@;
            assert(seen.drop_last() =~= table.take(k as int));
            assert(seen.last() == all[order@[k as int] as int]);
            let row = &self.agents[order[k]];
            match rows::row_to_agent(row, self.current_task(row.id.as_str())) {
                Ok(a) => {
                    out.push(a);
                    assert(types::agent_views(out@) =~= types::agent_views(before).push(a@));
                },
                Err(e) => {
                    proof {
                        lemma_agent_unreadable(table, self@.tasks, k + 1);
                    }
                    return Err(StoreError::Row(e));
                },
            }
            k = k + 1;
        }
        assert(table.take(table.len() as int) =~= table);
        Ok(out)
    }
}

} // verus!
