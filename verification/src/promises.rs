//! What each operation on the bulletin is for, said column by column.
//!
//! The laws here speak of what is in a row before and after an operation, of
//! what a reader then sees and of numbers as they are, so that they say on
//! their own what an operation does.

use vstd::prelude::*;

use crate::json;
use crate::json::JsonView;
use crate::laws;
use crate::laws::Op;
use crate::model;
use crate::model::{FilterView, StoreView};
use crate::order;
use crate::rows;
use crate::rows::{AgentRowView, ChangeView, RowError, TaskRowView};
use crate::store;
use crate::text;
use crate::time;
use crate::time::Timestamp;
use crate::types;
use crate::types::{AgentView, TaskId, TaskState, TaskView};

verus! {

// ---------------------------------------------------------------------
// Rows
// ---------------------------------------------------------------------

/// A row is read column by column. The state is one of the five by its name,
/// and pending under any other name; a payload that is no JSON is `null`, a
/// result that is no JSON is none, and an empty instant is none.
pub proof fn lemma_row_is_read(r: TaskRowView)
    ensures
        rows::task_of_row(r) matches Ok(t) ==> {
            &&& types::uuid_parse(r.id) == Some(t.id)
            &&& t.name == r.name
            &&& t.kind == r.kind
            &&& t.priority == r.priority
            &&& t.claimed_by == r.claimed_by
            &&& r.state == "claimed"@ <==> t.state == TaskState::Claimed
            &&& r.state == "completed"@ <==> t.state == TaskState::Completed
            &&& r.state == "failed"@ <==> t.state == TaskState::Failed
            &&& r.state == "cancelled"@ <==> t.state == TaskState::Cancelled
            &&& json::json_parse(r.payload) == Some(t.payload) || (json::json_parse(r.payload)
                is None && t.payload == JsonView::Null)
            &&& t.result == match r.result {
                Some(s) => json::json_parse(s),
                None => None,
            }
            &&& time::read_stamp(r.created_at) == Some(t.created_at)
            &&& time::read_stamp(r.updated_at) == Some(t.updated_at)
            &&& (r.claimed_at matches Some(s) && s.len() > 0) ==> time::read_stamp(r.claimed_at->0)
                == t.claimed_at && t.claimed_at is Some
            &&& !(r.claimed_at matches Some(s) && s.len() > 0) ==> t.claimed_at is None
            &&& (r.lease_until matches Some(s) && s.len() > 0) ==> time::read_stamp(
                r.lease_until->0,
            ) == t.lease_until && t.lease_until is Some
            &&& !(r.lease_until matches Some(s) && s.len() > 0) ==> t.lease_until is None
        },
        rows::task_of_row(r) == Err::<TaskView, RowError>(RowError::Id) <==> types::uuid_parse(
            r.id,
        ) is None,
        rows::task_of_row(r) is Ok <==> {
            &&& types::uuid_parse(r.id) is Some
            &&& time::read_stamp(r.created_at) is Some
            &&& time::read_stamp(r.updated_at) is Some
            &&& (r.claimed_at matches Some(s) ==> s.len() == 0 || time::read_stamp(s) is Some)
            &&& (r.lease_until matches Some(s) ==> s.len() == 0 || time::read_stamp(s) is Some)
        },
{
    laws::lemma_state_names_differ();
    reveal_strlit("failed");
    reveal_strlit("cancelled");
    reveal_strlit("completed");
    assert("failed"@.len() != "cancelled"@.len() && "failed"@.len() != "completed"@.len());
}

/// A row is written column by column: each column holds what it is called.
pub proof fn lemma_row_is_written(t: TaskView)
    ensures
        ({
            let r = rows::row_of_task(t);
            &&& r.id == types::uuid_text(t.id)
            &&& r.name == t.name
            &&& r.kind == t.kind
            &&& r.priority == t.priority
            &&& r.state == match t.state {
                TaskState::Pending => "pending"@,
                TaskState::Claimed => "claimed"@,
                TaskState::Completed => "completed"@,
                TaskState::Failed => "failed"@,
                TaskState::Cancelled => "cancelled"@,
            }
            &&& r.claimed_by == t.claimed_by
            &&& r.payload == json::json_text(t.payload)
            &&& (t.result matches Some(v) ==> r.result == Some(json::json_text(v)))
            &&& (t.result is None ==> r.result is None)
            &&& r.created_at == time::stamp(t.created_at)
            &&& r.updated_at == time::stamp(t.updated_at)
            &&& (t.claimed_at matches Some(at) ==> r.claimed_at == Some(time::stamp(at)))
            &&& (t.claimed_at is None ==> r.claimed_at is None)
            &&& (t.lease_until matches Some(at) ==> r.lease_until == Some(time::stamp(at)))
            &&& (t.lease_until is None ==> r.lease_until is None)
        }),
{
}

/// The instant is spelled so that it is read back.
pub open spec fn spelled(t: Timestamp) -> bool {
    time::four_digit_year(t) && time::well_spelled(t)
}

/// Of two tables the second is the first but for the row with the given
/// identifier: the same rows in the same places, with the same identifiers.
pub open spec fn only_row_differs(
    before: Seq<TaskRowView>,
    after: Seq<TaskRowView>,
    id: TaskId,
) -> bool {
    &&& before.len() == after.len()
    &&& forall|i: int|
        0 <= i < before.len() ==> (#[trigger] after[i]).id == before[i].id && (before[i].id
            != types::uuid_text(id) ==> after[i] == before[i])
}

// ---------------------------------------------------------------------
// Posting
// ---------------------------------------------------------------------

/// A posting puts one row behind the others, which stay as they are. The row
/// holds what was posted, was created and changed now, is claimed by nobody
/// and has no result. It is completed where it is an announcement, and pending
/// otherwise.
pub proof fn lemma_posting(
    s: StoreView,
    id: TaskId,
    name: Seq<char>,
    kind: Seq<char>,
    priority: Seq<char>,
    payload: JsonView,
    now: Timestamp,
)
    requires
        model::task_row(s.tasks, id) is None,
    ensures
        ({
            let t = model::fresh_task(id, name, kind, priority, payload, now);
            let after = model::posted(s, t);
            let r = after.tasks.last();
            &&& after.tasks.len() == s.tasks.len() + 1
            &&& after.tasks.drop_last() == s.tasks
            &&& after.agents == s.agents
            &&& r.id == types::uuid_text(id)
            &&& r.name == name
            &&& r.kind == kind
            &&& r.priority == priority
            &&& r.payload == json::json_text(payload)
            &&& r.result is None
            &&& r.claimed_by is None && r.claimed_at is None && r.lease_until is None
            &&& r.created_at == time::stamp(now) && r.updated_at == time::stamp(now)
            &&& (kind == "ack"@ || kind == "knowledge"@ || kind == "decision"@) ==> r.state == "completed"@
            &&& !(kind == "ack"@ || kind == "knowledge"@ || kind == "decision"@) ==> r.state == "pending"@
            &&& t.id == id && t.name == name && t.kind == kind && t.priority == priority
            &&& t.payload == payload && t.result is None
            &&& t.created_at == now && t.updated_at == now
            &&& t.claimed_by is None && t.claimed_at is None && t.lease_until is None
            &&& t.state == TaskState::Completed <==> (kind == "ack"@ || kind == "knowledge"@ || kind == "decision"@)
            &&& t.state == TaskState::Pending <==> !(kind == "ack"@ || kind == "knowledge"@ || kind == "decision"@)
        }),
{
    let t = model::fresh_task(id, name, kind, priority, payload, now);
    assert(model::posted(s, t).tasks.drop_last() =~= s.tasks);
}

/// Work can be claimed as soon as it is posted, whatever its kind, and an
/// announcement never.
pub proof fn lemma_posted_work_can_be_claimed(
    s: StoreView,
    id: TaskId,
    name: Seq<char>,
    kind: Seq<char>,
    priority: Seq<char>,
    payload: JsonView,
    now: Timestamp,
    agent: Seq<char>,
    then: Timestamp,
    until: Timestamp,
)
    requires
        model::task_row(s.tasks, id) is None,
    ensures
        ({
            let after = laws::step(s, Op::Post { id, name, kind, priority, payload, now });
            let (claimed, answer) = model::claim(after, id, agent, then, until);
            &&& !(kind == "ack"@ || kind == "knowledge"@ || kind == "decision"@) ==> answer != Ok::<Option<TaskView>, RowError>(None)
                && (model::task_row(claimed.tasks, id) matches Some(r) && r.state == "claimed"@
                && r.claimed_by == Some(agent))
            &&& (kind == "ack"@ || kind == "knowledge"@ || kind == "decision"@) ==> answer == Ok::<Option<TaskView>, RowError>(None) && claimed
                == after
        }),
{
    let op = Op::Post { id, name, kind, priority, payload, now };
    laws::lemma_step_row(s, op, id);
    laws::lemma_step_row(laws::step(s, op), Op::Claim { id, agent, now: then, until }, id);
    laws::lemma_state_names_differ();
}

/// A second posting under an identifier that is taken changes nothing.
pub proof fn lemma_identifiers_are_taken_once(
    s: StoreView,
    id: TaskId,
    name: Seq<char>,
    kind: Seq<char>,
    priority: Seq<char>,
    payload: JsonView,
    now: Timestamp,
)
    requires
        model::task_row(s.tasks, id) is Some,
    ensures
        laws::step(s, Op::Post { id, name, kind, priority, payload, now }) == s,
{
}

// ---------------------------------------------------------------------
// Claiming
// ---------------------------------------------------------------------

proof fn lemma_put_only(tasks: Seq<TaskRowView>, r: TaskRowView, id: TaskId)
    requires
        r.id == types::uuid_text(id),
    ensures
        only_row_differs(tasks, model::put(tasks, r), id),
{
}

/// A claim on a pending task is won. It sets the claimer, the time of the
/// claim, the end of the lease and the time of the change, and nothing else in
/// this or any other row. A claim on anything else changes nothing.
pub proof fn lemma_claiming(
    s: StoreView,
    id: TaskId,
    agent: Seq<char>,
    now: Timestamp,
    until: Timestamp,
)
    ensures
        ({
            let (after, answer) = model::claim(s, id, agent, now, until);
            match model::task_row(s.tasks, id) {
                Some(r) if r.state == "pending"@ => {
                    &&& only_row_differs(s.tasks, after.tasks, id)
                    &&& after.agents == s.agents
                    &&& model::task_row(after.tasks, id) matches Some(u) && {
                        &&& u.state == "claimed"@
                        &&& u.claimed_by == Some(agent)
                        &&& u.claimed_at == Some(time::stamp(now))
                        &&& u.lease_until == Some(time::stamp(until))
                        &&& u.updated_at == time::stamp(now)
                        &&& u.id == r.id && u.name == r.name && u.kind == r.kind
                        &&& u.priority == r.priority && u.payload == r.payload
                        &&& u.result == r.result && u.created_at == r.created_at
                    }
                    &&& answer != Ok::<Option<TaskView>, RowError>(None)
                },
                _ => after == s && answer == Ok::<Option<TaskView>, RowError>(None),
            }
        }),
{
    laws::lemma_step_row(s, Op::Claim { id, agent, now, until }, id);
    store::lemma_row_at(s.tasks, types::uuid_text(id));
    match model::task_row(s.tasks, id) {
        Some(r) => lemma_put_only(s.tasks, model::granted(r, agent, now, until), id),
        None => {},
    }
}

/// The agent that wins a claim is handed the task that was there: its payload,
/// name, kind and priority, now claimed by the agent until the end of the
/// lease.
pub proof fn lemma_winner_is_handed_the_task(
    s: StoreView,
    id: TaskId,
    agent: Seq<char>,
    now: Timestamp,
    until: Timestamp,
    t: TaskView,
)
    requires
        model::task_row(s.tasks, id) matches Some(r) && r.state == "pending"@ && rows::task_of_row(
            r,
        ) == Ok::<TaskView, RowError>(t),
        spelled(now),
        spelled(until),
    ensures
        model::claim(s, id, agent, now, until).1 matches Ok(Some(u)) && {
            &&& u.id == t.id && u.name == t.name && u.kind == t.kind && u.priority == t.priority
            &&& u.payload == t.payload && u.result == t.result && u.created_at == t.created_at
            &&& u.state == TaskState::Claimed
            &&& u.claimed_by == Some(agent)
            &&& u.claimed_at == Some(now)
            &&& u.lease_until == Some(until)
            &&& u.updated_at == now
        },
{
    laws::lemma_claim_is_read(model::task_row(s.tasks, id)->0, t, agent, now, until);
}

// ---------------------------------------------------------------------
// Leases
// ---------------------------------------------------------------------

/// The length of a lease in numbers: what is asked for between one second and
/// an hour, a second where less is asked for and an hour where more is. Where
/// nothing is asked for the default stands in, which is five minutes unless it
/// was set.
pub proof fn lemma_lease_lengths(default_lease: u64, now: Timestamp, asked: Option<u64>)
    ensures
        types::DEFAULT_LEASE_SECONDS == 300,
        types::MAX_LEASE_SECONDS == 3_600,
        model::lease_end(default_lease, now, asked) matches Some(until) ==> {
            let secs = match asked {
                Some(n) => n,
                None => default_lease,
            };
            &&& 1 <= secs <= 3_600 ==> until.secs() == now.secs() + secs
            &&& secs < 1 ==> until.secs() == now.secs() + 1
            &&& secs > 3_600 ==> until.secs() == now.secs() + 3_600
            &&& now.nanos() < 1_000_000_000 ==> until.nanos() == now.nanos()
        },
        now.secs() + 3_600 <= time::MAX_SECS ==> model::lease_end(default_lease, now, asked)
            is Some,
{
    laws::lemma_lease_in_bounds(default_lease, now, asked);
    match model::lease_end(default_lease, now, asked) {
        Some(until) => {
            time::lemma_instant(
                (now.secs() + model::lease_length(default_lease, asked)) as i64,
                (now.nanos() % 1_000_000_000u32) as u32,
            );
        },
        None => {},
    }
}

/// An extension by the agent that holds the claim sets the end of the lease
/// and the time of the change, and nothing else in this or any other row. The
/// end is the later of the one on record and the one asked for. An extension
/// by anyone else, or of a task that is not claimed, changes nothing.
pub proof fn lemma_extending(
    s: StoreView,
    id: TaskId,
    agent: Seq<char>,
    now: Timestamp,
    until: Timestamp,
)
    ensures
        ({
            let (after, answer) = model::extend(s, id, agent, now, until);
            match model::task_row(s.tasks, id) {
                Some(r) if r.state == "claimed"@ && r.claimed_by == Some(agent) => {
                    &&& only_row_differs(s.tasks, after.tasks, id)
                    &&& after.agents == s.agents
                    &&& model::task_row(after.tasks, id) matches Some(u) && {
                        &&& u.state == "claimed"@ && u.claimed_by == Some(agent)
                        &&& u.claimed_at == r.claimed_at
                        &&& u.updated_at == time::stamp(now)
                        &&& u.lease_until == Some(time::stamp(until)) || u.lease_until
                            == r.lease_until
                        &&& u.id == r.id && u.name == r.name && u.kind == r.kind
                        &&& u.priority == r.priority && u.payload == r.payload
                        &&& u.result == r.result && u.created_at == r.created_at
                    }
                    &&& answer != Ok::<Option<Timestamp>, RowError>(None)
                },
                _ => after == s && answer == Ok::<Option<Timestamp>, RowError>(None),
            }
        }),
{
    laws::lemma_step_row(s, Op::Extend { id, agent, now, until }, id);
    store::lemma_row_at(s.tasks, types::uuid_text(id));
    match model::task_row(s.tasks, id) {
        Some(r) => lemma_put_only(s.tasks, model::extended(r, now, until), id),
        None => {},
    }
}

/// The answer to an extension is the end that is then on record: what was
/// asked for, or the end that was there where that is later. The task is
/// otherwise as it was.
pub proof fn lemma_extension_is_read(
    s: StoreView,
    id: TaskId,
    agent: Seq<char>,
    now: Timestamp,
    until: Timestamp,
    t: TaskView,
)
    requires
        model::task_row(s.tasks, id) matches Some(r) && r.state == "claimed"@ && r.claimed_by
            == Some(agent) && rows::task_of_row(r) == Ok::<TaskView, RowError>(t),
        spelled(now),
        spelled(until),
    ensures
        ({
            let (after, answer) = model::extend(s, id, agent, now, until);
            answer matches Ok(Some(end)) && {
                &&& (t.lease_until matches Some(old_end) ==> if until.lt(old_end) {
                    end == old_end
                } else {
                    end == until
                })
                &&& t.lease_until is None ==> end == until
                &&& model::task_at(after.tasks, id) matches Ok(Some(u)) && {
                    &&& u.lease_until == Some(end) && u.updated_at == now
                    &&& u.id == t.id && u.name == t.name && u.kind == t.kind
                    &&& u.priority == t.priority && u.payload == t.payload
                    &&& u.result == t.result && u.created_at == t.created_at
                    &&& u.state == t.state && u.claimed_by == t.claimed_by
                    &&& u.claimed_at == t.claimed_at
                }
            }
        }),
{
    let r = model::task_row(s.tasks, id)->0;
    laws::lemma_step_row(s, Op::Extend { id, agent, now, until }, id);
    lemma_row_is_read(r);
    lemma_row_is_read(model::extended(r, now, until));
}

// ---------------------------------------------------------------------
// Sweeping
// ---------------------------------------------------------------------

proof fn lemma_swept_at(s: StoreView, now: Timestamp, i: int)
    requires
        0 <= i < s.tasks.len(),
        laws::sweeps(s, now),
    ensures
        model::reclaim(s, now).0.tasks.len() == s.tasks.len(),
        model::reclaim(s, now).0.agents == s.agents,
        model::reclaim(s, now).0.tasks[i] == model::swept(s.tasks[i], now),
{
    laws::lemma_sweep_tables(s, now);
}

/// A sweep returns to the bulletin exactly the tasks that are claimed and
/// whose lease has ended. It clears their claimer, the time of the claim and
/// the lease, sets the time of the change, and touches nothing else: name,
/// kind, priority, payload, result and time of creation stay. All other rows
/// stay as they are.
pub proof fn lemma_sweeping(s: StoreView, now: Timestamp, i: int)
    requires
        0 <= i < s.tasks.len(),
        laws::sweeps(s, now),
    ensures
        ({
            let after = model::reclaim(s, now).0;
            let r = s.tasks[i];
            let u = after.tasks[i];
            &&& after.tasks.len() == s.tasks.len()
            &&& after.agents == s.agents
            &&& u.id == r.id && u.name == r.name && u.kind == r.kind && u.priority == r.priority
            &&& u.payload == r.payload && u.result == r.result && u.created_at == r.created_at
            &&& (r.state == "claimed"@ && (r.lease_until matches Some(end) && text::text_lt(
                end,
                time::stamp(now),
            ))) ==> {
                &&& u.state == "pending"@
                &&& u.claimed_by is None && u.claimed_at is None && u.lease_until is None
                &&& u.updated_at == time::stamp(now)
            }
            &&& r.state != "claimed"@ ==> u == r
            &&& r.lease_until is None ==> u == r
            &&& (r.lease_until matches Some(end) && !text::text_lt(end, time::stamp(now))) ==> u == r
        }),
{
    lemma_swept_at(s, now, i);
}

/// Time decides: a claim with a lease to an instant is swept after that
/// instant and not before.
pub proof fn lemma_sweeping_by_time(s: StoreView, now: Timestamp, i: int, until: Timestamp)
    requires
        0 <= i < s.tasks.len(),
        laws::sweeps(s, now),
        s.tasks[i].state == "claimed"@,
        s.tasks[i].lease_until == Some(time::stamp(until)),
        time::four_digit_year(until),
        spelled(now),
    ensures
        until.lt(now) <==> model::reclaim(s, now).0.tasks[i].state == "pending"@,
        !until.lt(now) <==> model::reclaim(s, now).0.tasks[i] == s.tasks[i],
{
    lemma_sweeping(s, now, i);
    laws::lemma_state_names_differ();
    assert(text::text_lt(time::stamp(until), time::stamp(now)) == until.lt(now));
}

/// A swept task is the task that was there without its claim.
pub proof fn lemma_release_is_read(s: StoreView, now: Timestamp, i: int, t: TaskView)
    requires
        0 <= i < s.tasks.len(),
        laws::sweeps(s, now),
        s.tasks[i].state == "claimed"@,
        s.tasks[i].lease_until matches Some(end) && text::text_lt(end, time::stamp(now)),
        rows::task_of_row(s.tasks[i]) == Ok::<TaskView, RowError>(t),
        spelled(now),
    ensures
        rows::task_of_row(model::reclaim(s, now).0.tasks[i]) == Ok::<TaskView, RowError>(
            TaskView {
                state: TaskState::Pending,
                claimed_by: None,
                claimed_at: None,
                lease_until: None,
                updated_at: now,
                ..t
            },
        ),
{
    lemma_sweeping(s, now, i);
    let u = model::reclaim(s, now).0.tasks[i];
    lemma_row_is_read(s.tasks[i]);
    lemma_row_is_read(u);
    laws::lemma_state_names_differ();
}

/// A swept task is fetched as the task that was there without its claim.
pub proof fn lemma_release_is_fetched(s: StoreView, now: Timestamp, id: TaskId, t: TaskView)
    requires
        laws::sweeps(s, now),
        model::task_row(s.tasks, id) matches Some(r) && r.state == "claimed"@ && (
        r.lease_until matches Some(end) && text::text_lt(end, time::stamp(now)))
            && rows::task_of_row(r) == Ok::<TaskView, RowError>(t),
        spelled(now),
    ensures
        model::task_row(model::reclaim(s, now).0.tasks, id) matches Some(u) && u.state
            == "pending"@ && rows::task_of_row(u) == Ok::<TaskView, RowError>(
            TaskView {
                state: TaskState::Pending,
                claimed_by: None,
                claimed_at: None,
                lease_until: None,
                updated_at: now,
                ..t
            },
        ),
{
    let r = model::task_row(s.tasks, id)->0;
    store::lemma_row_at(s.tasks, types::uuid_text(id));
    let i = choose|i: int| 0 <= i < s.tasks.len() && s.tasks[i] == r;
    lemma_swept_at(s, now, i);
    lemma_sweeping(s, now, i);
    lemma_release_is_read(s, now, i, t);
    lemma_swept_row(s, now, id);
}

proof fn lemma_swept_row(s: StoreView, now: Timestamp, id: TaskId)
    requires
        laws::sweeps(s, now),
        model::task_row(s.tasks, id) is Some,
    ensures
        model::task_row(model::reclaim(s, now).0.tasks, id) == Some(
            model::swept(model::task_row(s.tasks, id)->0, now),
        ),
{
    laws::lemma_step_row(s, Op::Sweep { now }, id);
}

proof fn lemma_claimed_row(
    s: StoreView,
    id: TaskId,
    agent: Seq<char>,
    now: Timestamp,
    until: Timestamp,
)
    requires
        model::task_row(s.tasks, id) matches Some(r) && r.state == "pending"@,
    ensures
        model::task_row(model::claim(s, id, agent, now, until).0.tasks, id) == Some(
            model::granted(model::task_row(s.tasks, id)->0, agent, now, until),
        ),
{
    laws::lemma_step_row(s, Op::Claim { id, agent, now, until }, id);
}

/// Abandoned work loses nothing on its way from one agent to the next: the
/// agent that wins the task after the sweep is handed the payload, name, kind
/// and priority with which it was there before the first claim.
pub proof fn lemma_work_passes_on_whole(
    s: StoreView,
    id: TaskId,
    t: TaskView,
    agent: Seq<char>,
    now: Timestamp,
    until: Timestamp,
    sweep: Timestamp,
    other: Seq<char>,
    then: Timestamp,
    other_until: Timestamp,
)
    requires
        model::task_row(s.tasks, id) matches Some(r) && r.state == "pending"@ && rows::task_of_row(
            r,
        ) == Ok::<TaskView, RowError>(t),
        spelled(now) && spelled(until) && spelled(sweep) && spelled(then) && spelled(other_until),
        until.lt(sweep),
        laws::sweeps(model::claim(s, id, agent, now, until).0, sweep),
    ensures
        ({
            let claimed = model::claim(s, id, agent, now, until).0;
            let swept = model::reclaim(claimed, sweep).0;
            model::claim(swept, id, other, then, other_until).1 matches Ok(Some(u)) && {
                &&& u.id == t.id && u.name == t.name && u.kind == t.kind
                &&& u.priority == t.priority && u.payload == t.payload
                &&& u.result == t.result && u.created_at == t.created_at
                &&& u.claimed_by == Some(other) && u.lease_until == Some(other_until)
            }
        }),
{
    let r = model::task_row(s.tasks, id)->0;
    let claimed = model::claim(s, id, agent, now, until).0;
    let swept = model::reclaim(claimed, sweep).0;
    lemma_claimed_row(s, id, agent, now, until);
    laws::lemma_claim_is_read(r, t, agent, now, until);
    let held = model::granted(r, agent, now, until);
    let h = rows::task_of_row(held)->Ok_0;
    assert(text::text_lt(time::stamp(until), time::stamp(sweep)) == until.lt(sweep));
    lemma_release_is_fetched(claimed, sweep, id, h);
    let freed = model::task_row(swept.tasks, id)->0;
    lemma_winner_is_handed_the_task(
        swept,
        id,
        other,
        then,
        other_until,
        rows::task_of_row(freed)->Ok_0,
    );
}

/// A sweep answers with the tasks that it returned: one for each row that it
/// changed.
pub proof fn lemma_sweep_answer(s: StoreView, now: Timestamp)
    ensures
        model::reclaim(s, now).1 matches Ok(tasks) ==> {
            &&& tasks.len() == count_ended(s.tasks, now)
            &&& forall|i: int|
                0 <= i < tasks.len() ==> exists|id: TaskId|
                    model::task_at(model::reclaim(s, now).0.tasks, id) == Ok::<
                        Option<TaskView>,
                        RowError,
                    >(Some(#[trigger] tasks[i])) && #[trigger] was_expired(s, now, id)
        },
{
    let gone = model::expired_rows(s.tasks, now);
    lemma_ended_count(s.tasks, now);
    laws::lemma_read_all_len(gone);
    laws::lemma_sweep_tables(s, now);
    match model::read_all(gone) {
        Ok(before) => if before.len() > 0 {
            let swept = model::rows_swept(s, now).tasks;
            match model::refetched(swept, before) {
                Ok(after) => {
                    lemma_refetched_each(swept, before);
                    assert forall|i: int| 0 <= i < after.len() implies exists|id: TaskId|
                        model::task_at(model::reclaim(s, now).0.tasks, id) == Ok::<
                            Option<TaskView>,
                            RowError,
                        >(Some(#[trigger] after[i])) && #[trigger] was_expired(s, now, id) by {
                        lemma_read_each(gone, i);
                        lemma_expired_each(s.tasks, now, i);
                        assert(was_expired(s, now, before[i].id));
                    }
                },
                Err(_) => {},
            }
        },
        Err(_) => {},
    }
}

/// How many rows are claimed and have outlived their lease.
pub open spec fn count_ended(tasks: Seq<TaskRowView>, now: Timestamp) -> nat
    decreases tasks.len(),
{
    if tasks.len() == 0 {
        0
    } else {
        count_ended(tasks.drop_last(), now) + if tasks.last().state == "claimed"@ && (
        tasks.last().lease_until matches Some(end) && text::text_lt(end, time::stamp(now))) {
            1nat
        } else {
            0nat
        }
    }
}

proof fn lemma_ended_count(tasks: Seq<TaskRowView>, now: Timestamp)
    ensures
        model::expired_rows(tasks, now).len() == count_ended(tasks, now),
    decreases tasks.len(),
{
    if tasks.len() > 0 {
        lemma_ended_count(tasks.drop_last(), now);
    }
}

/// Whether a row that is read under the identifier was claimed and had
/// outlived its lease.
pub open spec fn was_expired(s: StoreView, now: Timestamp, id: TaskId) -> bool {
    exists|k: int|
        0 <= k < s.tasks.len() && (#[trigger] s.tasks[k]).state == "claimed"@ && types::uuid_parse(
            s.tasks[k].id,
        ) == Some(id) && (s.tasks[k].lease_until matches Some(end) && text::text_lt(
            end,
            time::stamp(now),
        ))
}

proof fn lemma_refetched_each(tasks: Seq<TaskRowView>, before: Seq<TaskView>)
    ensures
        model::refetched(tasks, before) matches Ok(after) ==> after.len() == before.len()
            && forall|i: int|
            0 <= i < after.len() ==> model::task_at(tasks, before[i].id) == Ok::<
                Option<TaskView>,
                RowError,
            >(Some(#[trigger] after[i])),
    decreases before.len(),
{
    if before.len() > 0 {
        lemma_refetched_each(tasks, before.drop_last());
    }
}

proof fn lemma_read_each(table: Seq<TaskRowView>, i: int)
    requires
        0 <= i < table.len(),
    ensures
        model::read_all(table) matches Ok(tasks) ==> tasks.len() == table.len()
            && rows::task_of_row(table[i]) == Ok::<TaskView, RowError>(tasks[i]),
    decreases table.len(),
{
    laws::lemma_read_all_len(table);
    laws::lemma_read_all_len(table.drop_last());
    if i < table.len() - 1 {
        lemma_read_each(table.drop_last(), i);
    }
}

proof fn lemma_expired_each(tasks: Seq<TaskRowView>, now: Timestamp, i: int)
    requires
        0 <= i < model::expired_rows(tasks, now).len(),
    ensures
        tasks.contains(model::expired_rows(tasks, now)[i]),
        model::expired(model::expired_rows(tasks, now)[i], now),
    decreases tasks.len(),
{
    if tasks.len() > 0 {
        let fewer = model::expired_rows(tasks.drop_last(), now);
        if i < fewer.len() {
            lemma_expired_each(tasks.drop_last(), now, i);
            let k = choose|k: int|
                0 <= k < tasks.drop_last().len() && tasks.drop_last()[k] == fewer[i];
            assert(tasks[k] == fewer[i]);
        } else {
            assert(tasks[tasks.len() - 1] == model::expired_rows(tasks, now)[i]);
        }
    }
}

// ---------------------------------------------------------------------
// Ends
// ---------------------------------------------------------------------

/// A completion of a claimed task records the result, ends the lease and sets
/// the time of the change; the claimer and all else stay, in this and every
/// other row. A completion of anything else changes nothing.
pub proof fn lemma_completing(s: StoreView, id: TaskId, result: JsonView, now: Timestamp)
    ensures
        ({
            let (after, answer) = model::complete(s, id, result, now);
            match model::task_row(s.tasks, id) {
                Some(r) if r.state == "claimed"@ => {
                    &&& only_row_differs(s.tasks, after.tasks, id)
                    &&& after.agents == s.agents
                    &&& model::task_row(after.tasks, id) matches Some(u) && {
                        &&& u.state == "completed"@
                        &&& u.result == Some(json::json_text(result))
                        &&& u.lease_until is None
                        &&& u.updated_at == time::stamp(now)
                        &&& u.claimed_by == r.claimed_by && u.claimed_at == r.claimed_at
                        &&& u.id == r.id && u.name == r.name && u.kind == r.kind
                        &&& u.priority == r.priority && u.payload == r.payload
                        &&& u.created_at == r.created_at
                    }
                    &&& answer matches Ok(done) ==> done
                },
                _ => after == s && answer == Ok::<bool, RowError>(false),
            }
        }),
{
    laws::lemma_step_row(s, Op::Complete { id, result, now }, id);
    store::lemma_row_at(s.tasks, types::uuid_text(id));
    match model::task_row(s.tasks, id) {
        Some(r) => lemma_put_only(s.tasks, model::completed(r, result, now), id),
        None => {},
    }
}

/// A completed task is the task that was there, with its result.
pub proof fn lemma_completion_is_read(
    s: StoreView,
    id: TaskId,
    result: JsonView,
    now: Timestamp,
    t: TaskView,
)
    requires
        model::task_row(s.tasks, id) matches Some(r) && r.state == "claimed"@ && rows::task_of_row(
            r,
        ) == Ok::<TaskView, RowError>(t),
        spelled(now),
        json::json_parse(json::json_text(result)) == Some(result),
    ensures
        model::complete(s, id, result, now).1 == Ok::<bool, RowError>(true),
        model::task_at(model::complete(s, id, result, now).0.tasks, id) == Ok::<
            Option<TaskView>,
            RowError,
        >(
            Some(
                TaskView {
                    state: TaskState::Completed,
                    result: Some(result),
                    lease_until: None,
                    updated_at: now,
                    ..t
                },
            ),
        ),
{
    let r = model::task_row(s.tasks, id)->0;
    laws::lemma_step_row(s, Op::Complete { id, result, now }, id);
    lemma_row_is_read(r);
    lemma_row_is_read(model::completed(r, result, now));
    laws::lemma_state_names_differ();
}

/// A cancellation calls a task off whatever its state; it ends the lease and
/// sets the time of the change, and all else stays. Where there is no such
/// task nothing changes.
pub proof fn lemma_cancelling(s: StoreView, id: TaskId, now: Timestamp)
    ensures
        ({
            let (after, answer) = model::cancel(s, id, now);
            match model::task_row(s.tasks, id) {
                Some(r) => {
                    &&& only_row_differs(s.tasks, after.tasks, id)
                    &&& after.agents == s.agents
                    &&& model::task_row(after.tasks, id) matches Some(u) && {
                        &&& u.state == "cancelled"@
                        &&& u.lease_until is None
                        &&& u.updated_at == time::stamp(now)
                        &&& u.claimed_by == r.claimed_by && u.claimed_at == r.claimed_at
                        &&& u.id == r.id && u.name == r.name && u.kind == r.kind
                        &&& u.priority == r.priority && u.payload == r.payload
                        &&& u.result == r.result && u.created_at == r.created_at
                    }
                },
                None => after == s && answer == Ok::<(), RowError>(()),
            }
        }),
{
    laws::lemma_step_row(s, Op::Cancel { id, now }, id);
    store::lemma_row_at(s.tasks, types::uuid_text(id));
    match model::task_row(s.tasks, id) {
        Some(r) => lemma_put_only(s.tasks, model::cancelled(r, now), id),
        None => {},
    }
}

/// A cancelled task is the task that was there, called off.
pub proof fn lemma_cancellation_is_read(s: StoreView, id: TaskId, now: Timestamp, t: TaskView)
    requires
        model::task_row(s.tasks, id) matches Some(r) && rows::task_of_row(r) == Ok::<
            TaskView,
            RowError,
        >(t),
        spelled(now),
    ensures
        model::cancel(s, id, now).1 == Ok::<(), RowError>(()),
        model::task_at(model::cancel(s, id, now).0.tasks, id) == Ok::<Option<TaskView>, RowError>(
            Some(
                TaskView {
                    state: TaskState::Cancelled,
                    lease_until: None,
                    updated_at: now,
                    ..t
                },
            ),
        ),
{
    let r = model::task_row(s.tasks, id)->0;
    laws::lemma_step_row(s, Op::Cancel { id, now }, id);
    lemma_row_is_read(r);
    lemma_row_is_read(model::cancelled(r, now));
    laws::lemma_state_names_differ();
}

/// A completion with an acknowledgement does to the task what a completion
/// does, and puts the acknowledgement behind the other rows: a completed task
/// of kind `ack` with the name, priority and payload that it was given.
pub proof fn lemma_acknowledging(
    s: StoreView,
    id: TaskId,
    result: JsonView,
    ack: TaskView,
    now: Timestamp,
)
    requires
        laws::acknowledges(s, id, result, ack, now),
        laws::proper(Op::Acknowledge { id, result, ack, now }),
    ensures
        ({
            let after = model::complete_with_ack(s, id, result, ack, now);
            let alone = model::complete(s, id, result, now).0;
            let a = after.tasks.last();
            &&& after.tasks.len() == s.tasks.len() + 1
            &&& after.tasks.drop_last() == alone.tasks
            &&& after.agents == s.agents
            &&& a.id == types::uuid_text(ack.id) && a.name == ack.name
            &&& a.kind == "ack"@ && a.state == "completed"@
            &&& a.priority == ack.priority && a.payload == json::json_text(ack.payload)
            &&& a.claimed_by is None && a.result is None && a.lease_until is None
            &&& a.created_at == time::stamp(now) && a.updated_at == time::stamp(now)
        }),
{
    let after = model::complete_with_ack(s, id, result, ack, now);
    assert(after.tasks.drop_last() =~= model::complete(s, id, result, now).0.tasks);
}

// ---------------------------------------------------------------------
// Fetching and listing
// ---------------------------------------------------------------------

/// A task is fetched by the spelling of its identifier: what is found is read
/// in a row that holds this spelling, and nothing is found only where no row
/// does.
pub proof fn lemma_fetching(tasks: Seq<TaskRowView>, id: TaskId)
    ensures
        match model::task_at(tasks, id) {
            Ok(Some(t)) => exists|i: int|
                0 <= i < tasks.len() && (#[trigger] tasks[i]).id == types::uuid_text(id)
                    && rows::task_of_row(tasks[i]) == Ok::<TaskView, RowError>(t),
            Ok(None) => forall|i: int|
                0 <= i < tasks.len() ==> (#[trigger] tasks[i]).id != types::uuid_text(id),
            Err(e) => exists|i: int|
                0 <= i < tasks.len() && (#[trigger] tasks[i]).id == types::uuid_text(id)
                    && rows::task_of_row(tasks[i]) == Err::<TaskView, RowError>(e),
        },
{
    store::lemma_row_at(tasks, types::uuid_text(id));
    match model::task_row(tasks, id) {
        Some(r) => {
            let i = choose|i: int| 0 <= i < tasks.len() && tasks[i] == r;
            assert(tasks[i].id == types::uuid_text(id));
        },
        None => {},
    }
}

/// Whether a row has every column that is asked for.
pub open spec fn has_columns(
    r: TaskRowView,
    state: Option<Seq<char>>,
    kind: Option<Seq<char>>,
    priority: Option<Seq<char>>,
) -> bool {
    &&& state is Some ==> r.state == state->0
    &&& kind is Some ==> r.kind == kind->0
    &&& priority is Some ==> r.priority == priority->0
}

/// Every row of a listing has the state, the kind and the priority that are
/// asked for, all of them. A row that has them is left out only where the
/// listing is full of others that are not older.
pub proof fn lemma_listing_by_columns(
    tasks: Seq<TaskRowView>,
    limit: nat,
    state: Option<Seq<char>>,
    kind: Option<Seq<char>>,
    priority: Option<Seq<char>>,
    r: TaskRowView,
)
    ensures
        ({
            let list = model::listed(tasks, limit, FilterView { state, kind, priority });
            &&& list.len() <= limit
            &&& forall|i: int|
                0 <= i < list.len() ==> tasks.contains(#[trigger] list[i]) && (state is Some
                    ==> list[i].state == state->0) && (kind is Some ==> list[i].kind == kind->0)
                    && (priority is Some ==> list[i].priority == priority->0)
            &&& tasks.contains(r) && (state is Some ==> r.state == state->0) && (kind is Some
                ==> r.kind == kind->0) && (priority is Some ==> r.priority == priority->0)
                && !list.contains(r) ==> list.len() == limit && forall|i: int|
                0 <= i < list.len() ==> !text::text_lt(
                    (#[trigger] list[i]).created_at,
                    r.created_at,
                )
            &&& forall|i: int, j: int|
                0 <= i < j < list.len() ==> !text::text_lt(
                    (#[trigger] list[i]).created_at,
                    (#[trigger] list[j]).created_at,
                )
        }),
{
    let f = FilterView { state, kind, priority };
    laws::lemma_listing(tasks, limit, f, r);
}

/// How many rows have every column that is asked for.
pub open spec fn count_with(
    tasks: Seq<TaskRowView>,
    state: Option<Seq<char>>,
    kind: Option<Seq<char>>,
    priority: Option<Seq<char>>,
) -> nat
    decreases tasks.len(),
{
    if tasks.len() == 0 {
        0
    } else {
        count_with(tasks.drop_last(), state, kind, priority) + if has_columns(
            tasks.last(),
            state,
            kind,
            priority,
        ) {
            1nat
        } else {
            0nat
        }
    }
}

proof fn lemma_admitted_count(
    tasks: Seq<TaskRowView>,
    state: Option<Seq<char>>,
    kind: Option<Seq<char>>,
    priority: Option<Seq<char>>,
)
    ensures
        model::admitted(tasks, FilterView { state, kind, priority }).len() == count_with(
            tasks,
            state,
            kind,
            priority,
        ),
    decreases tasks.len(),
{
    if tasks.len() > 0 {
        lemma_admitted_count(tasks.drop_last(), state, kind, priority);
    }
}

/// A listing is as long as there are rows to show and as is asked for: no row
/// is shown twice or lost.
pub proof fn lemma_listing_length(
    tasks: Seq<TaskRowView>,
    limit: nat,
    state: Option<Seq<char>>,
    kind: Option<Seq<char>>,
    priority: Option<Seq<char>>,
)
    ensures
        ({
            let n = model::listed(tasks, limit, FilterView { state, kind, priority }).len();
            let all = count_with(tasks, state, kind, priority);
            n == if all < limit {
                all
            } else {
                limit
            }
        }),
{
    let f = FilterView { state, kind, priority };
    lemma_admitted_count(tasks, state, kind, priority);
    order::lemma_newest_order(model::created_ats(model::admitted(tasks, f)));
}

/// A listing without a filter leaves nothing out but what it has no room for.
pub proof fn lemma_unfiltered_listing(tasks: Seq<TaskRowView>, limit: nat)
    ensures
        model::listed(tasks, limit, model::no_filter()).len() == if tasks.len() < limit {
            tasks.len()
        } else {
            limit
        },
{
    lemma_listing_length(tasks, limit, None, None, None);
    lemma_all_counted(tasks);
}

proof fn lemma_all_counted(tasks: Seq<TaskRowView>)
    ensures
        count_with(tasks, None, None, None) == tasks.len(),
    decreases tasks.len(),
{
    if tasks.len() > 0 {
        lemma_all_counted(tasks.drop_last());
    }
}

/// The tasks of a listing are those of its rows, in the same order; one row
/// that cannot be read makes the listing fail.
pub proof fn lemma_listing_is_read(table: Seq<TaskRowView>)
    ensures
        match model::read_all(table) {
            Ok(tasks) => tasks.len() == table.len() && forall|i: int|
                0 <= i < table.len() ==> rows::task_of_row(table[i]) == Ok::<TaskView, RowError>(
                    #[trigger] tasks[i],
                ),
            Err(e) => exists|i: int|
                0 <= i < table.len() && rows::task_of_row(#[trigger] table[i]) == Err::<
                    TaskView,
                    RowError,
                >(e),
        },
    decreases table.len(),
{
    if table.len() > 0 {
        let rest = table.drop_last();
        lemma_listing_is_read(rest);
        match model::read_all(rest) {
            Ok(_) => match rows::task_of_row(table.last()) {
                Ok(_) => {},
                Err(_) => assert(rows::task_of_row(table[table.len() - 1]) is Err),
            },
            Err(e) => {
                let i = choose|i: int|
                    0 <= i < rest.len() && rows::task_of_row(#[trigger] rest[i]) == Err::<
                        TaskView,
                        RowError,
                    >(e);
                assert(table[i] == rest[i]);
            },
        }
    }
}

// ---------------------------------------------------------------------
// Agents
// ---------------------------------------------------------------------

/// A report puts the name and the time of the report on record. The first
/// report of an agent is also its first sight, and stays on record as such;
/// one that was not known is known from the next report on. The rows of other
/// agents, and all tasks, stay as they are.
pub proof fn lemma_reporting(s: StoreView, id: Seq<char>, name: Seq<char>, now: Timestamp)
    ensures
        ({
            let after = model::heartbeat(s, id, name, now);
            let n = s.agents.len();
            &&& after.tasks == s.tasks
            &&& after.agents.len() >= n
            &&& forall|i: int|
                0 <= i < n ==> (#[trigger] after.agents[i]).id == s.agents[i].id && (
                s.agents[i].id != id ==> after.agents[i] == s.agents[i])
            &&& (model::agent_at(s.agents, id) is None ==> {
                &&& after.agents.len() == n + 1
                &&& after.agents.last().id == id && after.agents.last().name == name
                &&& after.agents.last().last_seen == time::stamp(now)
                &&& after.agents.last().first_seen == time::stamp(now)
            })
            &&& (model::agent_at(s.agents, id) matches Some(a) ==> {
                &&& after.agents.len() == n
                &&& model::agent_at(after.agents, id) matches Some(b) && {
                    &&& b.name == name && b.last_seen == time::stamp(now)
                    &&& a.first_seen != "1970-01-01T00:00:00Z"@ ==> b.first_seen == a.first_seen
                    &&& a.first_seen == "1970-01-01T00:00:00Z"@ ==> b.first_seen == time::stamp(
                        now,
                    )
                }
            })
        }),
{
    laws::lemma_reports_change_no_task(s, id, name, now);
    store::lemma_agent_at(s.agents, id);
}

/// A listing of agents shows every agent on record once, the one that
/// reported last first, each under its identifier and name.
pub proof fn lemma_agents_listing(s: StoreView)
    ensures
        model::agents_listed(s) matches Ok(agents) ==> {
            &&& agents.len() == s.agents.len()
            &&& forall|i: int|
                #![trigger agents[i]]
                0 <= i < agents.len() ==> is_agent_of(
                    agents[i],
                    model::agents_in_order(s.agents)[i],
                )
            &&& forall|i: int|
                0 <= i < agents.len() ==> exists|k: int|
                    0 <= k < s.agents.len() && is_agent_of(
                        #[trigger] agents[i],
                        #[trigger] s.agents[k],
                    )
            &&& forall|k: int|
                0 <= k < s.agents.len() ==> exists|i: int|
                    0 <= i < agents.len() && is_agent_of(
                        #[trigger] agents[i],
                        #[trigger] s.agents[k],
                    )
        },
        forall|i: int, j: int|
            0 <= i < j < s.agents.len() ==> !text::text_lt(
                (#[trigger] model::agents_in_order(s.agents)[i]).last_seen,
                (#[trigger] model::agents_in_order(s.agents)[j]).last_seen,
            ),
{
    let at = model::last_seens(s.agents);
    let ordered = order::newest_order(at);
    let table = model::agents_in_order(s.agents);
    order::lemma_newest_order(at);
    assert forall|i: int, j: int| 0 <= i < j < s.agents.len() implies !text::text_lt(
        (#[trigger] table[i]).last_seen,
        (#[trigger] table[j]).last_seen,
    ) by {
        assert(order::precedes(at, ordered[i], ordered[j]));
        assert(at[ordered[i]] == table[i].last_seen && at[ordered[j]] == table[j].last_seen);
        text::lemma_text_order_total(table[i].last_seen, table[j].last_seen);
    }
    lemma_agents_read_each(table, s.tasks);
    match model::agents_listed(s) {
        Ok(agents) => {
            assert forall|i: int| 0 <= i < agents.len() implies exists|k: int|
                0 <= k < s.agents.len() && is_agent_of(
                    #[trigger] agents[i],
                    #[trigger] s.agents[k],
                ) by {
                assert(table[i] == s.agents[ordered[i]]);
                assert(is_agent_of(agents[i], s.agents[ordered[i]]));
            }
            assert forall|k: int| 0 <= k < s.agents.len() implies exists|i: int|
                0 <= i < agents.len() && is_agent_of(
                    #[trigger] agents[i],
                    #[trigger] s.agents[k],
                ) by {
                assert(ordered.contains(k));
                let i = choose|i: int| 0 <= i < ordered.len() && ordered[i] == k;
                assert(table[i] == s.agents[k]);
                assert(is_agent_of(agents[i], s.agents[k]));
            }
        },
        Err(_) => {},
    }
}

/// Whether an agent is the one in a row: the same identifier and name, first
/// and last seen when the row says.
pub open spec fn is_agent_of(a: AgentView, r: AgentRowView) -> bool {
    &&& a.id == r.id
    &&& a.name == r.name
    &&& time::read_stamp(r.first_seen) == Some(a.first_seen)
    &&& time::read_stamp(r.last_seen) == Some(a.last_seen)
}

proof fn lemma_agents_read_each(table: Seq<AgentRowView>, tasks: Seq<TaskRowView>)
    ensures
        model::agents_read(table, tasks) matches Ok(agents) ==> agents.len() == table.len()
            && forall|i: int|
            #![trigger agents[i]]
            0 <= i < table.len() ==> is_agent_of(agents[i], table[i]) && agents[i].current_task
                == model::current_task(tasks, table[i].id),
    decreases table.len(),
{
    if table.len() > 0 {
        lemma_agents_read_each(table.drop_last(), tasks);
    }
}

/// A listing of agents fails only where some agent's times cannot be read.
pub proof fn lemma_agents_are_listed(s: StoreView)
    requires
        forall|k: int|
            0 <= k < s.agents.len() ==> time::read_stamp((#[trigger] s.agents[k]).first_seen)
                is Some && time::read_stamp(s.agents[k].last_seen) is Some,
    ensures
        model::agents_listed(s) is Ok,
{
    let at = model::last_seens(s.agents);
    let ordered = order::newest_order(at);
    let table = model::agents_in_order(s.agents);
    order::lemma_newest_order(at);
    assert forall|i: int| 0 <= i < table.len() implies time::read_stamp(
        (#[trigger] table[i]).first_seen,
    ) is Some && time::read_stamp(table[i].last_seen) is Some by {
        assert(table[i] == s.agents[ordered[i]]);
    }
    lemma_agents_readable(table, s.tasks);
}

proof fn lemma_agents_readable(table: Seq<AgentRowView>, tasks: Seq<TaskRowView>)
    requires
        forall|k: int|
            0 <= k < table.len() ==> time::read_stamp((#[trigger] table[k]).first_seen) is Some
                && time::read_stamp(table[k].last_seen) is Some,
    ensures
        model::agents_read(table, tasks) is Ok,
    decreases table.len(),
{
    if table.len() > 0 {
        lemma_agents_readable(table.drop_last(), tasks);
        assert(time::read_stamp(table[table.len() - 1].first_seen) is Some);
    }
}

/// An agent is shown with a task that it holds: where a task is shown, some
/// row with that identifier is claimed, and by this agent. Where none is
/// shown, the agent holds no task, or the first that it holds has an
/// identifier that cannot be read.
pub proof fn lemma_agents_show_what_they_hold(s: StoreView, i: int)
    requires
        model::agents_listed(s) matches Ok(agents) && 0 <= i < agents.len(),
    ensures
        ({
            let a = model::agents_listed(s)->Ok_0[i];
            match a.current_task {
                Some(id) => exists|k: int|
                    0 <= k < s.tasks.len() && (#[trigger] s.tasks[k]).state == "claimed"@
                        && s.tasks[k].claimed_by == Some(a.id) && types::uuid_parse(
                        s.tasks[k].id,
                    ) == Some(id),
                None => forall|k: int|
                    0 <= k < s.tasks.len() && (#[trigger] s.tasks[k]).state == "claimed"@
                        && s.tasks[k].claimed_by == Some(a.id) ==> exists|j: int|
                        0 <= j <= k && types::uuid_parse((#[trigger] s.tasks[j]).id) is None
                            && s.tasks[j].state == "claimed"@ && s.tasks[j].claimed_by == Some(
                            a.id,
                        ),
            }
        }),
{
    let at = model::last_seens(s.agents);
    order::lemma_newest_order(at);
    let table = model::agents_in_order(s.agents);
    lemma_agents_read_each(table, s.tasks);
    let a = model::agents_listed(s)->Ok_0[i];
    lemma_held(s.tasks, a.id);
}

proof fn lemma_held(tasks: Seq<TaskRowView>, agent: Seq<char>)
    ensures
        match model::held_row(tasks, agent) {
            Some(r) => exists|j: int|
                0 <= j < tasks.len() && #[trigger] tasks[j] == r && r.state == "claimed"@
                    && r.claimed_by == Some(agent) && forall|k: int|
                    0 <= k < j ==> !((#[trigger] tasks[k]).state == "claimed"@
                        && tasks[k].claimed_by == Some(agent)),
            None => forall|k: int|
                0 <= k < tasks.len() ==> !((#[trigger] tasks[k]).state == "claimed"@
                    && tasks[k].claimed_by == Some(agent)),
        },
    decreases tasks.len(),
{
    if tasks.len() > 0 {
        let rest = tasks.drop_first();
        lemma_held(rest, agent);
        if tasks[0].state == "claimed"@ && tasks[0].claimed_by == Some(agent) {
            assert(tasks[0] == tasks[0]);
        } else {
            match model::held_row(rest, agent) {
                Some(r) => {
                    let j = choose|j: int|
                        0 <= j < rest.len() && #[trigger] rest[j] == r && r.state == "claimed"@
                            && r.claimed_by == Some(agent) && forall|k: int|
                            0 <= k < j ==> !((#[trigger] rest[k]).state == "claimed"@
                                && rest[k].claimed_by == Some(agent));
                    assert(tasks[j + 1] == r);
                    assert forall|k: int| 0 <= k < j + 1 implies !((#[trigger] tasks[k]).state
                        == "claimed"@ && tasks[k].claimed_by == Some(agent)) by {
                        if k > 0 {
                            assert(rest[k - 1] == tasks[k]);
                        }
                    }
                },
                None => {
                    assert forall|k: int| 0 <= k < tasks.len() implies !((
                    #[trigger] tasks[k]).state == "claimed"@ && tasks[k].claimed_by == Some(
                        agent,
                    )) by {
                        if k > 0 {
                            assert(rest[k - 1] == tasks[k]);
                        }
                    }
                },
            }
        }
    }
}

/// An agent that has claimed a task is shown with one, where the identifiers
/// of the rows that it holds can be read.
pub proof fn lemma_claimers_are_shown_at_work(s: StoreView, i: int, k: int)
    requires
        model::agents_listed(s) matches Ok(agents) && 0 <= i < agents.len(),
        0 <= k < s.tasks.len(),
        s.tasks[k].state == "claimed"@,
        s.tasks[k].claimed_by == Some(model::agents_listed(s)->Ok_0[i].id),
        forall|j: int|
            0 <= j < s.tasks.len() ==> types::uuid_parse((#[trigger] s.tasks[j]).id) is Some,
    ensures
        model::agents_listed(s)->Ok_0[i].current_task is Some,
{
    lemma_agents_show_what_they_hold(s, i);
}

// ---------------------------------------------------------------------
// Opening
// ---------------------------------------------------------------------

/// Tables are opened as they are: every row is there in its place, readable
/// or not, nothing is yet to be written, and leases last five minutes unless
/// something else is asked for.
pub proof fn lemma_opening(
    tasks: Seq<TaskRowView>,
    agents: Seq<AgentRowView>,
    owners: Option<Seq<(Seq<char>, Seq<char>)>>,
)
    requires
        forall|i: int, j: int|
            0 <= i < j < tasks.len() ==> (#[trigger] tasks[i]).id != (#[trigger] tasks[j]).id,
        forall|i: int, j: int|
            0 <= i < j < agents.len() ==> (#[trigger] agents[i]).id != (#[trigger] agents[j]).id,
    ensures
        store::opened(tasks, agents, owners) matches Ok(s) && {
            &&& s.tasks == tasks
            &&& s.agents == agents
            &&& s.changes == Seq::<ChangeView>::empty()
            &&& s.default_lease == 300
            &&& s.vault is Some <==> owners is Some
            &&& (s.vault matches Some(v) ==> v.owners == owners->0 && v.notes.len() == 1)
        },
{
}

} // verus!
