//! What holds of the bulletin as a whole, whatever is done to it and in
//! whatever order.

use vstd::prelude::*;

use crate::json;
use crate::json::JsonView;
use crate::model;
use crate::model::{FilterView, StoreView};
use crate::order;
use crate::rows;
use crate::rows::{AgentRowView, ChangeView, RowError, TaskRowView};
use crate::slug;
use crate::store;
use crate::text;
use crate::time;
use crate::time::Timestamp;
use crate::types;
use crate::types::{TaskId, TaskState, TaskView};
use crate::vault;

verus! {

// ---------------------------------------------------------------------
// Steps
// ---------------------------------------------------------------------

/// One operation on the bulletin.
pub enum Op {
    Post {
        id: TaskId,
        name: Seq<char>,
        kind: Seq<char>,
        priority: Seq<char>,
        payload: JsonView,
        now: Timestamp,
    },
    Claim { id: TaskId, agent: Seq<char>, now: Timestamp, until: Timestamp },
    Extend { id: TaskId, agent: Seq<char>, now: Timestamp, until: Timestamp },
    Sweep { now: Timestamp },
    Complete { id: TaskId, result: JsonView, now: Timestamp },
    Acknowledge { id: TaskId, result: JsonView, ack: TaskView, now: Timestamp },
    Cancel { id: TaskId, now: Timestamp },
    Report { agent: Seq<char>, name: Seq<char>, now: Timestamp },
}

/// An acknowledgement that is posted is a fresh task of its kind.
pub open spec fn proper(op: Op) -> bool {
    op matches Op::Acknowledge { ack, now, .. } ==> ack == model::fresh_task(
        ack.id,
        ack.name,
        "ack"@,
        ack.priority,
        ack.payload,
        now,
    )
}

/// Whether a sweep sweeps: all rows that it would sweep can be read.
pub open spec fn sweeps(s: StoreView, now: Timestamp) -> bool {
    model::read_all(model::expired_rows(s.tasks, now)) is Ok
}

/// Whether an acknowledgement is accepted: the task is claimed and can be
/// read, and the identifier of the acknowledgement is free.
pub open spec fn acknowledges(
    s: StoreView,
    id: TaskId,
    result: JsonView,
    ack: TaskView,
    now: Timestamp,
) -> bool {
    &&& model::task_row(s.tasks, ack.id) is None
    &&& model::task_row(s.tasks, id) matches Some(r) && r.state == "claimed"@
        && rows::task_of_row(model::completed(r, result, now)) is Ok
}

/// The bulletin after one operation; one that is refused leaves it as it is.
pub open spec fn step(s: StoreView, op: Op) -> StoreView {
    match op {
        Op::Post { id, name, kind, priority, payload, now } => if model::task_row(
            s.tasks,
            id,
        ) is Some {
            s
        } else {
            model::posted(s, model::fresh_task(id, name, kind, priority, payload, now))
        },
        Op::Claim { id, agent, now, until } => model::claim(s, id, agent, now, until).0,
        Op::Extend { id, agent, now, until } => model::extend(s, id, agent, now, until).0,
        Op::Sweep { now } => model::reclaim(s, now).0,
        Op::Complete { id, result, now } => model::complete(s, id, result, now).0,
        Op::Acknowledge { id, result, ack, now } => if acknowledges(s, id, result, ack, now) {
            model::complete_with_ack(s, id, result, ack, now)
        } else {
            s
        },
        Op::Cancel { id, now } => model::cancel(s, id, now).0,
        Op::Report { agent, name, now } => model::heartbeat(s, agent, name, now),
    }
}

/// The bulletin after a run of operations.
pub open spec fn run(s: StoreView, ops: Seq<Op>) -> StoreView
    decreases ops.len(),
{
    if ops.len() == 0 {
        s
    } else {
        step(run(s, ops.drop_last()), ops.last())
    }
}

/// All operations of a run are proper.
pub open spec fn all_proper(ops: Seq<Op>) -> bool {
    forall|i: int| 0 <= i < ops.len() ==> proper(#[trigger] ops[i])
}

/// The tasks that an operation is about.
pub open spec fn concerns(op: Op, id: TaskId) -> bool {
    match op {
        Op::Post { id: x, .. } => x == id,
        Op::Claim { id: x, .. } => x == id,
        Op::Extend { id: x, .. } => x == id,
        Op::Sweep { .. } => true,
        Op::Complete { id: x, .. } => x == id,
        Op::Acknowledge { id: x, ack, .. } => x == id || ack.id == id,
        Op::Cancel { id: x, .. } => x == id,
        Op::Report { .. } => false,
    }
}

/// What an operation makes of the row of one task.
pub open spec fn row_after(s: StoreView, op: Op, id: TaskId) -> Option<TaskRowView> {
    let before = model::task_row(s.tasks, id);
    match op {
        Op::Post { id: x, name, kind, priority, payload, now } => if before is None && x == id {
            Some(rows::row_of_task(model::fresh_task(x, name, kind, priority, payload, now)))
        } else {
            before
        },
        Op::Claim { id: x, agent, now, until } => match before {
            Some(r) if x == id && r.state == "pending"@ => Some(
                model::granted(r, agent, now, until),
            ),
            _ => before,
        },
        Op::Extend { id: x, agent, now, until } => match before {
            Some(r) if x == id && model::holds(r, agent) => Some(model::extended(r, now, until)),
            _ => before,
        },
        Op::Sweep { now } => match before {
            Some(r) => if sweeps(s, now) {
                Some(model::swept(r, now))
            } else {
                before
            },
            None => None,
        },
        Op::Complete { id: x, result, now } => match before {
            Some(r) if x == id && r.state == "claimed"@ => Some(model::completed(r, result, now)),
            _ => before,
        },
        Op::Acknowledge { id: x, result, ack, now } => if acknowledges(s, x, result, ack, now) {
            match before {
                Some(r) => if x == id {
                    Some(model::completed(r, result, now))
                } else {
                    before
                },
                None => if ack.id == id {
                    Some(rows::row_of_task(ack))
                } else {
                    None
                },
            }
        } else {
            before
        },
        Op::Cancel { id: x, now } => match before {
            Some(r) if x == id => Some(model::cancelled(r, now)),
            _ => before,
        },
        Op::Report { .. } => before,
    }
}

proof fn lemma_at_push(tasks: Seq<TaskRowView>, r: TaskRowView, key: Seq<char>)
    ensures
        model::row_at(tasks.push(r), key) == match model::row_at(tasks, key) {
            Some(u) => Some(u),
            None => if r.id == key {
                Some(r)
            } else {
                None
            },
        },
    decreases tasks.len(),
{
    if tasks.len() > 0 {
        lemma_at_push(tasks.drop_first(), r, key);
        assert(tasks.push(r).drop_first() =~= tasks.drop_first().push(r));
    } else {
        assert(tasks.push(r).drop_first() =~= tasks);
    }
}

proof fn lemma_at_swept(tasks: Seq<TaskRowView>, now: Timestamp, key: Seq<char>)
    ensures
        model::row_at(model::swept_tasks(tasks, now), key) == match model::row_at(tasks, key) {
            Some(r) => Some(model::swept(r, now)),
            None => None,
        },
    decreases tasks.len(),
{
    if tasks.len() > 0 {
        lemma_at_swept(tasks.drop_first(), now, key);
        assert(model::swept_tasks(tasks, now).drop_first() =~= model::swept_tasks(
            tasks.drop_first(),
            now,
        ));
    }
}

/// Two bulletins that differ in the vault alone.
pub open spec fn same_tables(a: StoreView, b: StoreView) -> bool {
    a.tasks == b.tasks && a.agents == b.agents && a.changes == b.changes && a.default_lease
        == b.default_lease
}

proof fn lemma_abandonments_keep(
    s: StoreView,
    before: Seq<TaskView>,
    after: Seq<TaskView>,
    now: Timestamp,
    k: nat,
)
    ensures
        same_tables(model::abandonments_noted(s, before, after, now, k), s),
    decreases k,
{
    if k > 0 {
        lemma_abandonments_keep(s, before, after, now, (k - 1) as nat);
    }
}

/// Where all rows can be read there is a task for each.
pub proof fn lemma_read_all_len(table: Seq<TaskRowView>)
    ensures
        model::read_all(table) matches Ok(tasks) ==> tasks.len() == table.len(),
    decreases table.len(),
{
    if table.len() > 0 {
        lemma_read_all_len(table.drop_last());
    }
}

proof fn lemma_none_expired(tasks: Seq<TaskRowView>, now: Timestamp)
    ensures
        model::expired_rows(tasks, now).len() == 0 ==> model::swept_tasks(tasks, now) == tasks,
        (forall|i: int| 0 <= i < tasks.len() ==> !model::expired(#[trigger] tasks[i], now))
            <==> model::expired_rows(tasks, now).len() == 0,
    decreases tasks.len(),
{
    if tasks.len() > 0 {
        let shorter = tasks.drop_last();
        lemma_none_expired(shorter, now);
        if model::expired_rows(tasks, now).len() == 0 {
            assert(!model::expired(tasks.last(), now));
            assert(model::expired_rows(shorter, now).len() == 0);
            assert forall|i: int| 0 <= i < tasks.len() implies !model::expired(
                #[trigger] tasks[i],
                now,
            ) by {
                if i < shorter.len() {
                    assert(shorter[i] == tasks[i]);
                }
            }
            assert(model::swept_tasks(tasks, now) =~= tasks);
        }
        if forall|i: int| 0 <= i < tasks.len() ==> !model::expired(#[trigger] tasks[i], now) {
            assert forall|i: int| 0 <= i < shorter.len() implies !model::expired(
                #[trigger] shorter[i],
                now,
            ) by {
                assert(shorter[i] == tasks[i]);
            }
            assert(!model::expired(tasks[tasks.len() - 1], now));
        }
    } else {
        assert(model::swept_tasks(tasks, now) =~= tasks);
    }
}

/// What a sweep makes of the tables: all rows are swept or none is.
pub proof fn lemma_sweep_tables(s: StoreView, now: Timestamp)
    ensures
        sweeps(s, now) ==> same_tables(model::reclaim(s, now).0, model::rows_swept(s, now)),
        !sweeps(s, now) ==> model::reclaim(s, now).0 == s,
        model::reclaim(s, now).0.agents == s.agents,
{
    let gone = model::expired_rows(s.tasks, now);
    lemma_read_all_len(gone);
    lemma_none_expired(s.tasks, now);
    match model::read_all(gone) {
        Ok(before) => {
            if before.len() == 0 {
                assert(s.changes + model::releases(gone, now) =~= s.changes);
            } else {
                match model::refetched(model::rows_swept(s, now).tasks, before) {
                    Ok(after) => lemma_abandonments_keep(
                        model::rows_swept(s, now),
                        before,
                        after,
                        now,
                        before.len(),
                    ),
                    Err(_) => {},
                }
            }
        },
        Err(_) => {},
    }
}

/// A sweep that sweeps a row and comes to its end returns a task.
pub proof fn lemma_sweep_returns(s: StoreView, now: Timestamp)
    ensures
        model::expired_rows(s.tasks, now).len() > 0 ==> (model::reclaim(s, now).1 matches Ok(tasks)
            ==> tasks.len() > 0),
{
    let gone = model::expired_rows(s.tasks, now);
    lemma_read_all_len(gone);
    match model::read_all(gone) {
        Ok(before) => lemma_refetched_len(model::rows_swept(s, now).tasks, before),
        Err(_) => {},
    }
}

/// A task that was just posted has no claim to lose.
pub proof fn lemma_fresh_is_not_swept(t: TaskView, now: Timestamp)
    requires
        t.lease_until is None,
    ensures
        model::swept(rows::row_of_task(t), now) == rows::row_of_task(t),
{
}

/// Every operation does to a task what is said of it, and an operation that
/// is about other tasks leaves it alone.
pub proof fn lemma_step_row(s: StoreView, op: Op, id: TaskId)
    ensures
        model::task_row(step(s, op).tasks, id) == row_after(s, op, id),
        !concerns(op, id) ==> model::task_row(step(s, op).tasks, id) == model::task_row(
            s.tasks,
            id,
        ),
{
    let key = types::uuid_text(id);
    store::lemma_row_at(s.tasks, key);
    let x = op_id(op);
    let other = types::uuid_text(x);
    store::lemma_row_at(s.tasks, other);
    if key == other {
        types::lemma_uuid_text_unique(id, x);
    }
    match op {
        Op::Post { name, kind, priority, payload, now, .. } => {
            lemma_at_push(
                s.tasks,
                rows::row_of_task(model::fresh_task(x, name, kind, priority, payload, now)),
                key,
            );
        },
        Op::Claim { agent, now, until, .. } => match model::row_at(s.tasks, other) {
            Some(r) => store::lemma_put(s.tasks, model::granted(r, agent, now, until), key),
            None => {},
        },
        Op::Extend { now, until, .. } => match model::row_at(s.tasks, other) {
            Some(r) => store::lemma_put(s.tasks, model::extended(r, now, until), key),
            None => {},
        },
        Op::Sweep { now } => {
            lemma_at_swept(s.tasks, now, key);
            lemma_sweep_tables(s, now);
        },
        Op::Complete { result, now, .. } => match model::row_at(s.tasks, other) {
            Some(r) => store::lemma_put(s.tasks, model::completed(r, result, now), key),
            None => {},
        },
        Op::Acknowledge { result, ack, now, .. } => match model::row_at(s.tasks, other) {
            Some(r) => {
                let c = model::completed(r, result, now);
                store::lemma_put(s.tasks, c, key);
                lemma_at_push(model::put(s.tasks, c), rows::row_of_task(ack), key);
                if key == types::uuid_text(ack.id) {
                    types::lemma_uuid_text_unique(id, ack.id);
                }
            },
            None => {},
        },
        Op::Cancel { now, .. } => match model::row_at(s.tasks, other) {
            Some(r) => store::lemma_put(s.tasks, model::cancelled(r, now), key),
            None => {},
        },
        Op::Report { .. } => {},
    }
}

/// The task that an operation names, if it names one.
pub open spec fn op_id(op: Op) -> TaskId {
    match op {
        Op::Post { id, .. } => id,
        Op::Claim { id, .. } => id,
        Op::Extend { id, .. } => id,
        Op::Complete { id, .. } => id,
        Op::Acknowledge { id, .. } => id,
        Op::Cancel { id, .. } => id,
        _ => 0,
    }
}

// ---------------------------------------------------------------------
// Identifiers stay unique
// ---------------------------------------------------------------------

/// No operation gives an identifier to a second row.
pub proof fn lemma_step_well_formed(s: StoreView, op: Op)
    requires
        model::well_formed(s),
    ensures
        model::well_formed(step(s, op)),
{
    match op {
        Op::Post { id, name, kind, priority, payload, now } => {
            if model::task_row(s.tasks, id) is None {
                store::lemma_push_unique(
                    s.tasks,
                    rows::row_of_task(model::fresh_task(id, name, kind, priority, payload, now)),
                );
            }
        },
        Op::Claim { id, agent, now, until } => match model::task_row(s.tasks, id) {
            Some(r) => store::lemma_put_unique(s.tasks, model::granted(r, agent, now, until)),
            None => {},
        },
        Op::Extend { id, now, until, .. } => match model::task_row(s.tasks, id) {
            Some(r) => store::lemma_put_unique(s.tasks, model::extended(r, now, until)),
            None => {},
        },
        Op::Sweep { now } => {
            store::lemma_swept_unique(s.tasks, now);
            lemma_sweep_tables(s, now);
        },
        Op::Complete { id, result, now } => match model::task_row(s.tasks, id) {
            Some(r) => store::lemma_put_unique(s.tasks, model::completed(r, result, now)),
            None => {},
        },
        Op::Acknowledge { id, result, ack, now } => match model::task_row(s.tasks, id) {
            Some(r) => {
                let c = model::completed(r, result, now);
                store::lemma_put_unique(s.tasks, c);
                if model::task_row(s.tasks, ack.id) is None {
                    store::lemma_put(s.tasks, c, types::uuid_text(ack.id));
                    store::lemma_push_unique(model::put(s.tasks, c), rows::row_of_task(ack));
                }
            },
            None => {},
        },
        Op::Cancel { id, now } => match model::task_row(s.tasks, id) {
            Some(r) => store::lemma_put_unique(s.tasks, model::cancelled(r, now)),
            None => {},
        },
        Op::Report { agent, name, now } => {
            store::lemma_report_unique(s.agents, agent, name, now);
        },
    }
}

// ---------------------------------------------------------------------
// Claims are atomic
// ---------------------------------------------------------------------

/// The names of the states are different texts.
pub proof fn lemma_state_names_differ()
    ensures
        "pending"@ != "claimed"@,
        "pending"@ != "completed"@,
        "pending"@ != "cancelled"@,
        "pending"@ != "failed"@,
        "claimed"@ != "completed"@,
        "claimed"@ != "cancelled"@,
        "claimed"@ != "failed"@,
        "completed"@ != "cancelled"@,
{
    reveal_strlit("pending");
    reveal_strlit("claimed");
    reveal_strlit("completed");
    reveal_strlit("cancelled");
    reveal_strlit("failed");
    assert("pending"@[0] != "claimed"@[0]);
    assert("completed"@[1] != "cancelled"@[1]);
    assert("pending"@.len() == 7 && "claimed"@.len() == 7);
    assert("completed"@.len() == 9 && "cancelled"@.len() == 9 && "failed"@.len() == 6);
}

/// Whether an operation is a claim on the task that is won.
pub open spec fn wins(s: StoreView, op: Op, id: TaskId) -> bool {
    op matches Op::Claim { id: x, .. } && x == id && (model::task_row(s.tasks, x) matches Some(r)
        && r.state == "pending"@)
}

/// A claim is answered with the task where it is won and the row can be read,
/// with nothing where it is not won, and with the row's fault otherwise.
pub proof fn lemma_winner_is_told(
    s: StoreView,
    id: TaskId,
    agent: Seq<char>,
    now: Timestamp,
    until: Timestamp,
)
    ensures
        wins(s, Op::Claim { id, agent, now, until }, id) <==> model::claim(
            s,
            id,
            agent,
            now,
            until,
        ).1 != Ok::<Option<TaskView>, RowError>(None),
        model::claim(s, id, agent, now, until).1 == Ok::<Option<TaskView>, RowError>(None)
            ==> model::claim(s, id, agent, now, until).0 == s,
        model::claim(s, id, agent, now, until).1 matches Ok(Some(t)) ==> t.claimed_by == Some(
            agent,
        ) && t.state == TaskState::Claimed,
{
    types::lemma_state_names(TaskState::Claimed, Seq::empty());
}

/// The task that a claim wins is the one that was there, under the claim: the
/// agent, the time and the end of the lease are read back from the row.
pub proof fn lemma_claim_is_read(
    r: TaskRowView,
    t: TaskView,
    agent: Seq<char>,
    now: Timestamp,
    until: Timestamp,
)
    requires
        rows::task_of_row(r) == Ok::<TaskView, RowError>(t),
        time::four_digit_year(now) && time::well_spelled(now),
        time::four_digit_year(until) && time::well_spelled(until),
    ensures
        rows::task_of_row(model::granted(r, agent, now, until)) == Ok::<TaskView, RowError>(
            TaskView {
                state: TaskState::Claimed,
                claimed_by: Some(agent),
                claimed_at: Some(now),
                lease_until: Some(until),
                updated_at: now,
                ..t
            },
        ),
{
    types::lemma_state_names(TaskState::Claimed, Seq::empty());
}

/// Whether an operation takes the claim on the task back.
pub open spec fn releases(s: StoreView, op: Op, id: TaskId) -> bool {
    op matches Op::Sweep { now } && sweeps(s, now) && (model::task_row(s.tasks, id) matches Some(r)
        && model::expired(r, now))
}

/// How many claims on the task are won in a run.
pub open spec fn win_count(s: StoreView, ops: Seq<Op>, id: TaskId) -> nat
    decreases ops.len(),
{
    if ops.len() == 0 {
        0
    } else {
        win_count(s, ops.drop_last(), id) + if wins(run(s, ops.drop_last()), ops.last(), id) {
            1nat
        } else {
            0nat
        }
    }
}

/// How often the claim on the task is taken back in a run.
pub open spec fn release_count(s: StoreView, ops: Seq<Op>, id: TaskId) -> nat
    decreases ops.len(),
{
    if ops.len() == 0 {
        0
    } else {
        release_count(s, ops.drop_last(), id) + if releases(
            run(s, ops.drop_last()),
            ops.last(),
            id,
        ) {
            1nat
        } else {
            0nat
        }
    }
}

/// How many claims on the task can be won before one is taken back.
pub open spec fn open_claims(s: StoreView, id: TaskId) -> nat {
    match model::task_row(s.tasks, id) {
        Some(r) => if r.state == "pending"@ {
            1
        } else {
            0
        },
        None => 1,
    }
}

/// However many agents race for a task, and whatever else happens: after one
/// of them has won it, no other does until the claim is taken back.
pub proof fn lemma_claims_are_atomic(s: StoreView, ops: Seq<Op>, id: TaskId)
    requires
        all_proper(ops),
    ensures
        win_count(s, ops, id) + open_claims(run(s, ops), id) <= open_claims(s, id)
            + release_count(s, ops, id),
    decreases ops.len(),
{
    if ops.len() > 0 {
        let earlier = ops.drop_last();
        assert forall|i: int| 0 <= i < earlier.len() implies proper(#[trigger] earlier[i]) by {
            assert(earlier[i] == ops[i]);
        }
        lemma_claims_are_atomic(s, earlier, id);
        assert(proper(ops.last()));
        lemma_step_row(run(s, earlier), ops.last(), id);
        lemma_state_names_differ();
    }
}

/// Of any number of claims on a pending task exactly the first is won.
pub proof fn lemma_first_claim_wins(
    s: StoreView,
    id: TaskId,
    agent: Seq<char>,
    now: Timestamp,
    until: Timestamp,
    later: Seq<Op>,
)
    requires
        model::task_row(s.tasks, id) matches Some(r) && r.state == "pending"@,
        forall|i: int| 0 <= i < later.len() ==> (#[trigger] later[i]) is Claim,
    ensures
        wins(s, Op::Claim { id, agent, now, until }, id),
        win_count(model::claim(s, id, agent, now, until).0, later, id) == 0,
        model::task_row(run(model::claim(s, id, agent, now, until).0, later).tasks, id) == Some(
            model::granted(model::task_row(s.tasks, id)->0, agent, now, until),
        ),
    decreases later.len(),
{
    let won = model::claim(s, id, agent, now, until);
    lemma_step_row(s, Op::Claim { id, agent, now, until }, id);
    lemma_state_names_differ();
    if later.len() > 0 {
        let earlier = later.drop_last();
        assert forall|i: int| 0 <= i < earlier.len() implies (#[trigger] earlier[i]) is Claim by {
            assert(earlier[i] == later[i]);
        }
        lemma_first_claim_wins(s, id, agent, now, until, earlier);
        assert(later.last() is Claim);
        lemma_step_row(run(won.0, earlier), later.last(), id);
    }
}

// ---------------------------------------------------------------------
// Leases
// ---------------------------------------------------------------------

/// A task is claimed exactly while it has a lease, and then it has a claimer
/// and the time of the claim.
pub open spec fn disciplined(r: TaskRowView) -> bool {
    if r.state == "claimed"@ {
        r.lease_until is Some && r.claimed_by is Some && r.claimed_at is Some
    } else {
        r.lease_until is None
    }
}

/// All tasks keep the discipline of leases.
pub open spec fn all_disciplined(s: StoreView) -> bool {
    forall|id: TaskId|
        (#[trigger] model::task_row(s.tasks, id)) matches Some(r) ==> disciplined(r)
}

/// Every operation keeps the discipline of leases.
pub proof fn lemma_leases_disciplined(s: StoreView, op: Op)
    requires
        all_disciplined(s),
        proper(op),
    ensures
        all_disciplined(step(s, op)),
{
    lemma_state_names_differ();
    assert forall|id: TaskId|
        (#[trigger] model::task_row(step(s, op).tasks, id)) matches Some(r) implies disciplined(
        model::task_row(step(s, op).tasks, id)->0,
    ) by {
        lemma_step_row(s, op, id);
        assert(model::task_row(s.tasks, id) matches Some(r) ==> disciplined(r));
    }
}

/// A lease is granted for at least a second and at most an hour, and ends
/// after it begins.
pub proof fn lemma_lease_in_bounds(default_lease: u64, now: Timestamp, asked: Option<u64>)
    ensures
        1 <= model::lease_length(default_lease, asked) <= types::MAX_LEASE_SECONDS,
        model::lease_end(default_lease, now, asked) matches Some(until) ==> {
            &&& now.lt(until)
            &&& until.secs() == now.secs() + model::lease_length(default_lease, asked)
        },
{
    match model::lease_end(default_lease, now, asked) {
        Some(until) => {
            time::lemma_instant(
                (now.secs() + model::lease_length(default_lease, asked)) as i64,
                (now.nanos() % 1_000_000_000u32) as u32,
            );
        },
        None => {},
    }
}

/// A lease is extended exactly where the agent holds the claim, which it then
/// still holds; otherwise nothing changes.
pub proof fn lemma_only_the_claimer_extends(
    s: StoreView,
    id: TaskId,
    agent: Seq<char>,
    now: Timestamp,
    until: Timestamp,
)
    ensures
        model::extend(s, id, agent, now, until).1 != Ok::<Option<Timestamp>, RowError>(None)
            <==> (model::task_row(s.tasks, id) matches Some(r) && model::holds(r, agent)),
        model::extend(s, id, agent, now, until).1 == Ok::<Option<Timestamp>, RowError>(None)
            ==> model::extend(s, id, agent, now, until).0 == s,
        model::extend(s, id, agent, now, until).1 matches Ok(Some(end)) ==> (model::task_row(
            model::extend(s, id, agent, now, until).0.tasks,
            id,
        ) matches Some(r) && model::holds(r, agent) && (time::four_digit_year(until)
            && time::well_spelled(until) ==> rows::optional_stamp(r.lease_until) == Some(
            Some(end),
        ))),
{
    lemma_step_row(s, Op::Extend { id, agent, now, until }, id);
}

/// An extension never moves the end of a lease back, however little is asked
/// for: the lease lasts as long as was asked and as long as it would have
/// without.
pub proof fn lemma_extension_moves_forward(
    s: StoreView,
    id: TaskId,
    agent: Seq<char>,
    now: Timestamp,
    asked: Option<u64>,
)
    ensures
        model::lease_end(s.default_lease, now, asked) matches Some(until) ==> (model::extend(
            s,
            id,
            agent,
            now,
            until,
        ).1 matches Ok(Some(end)) ==> {
            &&& model::task_row(s.tasks, id) matches Some(r) && (rows::optional_stamp(
                r.lease_until,
            ) matches Some(Some(old_end)) ==> !end.lt(old_end))
            &&& !end.lt(until)
            &&& now.lt(end)
        }),
{
    lemma_lease_in_bounds(s.default_lease, now, asked);
}

/// A sweep does nothing where no lease has ended.
pub proof fn lemma_early_sweep_does_nothing(s: StoreView, now: Timestamp)
    requires
        forall|i: int| 0 <= i < s.tasks.len() ==> !model::expired(#[trigger] s.tasks[i], now),
    ensures
        model::reclaim(s, now).0 == s,
        model::reclaim(s, now).1 == Ok::<Seq<TaskView>, RowError>(Seq::empty()),
{
    lemma_none_expired(s.tasks, now);
    let gone = model::expired_rows(s.tasks, now);
    assert(gone =~= Seq::empty());
}

/// Leases end when they say: a claim has outlived its lease exactly after the
/// instant to which the lease was granted.
pub proof fn lemma_leases_end_on_time(
    r: TaskRowView,
    agent: Seq<char>,
    now: Timestamp,
    until: Timestamp,
    sweep: Timestamp,
)
    requires
        time::four_digit_year(until),
        time::four_digit_year(sweep) && time::well_spelled(sweep),
    ensures
        model::expired(model::granted(r, agent, now, until), sweep) <==> until.lt(sweep),
{
    assert(text::text_lt(time::stamp(until), time::stamp(sweep)) == until.lt(sweep));
}

/// The life of an abandoned claim: until its lease has ended no sweep touches
/// it; the first sweep after that returns the task to the bulletin without a
/// claimer, and another agent can win it. (A sweep that meets an ended lease
/// in a row that cannot be read sweeps nothing.)
pub proof fn lemma_abandoned_work_passes_on(
    s: StoreView,
    id: TaskId,
    agent: Seq<char>,
    now: Timestamp,
    until: Timestamp,
    sweep: Timestamp,
    other: Seq<char>,
    then: Timestamp,
    other_until: Timestamp,
)
    requires
        model::task_row(s.tasks, id) matches Some(r) && r.state == "pending"@,
        time::four_digit_year(until),
        time::four_digit_year(sweep) && time::well_spelled(sweep),
        sweeps(model::claim(s, id, agent, now, until).0, sweep),
    ensures
        ({
            let claimed = model::claim(s, id, agent, now, until).0;
            let swept = model::reclaim(claimed, sweep).0;
            if until.lt(sweep) {
                &&& (model::task_row(swept.tasks, id) matches Some(r) && r.state == "pending"@
                    && r.claimed_by is None && r.claimed_at is None && r.lease_until is None)
                &&& (model::task_row(
                    model::claim(swept, id, other, then, other_until).0.tasks,
                    id,
                ) matches Some(r) && model::holds(r, other))
            } else {
                model::task_row(swept.tasks, id) == model::task_row(claimed.tasks, id)
            }
        }),
{
    let r = model::task_row(s.tasks, id)->0;
    let claimed = model::claim(s, id, agent, now, until).0;
    lemma_leases_end_on_time(r, agent, now, until, sweep);
    lemma_step_row(s, Op::Claim { id, agent, now, until }, id);
    lemma_step_row(claimed, Op::Sweep { now: sweep }, id);
    lemma_step_row(
        model::reclaim(claimed, sweep).0,
        Op::Claim { id, agent: other, now: then, until: other_until },
        id,
    );
}

/// A sweep takes back every claim that has outlived its lease.
pub proof fn lemma_expired_are_swept(tasks: Seq<TaskRowView>, now: Timestamp, r: TaskRowView)
    requires
        tasks.contains(r),
        model::expired(r, now),
    ensures
        model::expired_rows(tasks, now).contains(r),
    decreases tasks.len(),
{
    let k = choose|k: int| 0 <= k < tasks.len() && tasks[k] == r;
    let out = model::expired_rows(tasks, now);
    if k < tasks.len() - 1 {
        assert(tasks.drop_last()[k] == r);
        lemma_expired_are_swept(tasks.drop_last(), now, r);
        let shorter = model::expired_rows(tasks.drop_last(), now);
        let i = choose|i: int| 0 <= i < shorter.len() && shorter[i] == r;
        assert(out[i] == r);
    } else {
        assert(out.last() == r);
    }
}

// ---------------------------------------------------------------------
// Ends are final
// ---------------------------------------------------------------------

/// A state that nothing leads out of but a cancellation.
pub open spec fn is_final(state: Seq<char>) -> bool {
    state == "completed"@ || state == "cancelled"@ || state == "failed"@
}

/// No operation of a run is a cancellation of the task.
pub open spec fn not_cancelled_in(ops: Seq<Op>, id: TaskId) -> bool {
    forall|i: int|
        0 <= i < ops.len() ==> !((#[trigger] ops[i]) matches Op::Cancel { id: x, .. } && x == id)
}

/// A task that has been completed, has failed or has been called off stays as
/// it is through any run: a late completion, extension, claim or sweep does
/// not touch it.
pub proof fn lemma_ends_are_final(s: StoreView, ops: Seq<Op>, id: TaskId)
    requires
        model::task_row(s.tasks, id) matches Some(r) && is_final(r.state),
        not_cancelled_in(ops, id),
    ensures
        model::task_row(run(s, ops).tasks, id) == model::task_row(s.tasks, id),
    decreases ops.len(),
{
    if ops.len() > 0 {
        let earlier = ops.drop_last();
        assert forall|i: int| 0 <= i < earlier.len() implies !((
        #[trigger] earlier[i]) matches Op::Cancel { id: x, .. } && x == id) by {
            assert(earlier[i] == ops[i]);
        }
        lemma_ends_are_final(s, earlier, id);
        assert(!(ops[ops.len() - 1] matches Op::Cancel { id: x, .. } && x == id));
        lemma_step_row(run(s, earlier), ops.last(), id);
        lemma_state_names_differ();
    }
}

/// A cancellation is sticky: a completion that comes after it is refused and
/// changes nothing, and no result is recorded.
pub proof fn lemma_cancel_is_sticky(
    s: StoreView,
    id: TaskId,
    now: Timestamp,
    result: JsonView,
    later: Timestamp,
)
    requires
        model::task_row(s.tasks, id) is Some,
    ensures
        ({
            let off = model::cancel(s, id, now).0;
            &&& model::complete(off, id, result, later).1 == Ok::<bool, RowError>(false)
            &&& model::complete(off, id, result, later).0 == off
            &&& (model::task_row(off.tasks, id) matches Some(r) && r.state == "cancelled"@
                && r.result == model::task_row(s.tasks, id)->0.result)
        }),
{
    lemma_step_row(s, Op::Cancel { id, now }, id);
    lemma_state_names_differ();
}

/// A publication is done when it is posted: no agent can claim it.
pub proof fn lemma_announcements_are_not_work(
    s: StoreView,
    op: Op,
    agent: Seq<char>,
    then: Timestamp,
    until: Timestamp,
)
    requires
        op matches Op::Post { id, kind, .. } && model::is_announcement(kind) && model::task_row(
            s.tasks,
            id,
        ) is None,
    ensures
        op matches Op::Post { id, .. } ==> model::claim(step(s, op), id, agent, then, until).1
            == Ok::<Option<TaskView>, RowError>(None),
{
    match op {
        Op::Post { id, .. } => {
            lemma_step_row(s, op, id);
            lemma_state_names_differ();
        },
        _ => {},
    }
}

/// A posted task can be fetched: its row is there, and where it is read back
/// as it was so is the task.
pub proof fn lemma_posted_can_be_fetched(s: StoreView, op: Op)
    requires
        op matches Op::Post { id, .. } && model::task_row(s.tasks, id) is None,
    ensures
        op matches Op::Post { id, name, kind, priority, payload, now } ==> {
            let t = model::fresh_task(id, name, kind, priority, payload, now);
            &&& model::task_row(step(s, op).tasks, id) == Some(rows::row_of_task(t))
            &&& rows::task_of_row(rows::row_of_task(t)) == Ok::<TaskView, RowError>(t)
                ==> model::task_at(step(s, op).tasks, id) == Ok::<Option<TaskView>, RowError>(
                Some(t),
            )
        },
{
    match op {
        Op::Post { id, .. } => lemma_step_row(s, op, id),
        _ => {},
    }
}

// ---------------------------------------------------------------------
// Acknowledgements
// ---------------------------------------------------------------------

/// A completion with an acknowledgement leaves both behind: the task is
/// completed with its result, and the acknowledgement is a completed posting
/// of its own that names the task.
pub proof fn lemma_acknowledgement_names_its_source(
    s: StoreView,
    id: TaskId,
    result: JsonView,
    ack_id: TaskId,
    name: Seq<char>,
    priority: Seq<char>,
    given: Seq<(Seq<char>, JsonView)>,
    now: Timestamp,
)
    requires
        json::keys_ascend(given),
        acknowledges(
            s,
            id,
            result,
            model::fresh_task(ack_id, name, "ack"@, priority, model::ack_payload(given, id), now),
            now,
        ),
    ensures
        ({
            let payload = model::ack_payload(given, id);
            let ack = model::fresh_task(ack_id, name, "ack"@, priority, payload, now);
            let after = model::complete_with_ack(s, id, result, ack, now);
            &&& ack_id != id
            &&& json::member_text(payload, "fixed_bug_id"@) == Some(types::uuid_text(id))
            &&& (model::task_row(after.tasks, id) matches Some(r) && r.state == "completed"@
                && r.result == Some(json::json_text(result)))
            &&& (model::task_row(after.tasks, ack_id) matches Some(a) && a == rows::row_of_task(
                ack,
            ) && a.state == "completed"@ && a.kind == "ack"@)
        }),
{
    let payload = model::ack_payload(given, id);
    let ack = model::fresh_task(ack_id, name, "ack"@, priority, payload, now);
    let op = Op::Acknowledge { id, result, ack, now };
    lemma_step_row(s, op, id);
    lemma_step_row(s, op, ack_id);
    json::lemma_lookup_with_member(
        given,
        "fixed_bug_id"@,
        JsonView::Text(types::uuid_text(id)),
        "fixed_bug_id"@,
    );
}

// ---------------------------------------------------------------------
// Listings
// ---------------------------------------------------------------------

proof fn lemma_admitted(tasks: Seq<TaskRowView>, f: FilterView)
    ensures
        forall|r: TaskRowView| #[trigger]
            model::admitted(tasks, f).contains(r) <==> (tasks.contains(r) && model::admits(f, r)),
    decreases tasks.len(),
{
    let out = model::admitted(tasks, f);
    if tasks.len() > 0 {
        let shorter = tasks.drop_last();
        lemma_admitted(shorter, f);
        let kept = model::admitted(shorter, f);
        assert forall|r: TaskRowView| #[trigger]
            out.contains(r) <==> (tasks.contains(r) && model::admits(f, r)) by {
            assert(kept.contains(r) <==> (shorter.contains(r) && model::admits(f, r)));
            if tasks.contains(r) && model::admits(f, r) {
                let i = choose|i: int| 0 <= i < tasks.len() && tasks[i] == r;
                if i < shorter.len() {
                    assert(shorter[i] == r);
                    let k = choose|k: int| 0 <= k < kept.len() && kept[k] == r;
                    assert(out[k] == r);
                } else {
                    assert(out.last() == r);
                }
            }
            if out.contains(r) {
                let k = choose|k: int| 0 <= k < out.len() && out[k] == r;
                if k < kept.len() {
                    assert(kept[k] == r);
                    let i = choose|i: int| 0 <= i < shorter.len() && shorter[i] == r;
                    assert(tasks[i] == r);
                } else {
                    assert(tasks[tasks.len() - 1] == r);
                }
            }
        }
    } else {
        assert forall|r: TaskRowView| #[trigger]
            out.contains(r) <==> (tasks.contains(r) && model::admits(f, r)) by {}
    }
}

/// What a listing shows: rows that pass the filter and nothing else, the
/// newest first. A row that passes is left out only where the listing is full
/// of others that are at least as new, however many newer rows there are that
/// do not pass.
pub proof fn lemma_listing(tasks: Seq<TaskRowView>, limit: nat, f: FilterView, r: TaskRowView)
    ensures
        model::listed(tasks, limit, f).len() <= limit,
        forall|i: int|
            0 <= i < model::listed(tasks, limit, f).len() ==> tasks.contains(
                #[trigger] model::listed(tasks, limit, f)[i],
            ) && model::admits(f, model::listed(tasks, limit, f)[i]),
        forall|i: int, j: int|
            0 <= i < j < model::listed(tasks, limit, f).len() ==> !text::text_lt(
                (#[trigger] model::listed(tasks, limit, f)[i]).created_at,
                (#[trigger] model::listed(tasks, limit, f)[j]).created_at,
            ),
        tasks.contains(r) && model::admits(f, r) && !model::listed(tasks, limit, f).contains(r) ==> {
            &&& model::listed(tasks, limit, f).len() == limit
            &&& forall|i: int|
                0 <= i < limit ==> !text::text_lt(
                    (#[trigger] model::listed(tasks, limit, f)[i]).created_at,
                    r.created_at,
                )
        },
{
    let found = model::admitted(tasks, f);
    let at = model::created_ats(found);
    let order = order::newest_order(at);
    let out = model::listed(tasks, limit, f);
    lemma_admitted(tasks, f);
    order::lemma_newest_order(at);
    assert forall|i: int| 0 <= i < out.len() implies tasks.contains(#[trigger] out[i])
        && model::admits(f, out[i]) by {
        assert(0 <= order[i] < at.len());
        assert(found.contains(found[order[i]]));
    }
    assert forall|i: int, j: int| 0 <= i < j < out.len() implies !text::text_lt(
        (#[trigger] out[i]).created_at,
        (#[trigger] out[j]).created_at,
    ) by {
        assert(order::precedes(at, order[i], order[j]));
        assert(at[order[i]] == out[i].created_at && at[order[j]] == out[j].created_at);
        text::lemma_text_order_total(out[i].created_at, out[j].created_at);
    }
    if tasks.contains(r) && model::admits(f, r) && !out.contains(r) {
        assert(found.contains(r));
        let k = choose|k: int| 0 <= k < found.len() && found[k] == r;
        assert(order.contains(k));
        let p = choose|p: int| 0 <= p < order.len() && order[p] == k;
        if p < out.len() {
            assert(out[p] == r);
        }
        assert forall|i: int| 0 <= i < limit implies !text::text_lt(
            (#[trigger] out[i]).created_at,
            r.created_at,
        ) by {
            assert(order::precedes(at, order[i], order[p]));
            assert(at[order[i]] == out[i].created_at && at[k] == r.created_at);
            text::lemma_text_order_total(out[i].created_at, r.created_at);
        }
    }
}

/// Newest first means by time: of two rows of a listing that spell the time
/// of their creation the first is not the older one.
pub proof fn lemma_newest_first(
    tasks: Seq<TaskRowView>,
    limit: nat,
    f: FilterView,
    i: int,
    j: int,
    first: Timestamp,
    second: Timestamp,
)
    requires
        0 <= i < j < model::listed(tasks, limit, f).len(),
        model::listed(tasks, limit, f)[i].created_at == time::stamp(first),
        model::listed(tasks, limit, f)[j].created_at == time::stamp(second),
        time::four_digit_year(first) && time::well_spelled(first),
        time::four_digit_year(second),
    ensures
        !first.lt(second),
{
    lemma_listing(tasks, limit, f, arbitrary());
    assert(text::text_lt(time::stamp(first), time::stamp(second)) == first.lt(second));
}

/// An acknowledgement is found by its kind alone: right after the completion
/// a listing of acknowledgements shows it, unless the listing is full of
/// others that are at least as new.
pub proof fn lemma_acknowledgement_is_found(
    s: StoreView,
    id: TaskId,
    result: JsonView,
    ack: TaskView,
    now: Timestamp,
    limit: nat,
)
    requires
        acknowledges(s, id, result, ack, now),
        ack.kind == "ack"@,
    ensures
        ({
            let after = model::complete_with_ack(s, id, result, ack, now);
            let acks = FilterView { state: None, kind: Some("ack"@), priority: None };
            let list = model::listed(after.tasks, limit, acks);
            list.contains(rows::row_of_task(ack)) || (list.len() == limit && forall|i: int|
                0 <= i < limit ==> !text::text_lt(
                    (#[trigger] list[i]).created_at,
                    time::stamp(ack.created_at),
                ))
        }),
{
    let op = Op::Acknowledge { id, result, ack, now };
    let after = model::complete_with_ack(s, id, result, ack, now);
    let acks = FilterView { state: None, kind: Some("ack"@), priority: None };
    lemma_step_row(s, op, ack.id);
    store::lemma_row_at(after.tasks, types::uuid_text(ack.id));
    lemma_listing(after.tasks, limit, acks, rows::row_of_task(ack));
}

// ---------------------------------------------------------------------
// Agents
// ---------------------------------------------------------------------

/// When an agent first reported, where that is on record.
pub open spec fn first_report(agents: Seq<AgentRowView>, id: Seq<char>) -> Option<Seq<char>> {
    match model::agent_at(agents, id) {
        Some(a) => if a.first_seen == rows::FIRST_SEEN_UNKNOWN@ {
            None
        } else {
            Some(a.first_seen)
        },
        None => None,
    }
}

proof fn lemma_agent_put(agents: Seq<AgentRowView>, a: AgentRowView, id: Seq<char>)
    ensures
        model::agent_at(model::put_agent(agents, a), id) == if id == a.id && model::agent_at(
            agents,
            id,
        ) is Some {
            Some(a)
        } else {
            model::agent_at(agents, id)
        },
    decreases agents.len(),
{
    if agents.len() > 0 {
        lemma_agent_put(agents.drop_first(), a, id);
        assert(model::put_agent(agents, a).drop_first() =~= model::put_agent(
            agents.drop_first(),
            a,
        ));
    }
}

proof fn lemma_agent_push(agents: Seq<AgentRowView>, a: AgentRowView, id: Seq<char>)
    ensures
        model::agent_at(agents.push(a), id) == match model::agent_at(agents, id) {
            Some(u) => Some(u),
            None => if a.id == id {
                Some(a)
            } else {
                None
            },
        },
    decreases agents.len(),
{
    if agents.len() > 0 {
        lemma_agent_push(agents.drop_first(), a, id);
        assert(agents.push(a).drop_first() =~= agents.drop_first().push(a));
    } else {
        assert(agents.push(a).drop_first() =~= agents);
    }
}

proof fn lemma_step_agents(s: StoreView, op: Op)
    ensures
        !(op is Report) ==> step(s, op).agents == s.agents,
        op is Report ==> step(s, op).tasks == s.tasks,
{
    match op {
        Op::Sweep { now } => lemma_sweep_tables(s, now),
        _ => {},
    }
}

/// Once the first report of an agent is on record it never changes, so an
/// agent's uptime only grows.
pub proof fn lemma_first_report_is_kept(s: StoreView, ops: Seq<Op>, id: Seq<char>)
    requires
        first_report(s.agents, id) is Some,
    ensures
        first_report(run(s, ops).agents, id) == first_report(s.agents, id),
    decreases ops.len(),
{
    if ops.len() > 0 {
        let before = run(s, ops.drop_last());
        lemma_first_report_is_kept(s, ops.drop_last(), id);
        lemma_step_agents(before, ops.last());
        match ops.last() {
            Op::Report { agent, name, now } => {
                let a = model::row_reported(before.agents, agent, name, now);
                store::lemma_agent_at(before.agents, agent);
                lemma_agent_put(before.agents, a, id);
                lemma_agent_push(before.agents, a, id);
            },
            _ => {},
        }
    }
}

/// An agent's report changes no task, and puts the agent on record.
pub proof fn lemma_reports_change_no_task(
    s: StoreView,
    agent: Seq<char>,
    name: Seq<char>,
    now: Timestamp,
)
    ensures
        model::heartbeat(s, agent, name, now).tasks == s.tasks,
        model::agent_at(model::heartbeat(s, agent, name, now).agents, agent) == Some(
            model::row_reported(s.agents, agent, name, now),
        ),
{
    let a = model::row_reported(s.agents, agent, name, now);
    store::lemma_agent_at(s.agents, agent);
    lemma_agent_put(s.agents, a, agent);
    lemma_agent_push(s.agents, a, agent);
}

// ---------------------------------------------------------------------
// What is written out
// ---------------------------------------------------------------------

proof fn lemma_written_one_more(
    tasks: Seq<TaskRowView>,
    agents: Seq<AgentRowView>,
    changes: Seq<ChangeView>,
    change: ChangeView,
)
    ensures
        ({
            let (t, a) = model::written(tasks, agents, changes);
            model::written(tasks, agents, changes.push(change)) == match change {
                ChangeView::Task(r) => (model::upserted(t, r), a),
                ChangeView::Agent(r) => (t, model::agent_upserted(a, r)),
            }
        }),
{
    assert(changes.push(change).drop_last() =~= changes);
}

proof fn lemma_sweep_written(
    tasks: Seq<TaskRowView>,
    agents: Seq<AgentRowView>,
    s: StoreView,
    now: Timestamp,
    n: int,
)
    requires
        model::ids_unique(s.tasks),
        model::written(tasks, agents, s.changes) == (s.tasks, s.agents),
        0 <= n <= s.tasks.len(),
    ensures
        model::written(
            tasks,
            agents,
            s.changes + model::releases(model::expired_rows(s.tasks.take(n), now), now),
        ) == (model::swept_tasks(s.tasks.take(n), now) + s.tasks.skip(n), s.agents),
    decreases n,
{
    let gone = model::expired_rows(s.tasks.take(n), now);
    let out = model::swept_tasks(s.tasks.take(n), now) + s.tasks.skip(n);
    if n == 0 {
        assert(s.changes + model::releases(gone, now) =~= s.changes);
        assert(out =~= s.tasks);
    } else {
        let m = n - 1;
        lemma_sweep_written(tasks, agents, s, now, m);
        let fewer = model::expired_rows(s.tasks.take(m), now);
        let before = model::swept_tasks(s.tasks.take(m), now) + s.tasks.skip(m);
        let r = s.tasks[m];
        assert(s.tasks.take(n).drop_last() =~= s.tasks.take(m));
        assert(s.tasks.take(n).last() == r);
        if model::expired(r, now) {
            let f = model::released(r, now);
            let changes = s.changes + model::releases(fewer, now);
            assert(s.changes + model::releases(gone, now) =~= changes.push(ChangeView::Task(f)));
            lemma_written_one_more(tasks, agents, changes, ChangeView::Task(f));
            store::lemma_row_at(before, f.id);
            assert(before[m] == r);
            assert(model::row_at(before, f.id) is Some);
            assert(model::put(before, f) =~= out) by {
                assert forall|k: int| 0 <= k < out.len() implies model::put(before, f)[k]
                    == #[trigger] out[k] by {
                    assert(before[k].id == s.tasks[k].id);
                    if k < m {
                        assert(s.tasks[k].id != s.tasks[m].id);
                    } else if k > m {
                        assert(s.tasks[m].id != s.tasks[k].id);
                    }
                }
            }
        } else {
            assert(out =~= before);
        }
    }
}

proof fn lemma_step_written(
    tasks: Seq<TaskRowView>,
    agents: Seq<AgentRowView>,
    s: StoreView,
    op: Op,
)
    requires
        model::well_formed(s),
        model::written(tasks, agents, s.changes) == (s.tasks, s.agents),
    ensures
        model::written(tasks, agents, step(s, op).changes) == (
            step(s, op).tasks,
            step(s, op).agents,
        ),
{
    let x = op_id(op);
    store::lemma_row_at(s.tasks, types::uuid_text(x));
    match op {
        Op::Post { id, name, kind, priority, payload, now } => {
            let r = rows::row_of_task(model::fresh_task(id, name, kind, priority, payload, now));
            lemma_written_one_more(tasks, agents, s.changes, ChangeView::Task(r));
        },
        Op::Claim { id, agent, now, until } => match model::task_row(s.tasks, id) {
            Some(r) => lemma_written_one_more(
                tasks,
                agents,
                s.changes,
                ChangeView::Task(model::granted(r, agent, now, until)),
            ),
            None => {},
        },
        Op::Extend { id, now, until, .. } => match model::task_row(s.tasks, id) {
            Some(r) => lemma_written_one_more(
                tasks,
                agents,
                s.changes,
                ChangeView::Task(model::extended(r, now, until)),
            ),
            None => {},
        },
        Op::Sweep { now } => {
            lemma_sweep_tables(s, now);
            lemma_sweep_written(tasks, agents, s, now, s.tasks.len() as int);
            assert(s.tasks.take(s.tasks.len() as int) =~= s.tasks);
            assert(model::swept_tasks(s.tasks, now) + s.tasks.skip(s.tasks.len() as int)
                =~= model::swept_tasks(s.tasks, now));
        },
        Op::Complete { id, result, now } => match model::task_row(s.tasks, id) {
            Some(r) => lemma_written_one_more(
                tasks,
                agents,
                s.changes,
                ChangeView::Task(model::completed(r, result, now)),
            ),
            None => {},
        },
        Op::Acknowledge { id, result, ack, now } => match model::task_row(s.tasks, id) {
            Some(r) => {
                let c = model::completed(r, result, now);
                lemma_written_one_more(tasks, agents, s.changes, ChangeView::Task(c));
                lemma_written_one_more(
                    tasks,
                    agents,
                    s.changes.push(ChangeView::Task(c)),
                    ChangeView::Task(rows::row_of_task(ack)),
                );
                store::lemma_put(s.tasks, c, types::uuid_text(ack.id));
            },
            None => {},
        },
        Op::Cancel { id, now } => match model::task_row(s.tasks, id) {
            Some(r) => lemma_written_one_more(
                tasks,
                agents,
                s.changes,
                ChangeView::Task(model::cancelled(r, now)),
            ),
            None => {},
        },
        Op::Report { agent, name, now } => {
            let a = model::row_reported(s.agents, agent, name, now);
            store::lemma_agent_at(s.agents, agent);
            lemma_written_one_more(tasks, agents, s.changes, ChangeView::Agent(a));
        },
    }
}

/// The changes that a bulletin hands over are all that is needed to keep its
/// tables: written out in order, they make the tables what they are in the
/// bulletin, after any run of operations.
pub proof fn lemma_changes_are_complete(
    tasks: Seq<TaskRowView>,
    agents: Seq<AgentRowView>,
    s: StoreView,
    ops: Seq<Op>,
)
    requires
        model::well_formed(s),
        model::written(tasks, agents, s.changes) == (s.tasks, s.agents),
    ensures
        model::well_formed(run(s, ops)),
        model::written(tasks, agents, run(s, ops).changes) == (
            run(s, ops).tasks,
            run(s, ops).agents,
        ),
    decreases ops.len(),
{
    if ops.len() > 0 {
        lemma_changes_are_complete(tasks, agents, s, ops.drop_last());
        let before = run(s, ops.drop_last());
        lemma_step_well_formed(before, ops.last());
        lemma_step_written(tasks, agents, before, ops.last());
    }
}

/// The bulletin outlives the program: opened from the tables to which its
/// changes were written, it is the bulletin that it was.
pub proof fn lemma_bulletin_survives(s: StoreView, ops: Seq<Op>)
    requires
        model::well_formed(s),
        s.changes.len() == 0,
    ensures
        ({
            let end = run(s, ops);
            let (tasks, agents) = model::written(s.tasks, s.agents, end.changes);
            store::opened(tasks, agents, None) == Ok::<StoreView, store::StoreError>(
                StoreView {
                    tasks: end.tasks,
                    agents: end.agents,
                    changes: Seq::empty(),
                    vault: None,
                    default_lease: types::DEFAULT_LEASE_SECONDS,
                },
            )
        }),
{
    lemma_changes_are_complete(s.tasks, s.agents, s, ops);
}

// ---------------------------------------------------------------------
// The vault
// ---------------------------------------------------------------------

/// The vault of `after` has come from that of `before`: no note is taken back,
/// and every file still belongs to whom it belonged.
pub open spec fn grown(before: StoreView, after: StoreView) -> bool {
    match (before.vault, after.vault) {
        (Some(v), Some(w)) => {
            &&& v.notes.len() <= w.notes.len()
            &&& w.notes.take(v.notes.len() as int) == v.notes
            &&& vault::keeps_owners(v.owners, w.owners)
        },
        (None, None) => true,
        _ => false,
    }
}

proof fn lemma_grown_same(s: StoreView, t: StoreView)
    requires
        s.vault == t.vault,
    ensures
        grown(s, t),
{
    match s.vault {
        Some(v) => assert(v.notes.take(v.notes.len() as int) =~= v.notes),
        None => {},
    }
}

/// Noting a task takes nothing back.
pub proof fn lemma_noted_grows(s: StoreView, t: TaskView)
    ensures
        grown(s, model::noted(s, t)),
{
    match s.vault {
        Some(v) => {
            let relations = model::relations(s.tasks, v.owners, t.payload);
            let w = vault::task_written(v, t, relations);
            vault::lemma_vault_steps(v, t, relations, Seq::empty(), Seq::empty(), arbitrary());
            assert(w.notes.take(v.notes.len() as int) =~= v.notes);
        },
        None => {},
    }
}

/// Noting an event takes nothing back.
pub proof fn lemma_told_grows(s: StoreView, agent: Seq<char>, event: Seq<char>, now: Timestamp)
    ensures
        grown(s, model::told(s, agent, event, now)),
{
    match s.vault {
        Some(v) => {
            let w = vault::event_logged(v, agent, event, now);
            vault::lemma_vault_steps(v, arbitrary(), Seq::empty(), agent, agent, now);
            assert(w.notes.take(v.notes.len() as int) =~= v.notes);
        },
        None => {},
    }
}

/// What has come from a vault in two steps has come from it.
pub proof fn lemma_grown_further(a: StoreView, b: StoreView, c: StoreView)
    requires
        grown(a, b),
        grown(b, c),
    ensures
        grown(a, c),
{
    match (a.vault, b.vault, c.vault) {
        (Some(x), Some(y), Some(z)) => {
            assert(z.notes.take(x.notes.len() as int) =~= z.notes.take(y.notes.len() as int).take(
                x.notes.len() as int,
            ));
            assert forall|path: Seq<char>|
                #![trigger vault::owner_of(x.owners, path)]
                #![trigger vault::owner_of(z.owners, path)]
                vault::owner_of(x.owners, path) is Some implies vault::owner_of(z.owners, path)
                == vault::owner_of(x.owners, path) by {
                assert(vault::owner_of(y.owners, path) == vault::owner_of(x.owners, path));
            }
        },
        _ => {},
    }
}

/// Noting the end of a claim takes nothing back.
pub proof fn lemma_abandonment_grows(
    s: StoreView,
    before: Option<TaskView>,
    after: TaskView,
    now: Timestamp,
)
    ensures
        grown(s, model::abandonment_noted(s, before, after, now)),
{
    let s1 = match before {
        Some(b) => match b.claimed_by {
            Some(agent) => {
                lemma_told_grows(s, agent, model::abandoned_event(s, b), now);
                model::told(s, agent, model::abandoned_event(s, b), now)
            },
            None => s,
        },
        None => s,
    };
    lemma_grown_same(s, s);
    lemma_noted_grows(s1, after);
    lemma_grown_further(s, s1, model::noted(s1, after));
}

/// Noting the ends of claims takes nothing back.
pub proof fn lemma_abandonments_grow(
    s: StoreView,
    before: Seq<TaskView>,
    after: Seq<TaskView>,
    now: Timestamp,
    k: nat,
)
    ensures
        grown(s, model::abandonments_noted(s, before, after, now, k)),
    decreases k,
{
    if k > 0 {
        let i = (k - 1) as nat;
        let s1 = model::abandonments_noted(s, before, after, now, i);
        lemma_abandonments_grow(s, before, after, now, i);
        let b = model::first_with(before, before[i as int].id);
        lemma_abandonment_grows(s1, b, after[i as int], now);
        lemma_grown_further(s, s1, model::abandonment_noted(s1, b, after[i as int], now));
    } else {
        lemma_grown_same(s, s);
    }
}

proof fn lemma_completion_grows(s: StoreView, c: TaskView, now: Timestamp)
    ensures
        grown(s, model::completion_noted(s, c, now)),
{
    let s1 = model::noted(s, c);
    lemma_noted_grows(s, c);
    match c.claimed_by {
        Some(agent) => {
            let event = model::link_event(s1, "completed"@, c);
            lemma_told_grows(s1, agent, event, now);
            lemma_grown_further(s, s1, model::told(s1, agent, event, now));
        },
        None => {},
    }
}

/// No operation takes a note back or gives a file to another.
pub proof fn lemma_vault_grows(s: StoreView, op: Op)
    ensures
        grown(s, step(s, op)),
{
    lemma_grown_same(s, s);
    match op {
        Op::Post { id, name, kind, priority, payload, now } => {
            let t = model::fresh_task(id, name, kind, priority, payload, now);
            lemma_noted_grows(model::added(s, rows::row_of_task(t)), t);
        },
        Op::Claim { id, agent, now, until } => match model::task_row(s.tasks, id) {
            Some(r) => {
                let won = model::granted(r, agent, now, until);
                let s1 = model::saved(s, won);
                match rows::task_of_row(won) {
                    Ok(t) => {
                        let s2 = model::noted(s1, t);
                        let event = model::link_event(s2, "claimed"@, t);
                        lemma_noted_grows(s1, t);
                        lemma_told_grows(s2, agent, event, now);
                        lemma_grown_further(s1, s2, model::told(s2, agent, event, now));
                    },
                    Err(_) => {},
                }
            },
            None => {},
        },
        Op::Extend { id, now, until, .. } => match model::task_row(s.tasks, id) {
            Some(r) => {
                let e = model::extended(r, now, until);
                match rows::task_of_row(e) {
                    Ok(t) => lemma_noted_grows(model::saved(s, e), t),
                    Err(_) => {},
                }
            },
            None => {},
        },
        Op::Sweep { now } => match model::read_all(model::expired_rows(s.tasks, now)) {
            Ok(before) => match model::refetched(model::rows_swept(s, now).tasks, before) {
                Ok(after) => lemma_abandonments_grow(
                    model::rows_swept(s, now),
                    before,
                    after,
                    now,
                    before.len(),
                ),
                Err(_) => {},
            },
            Err(_) => {},
        },
        Op::Complete { id, result, now } => match model::task_row(s.tasks, id) {
            Some(r) => {
                let c = model::completed(r, result, now);
                match rows::task_of_row(c) {
                    Ok(t) => lemma_completion_grows(model::saved(s, c), t, now),
                    Err(_) => {},
                }
            },
            None => {},
        },
        Op::Acknowledge { id, result, ack, now } => match model::task_row(s.tasks, id) {
            Some(r) => {
                let c = model::completed(r, result, now);
                match rows::task_of_row(c) {
                    Ok(t) => {
                        let s1 = model::added(model::saved(s, c), rows::row_of_task(ack));
                        let s2 = model::completion_noted(s1, t, now);
                        lemma_completion_grows(s1, t, now);
                        lemma_noted_grows(s2, ack);
                        lemma_grown_further(s1, s2, model::noted(s2, ack));
                    },
                    Err(_) => {},
                }
            },
            None => {},
        },
        Op::Cancel { id, now } => match model::task_row(s.tasks, id) {
            Some(r) => {
                let c = model::cancelled(r, now);
                match rows::task_of_row(c) {
                    Ok(t) => lemma_noted_grows(model::saved(s, c), t),
                    Err(_) => {},
                }
            },
            None => {},
        },
        Op::Report { agent, name, now } => match s.vault {
            Some(v) => {
                let w = vault::log_begun(v, agent, name, now);
                vault::lemma_vault_steps(v, arbitrary(), Seq::empty(), agent, name, now);
                assert(w.notes.take(v.notes.len() as int) =~= v.notes);
            },
            None => {},
        },
    }
}

/// Through any run no note is taken back and no file is given to another.
pub proof fn lemma_run_grows(s: StoreView, ops: Seq<Op>)
    ensures
        grown(s, run(s, ops)),
    decreases ops.len(),
{
    if ops.len() > 0 {
        lemma_run_grows(s, ops.drop_last());
        lemma_vault_grows(run(s, ops.drop_last()), ops.last());
        lemma_grown_further(s, run(s, ops.drop_last()), run(s, ops));
    } else {
        lemma_grown_same(s, s);
    }
}

/// A task keeps its file and an agent its log through any run, so links to
/// them stay good.
pub proof fn lemma_files_are_kept(s: StoreView, ops: Seq<Op>, t: TaskView, agent: Seq<char>)
    ensures
        vault::task_named(model::owners_of(s), t) ==> vault::task_path(
            model::owners_of(run(s, ops)),
            t,
        ) == vault::task_path(model::owners_of(s), t),
        vault::agent_named(model::owners_of(s), agent) ==> vault::log_path(
            model::owners_of(run(s, ops)),
            agent,
        ) == vault::log_path(model::owners_of(s), agent),
{
    lemma_run_grows(s, ops);
    let before = model::owners_of(s);
    let after = model::owners_of(run(s, ops));
    if vault::task_named(before, t) {
        vault::lemma_name_stays(
            before,
            after,
            "tasks/"@,
            slug::slug_of(t),
            types::uuid_text(t.id),
        );
    }
    if vault::agent_named(before, agent) {
        vault::lemma_name_stays(before, after, "agents/"@, slug::agent_slug(agent), agent);
    }
}

// ---------------------------------------------------------------------
// The vault's files
// ---------------------------------------------------------------------

/// The tasks that an operation notes, in order.
pub open spec fn noted_by(s: StoreView, op: Op) -> Seq<TaskView> {
    match op {
        Op::Post { id, name, kind, priority, payload, now } => if model::task_row(
            s.tasks,
            id,
        ) is Some {
            Seq::empty()
        } else {
            seq![model::fresh_task(id, name, kind, priority, payload, now)]
        },
        Op::Claim { id, agent, now, until } => match model::claim(s, id, agent, now, until).1 {
            Ok(Some(t)) => seq![t],
            _ => Seq::empty(),
        },
        Op::Extend { id, agent, now, until } => match model::task_row(s.tasks, id) {
            Some(r) if model::holds(r, agent) => readable(model::extended(r, now, until)),
            _ => Seq::empty(),
        },
        Op::Sweep { now } => match model::reclaim(s, now).1 {
            Ok(after) => after,
            Err(_) => Seq::empty(),
        },
        Op::Complete { id, result, now } => match model::task_row(s.tasks, id) {
            Some(r) if r.state == "claimed"@ => readable(model::completed(r, result, now)),
            _ => Seq::empty(),
        },
        Op::Acknowledge { id, result, ack, now } => if acknowledges(s, id, result, ack, now) {
            readable(model::completed(model::task_row(s.tasks, id)->0, result, now)).push(ack)
        } else {
            Seq::empty()
        },
        Op::Cancel { id, now } => match model::task_row(s.tasks, id) {
            Some(r) => readable(model::cancelled(r, now)),
            None => Seq::empty(),
        },
        Op::Report { .. } => Seq::empty(),
    }
}

/// The task that a row holds, where it can be read.
pub open spec fn readable(r: TaskRowView) -> Seq<TaskView> {
    match rows::task_of_row(r) {
        Ok(t) => seq![t],
        Err(_) => Seq::empty(),
    }
}

/// Every change of a task is noted: where an operation other than a sweep
/// changes the row of a task, it notes what was posted in the row or what is
/// then read in it. (A sweep notes the tasks that it returns.)
pub proof fn lemma_changes_are_noted(s: StoreView, op: Op, id: TaskId)
    requires
        !(op is Sweep),
        row_after(s, op, id) != model::task_row(s.tasks, id),
    ensures
        row_after(s, op, id) matches Some(r) && (model::task_row(s.tasks, id) is None
            || rows::task_of_row(r) is Ok ==> exists|i: int|
            0 <= i < noted_by(s, op).len() && is_note_of(#[trigger] noted_by(s, op)[i], r)),
{
    let n = noted_by(s, op);
    let r = row_after(s, op, id)->0;
    if model::task_row(s.tasks, id) is None || rows::task_of_row(r) is Ok {
        match op {
            Op::Acknowledge { id: x, ack, .. } => {
                if x == id {
                    assert(is_note_of(n[0], r));
                } else {
                    assert(n[1] == ack);
                    assert(is_note_of(n[1], r));
                }
            },
            _ => assert(is_note_of(n[0], r)),
        }
    }
}

/// Whether a task is what a row holds, as it was posted or as it is read.
pub open spec fn is_note_of(t: TaskView, r: TaskRowView) -> bool {
    r == rows::row_of_task(t) || rows::task_of_row(r) == Ok::<TaskView, RowError>(t)
}

/// The file of a task holds the note of `t`, with links under the names that
/// files had among `o`.
pub open spec fn shown_with(
    files: Map<Seq<char>, Seq<char>>,
    s: StoreView,
    t: TaskView,
    o: Seq<(Seq<char>, Seq<char>)>,
) -> bool {
    &&& vault::keeps_owners(o, s.vault->0.owners)
    &&& vault::holds_text(
        vault::filed(files, s.vault->0),
        vault::task_path(s.vault->0.owners, t),
        vault::task_md(t, model::relations(s.tasks, o, t.payload), o),
    )
}

/// The file of a task says what the task is: it holds the note of `t`, with
/// links under the names that were in use when it was written.
pub open spec fn shown(files: Map<Seq<char>, Seq<char>>, s: StoreView, t: TaskView) -> bool {
    &&& s.vault is Some
    &&& vault::task_named(s.vault->0.owners, t)
    &&& exists|o: Seq<(Seq<char>, Seq<char>)>| #[trigger] shown_with(files, s, t, o)
}

/// The file of a task is as it was.
pub open spec fn untouched(
    files: Map<Seq<char>, Seq<char>>,
    before: StoreView,
    after: StoreView,
    t: TaskView,
) -> bool {
    vault::untouched(
        vault::filed(files, before.vault->0),
        vault::filed(files, after.vault->0),
        vault::task_path(before.vault->0.owners, t),
    )
}

proof fn lemma_noted_shows(files: Map<Seq<char>, Seq<char>>, s: StoreView, t: TaskView, u: TaskView)
    requires
        s.vault is Some,
    ensures
        shown(files, model::noted(s, t), t),
        u.id != t.id && shown(files, s, u) ==> shown(files, model::noted(s, t), u),
        u.id != t.id && vault::task_named(s.vault->0.owners, u) ==> untouched(
            files,
            s,
            model::noted(s, t),
            u,
        ),
{
    let v = s.vault->0;
    let relations = model::relations(s.tasks, v.owners, t.payload);
    let w = vault::task_written(v, t, relations);
    vault::lemma_vault_steps(v, t, relations, Seq::empty(), Seq::empty(), arbitrary());
    vault::lemma_task_is_written(files, v, t, relations, u, Seq::empty());
    assert(model::noted(s, t).vault == Some(w));
    assert(shown_with(files, model::noted(s, t), t, v.owners));
    if u.id != t.id && shown(files, s, u) {
        lemma_still_shown(files, s, model::noted(s, t), u);
    }
}

proof fn lemma_still_shown(
    files: Map<Seq<char>, Seq<char>>,
    before: StoreView,
    after: StoreView,
    t: TaskView,
)
    requires
        shown(files, before, t),
        after.vault is Some,
        after.tasks == before.tasks,
        vault::keeps_owners(before.vault->0.owners, after.vault->0.owners),
        untouched(files, before, after, t),
    ensures
        shown(files, after, t),
{
    let v = before.vault->0;
    let w = after.vault->0;
    let o = choose|o: Seq<(Seq<char>, Seq<char>)>| #[trigger] shown_with(files, before, t, o);
    vault::lemma_name_stays(
        v.owners,
        w.owners,
        "tasks/"@,
        slug::slug_of(t),
        types::uuid_text(t.id),
    );
    assert forall|path: Seq<char>|
        #![trigger vault::owner_of(o, path)]
        #![trigger vault::owner_of(w.owners, path)]
        vault::owner_of(o, path) is Some implies vault::owner_of(w.owners, path)
        == vault::owner_of(o, path) by {
        assert(vault::owner_of(v.owners, path) == vault::owner_of(o, path));
    }
    assert(shown_with(files, after, t, o));
    assert(vault::owner_of(w.owners, vault::note_path("tasks/"@, slug::slug_of(t)))
        == vault::owner_of(v.owners, vault::note_path("tasks/"@, slug::slug_of(t))));
}

proof fn lemma_told_shows(
    files: Map<Seq<char>, Seq<char>>,
    s: StoreView,
    agent: Seq<char>,
    event: Seq<char>,
    now: Timestamp,
    t: TaskView,
)
    requires
        s.vault is Some,
    ensures
        untouched(files, s, model::told(s, agent, event, now), t),
        shown(files, s, t) ==> shown(files, model::told(s, agent, event, now), t),
{
    let v = s.vault->0;
    vault::lemma_event_extends_the_log(files, v, agent, event, now);
    vault::lemma_vault_steps(v, t, Seq::empty(), agent, agent, now);
    vault::lemma_paths_differ(
        vault::task_name(v.owners, t),
        vault::log_name(v.owners, agent),
    );
    if shown(files, s, t) {
        lemma_still_shown(files, s, model::told(s, agent, event, now), t);
    }
}

proof fn lemma_untouched_further(
    files: Map<Seq<char>, Seq<char>>,
    a: StoreView,
    b: StoreView,
    c: StoreView,
    t: TaskView,
)
    requires
        a.vault is Some && b.vault is Some && c.vault is Some,
        grown(a, b),
        vault::task_named(a.vault->0.owners, t),
        untouched(files, a, b, t),
        untouched(files, b, c, t),
    ensures
        untouched(files, a, c, t),
{
    vault::lemma_name_stays(
        a.vault->0.owners,
        b.vault->0.owners,
        "tasks/"@,
        slug::slug_of(t),
        types::uuid_text(t.id),
    );
}

/// No two of the tasks share an identifier.
pub open spec fn distinct(tasks: Seq<TaskView>) -> bool {
    forall|i: int, j: int|
        0 <= i < j < tasks.len() ==> (#[trigger] tasks[i]).id != (#[trigger] tasks[j]).id
}

/// None of the tasks has the identifier.
pub open spec fn none_is(tasks: Seq<TaskView>, id: TaskId) -> bool {
    forall|i: int| 0 <= i < tasks.len() ==> (#[trigger] tasks[i]).id != id
}

proof fn lemma_abandonments_shown(
    files: Map<Seq<char>, Seq<char>>,
    s: StoreView,
    before: Seq<TaskView>,
    after: Seq<TaskView>,
    now: Timestamp,
    k: nat,
    u: TaskView,
)
    requires
        s.vault is Some,
        k <= after.len(),
    ensures
        distinct(after) ==> forall|i: int|
            0 <= i < k ==> shown(
                files,
                model::abandonments_noted(s, before, after, now, k),
                #[trigger] after[i],
            ),
        vault::task_named(s.vault->0.owners, u) && none_is(after, u.id) ==> untouched(
            files,
            s,
            model::abandonments_noted(s, before, after, now, k),
            u,
        ),
    decreases k,
{
    if k > 0 {
        let n = (k - 1) as nat;
        let s1 = model::abandonments_noted(s, before, after, now, n);
        lemma_abandonments_shown(files, s, before, after, now, n, u);
        lemma_abandonments_grow(s, before, after, now, n);
        let a = after[n as int];
        let s2 = match model::first_with(before, before[n as int].id) {
            Some(b) => match b.claimed_by {
                Some(agent) => {
                    let event = model::abandoned_event(s1, b);
                    lemma_told_grows(s1, agent, event, now);
                    lemma_told_shows(files, s1, agent, event, now, u);
                    model::told(s1, agent, event, now)
                },
                None => s1,
            },
            None => s1,
        };
        let s3 = model::noted(s2, a);
        assert(s3 == model::abandonments_noted(s, before, after, now, k));
        lemma_noted_shows(files, s2, a, u);
        if distinct(after) {
            assert forall|i: int| 0 <= i < k implies shown(files, s3, #[trigger] after[i]) by {
                if i < n {
                    assert(after[i].id != after[n as int].id);
                    match model::first_with(before, before[n as int].id) {
                        Some(b) => match b.claimed_by {
                            Some(agent) => lemma_told_shows(
                                files,
                                s1,
                                agent,
                                model::abandoned_event(s1, b),
                                now,
                                after[i],
                            ),
                            None => {},
                        },
                        None => {},
                    }
                    lemma_noted_shows(files, s2, a, after[i]);
                }
            }
        }
        if vault::task_named(s.vault->0.owners, u) && none_is(after, u.id) {
            assert(after[n as int].id != u.id);
            lemma_grown_same(s1, s1);
            let p = vault::note_path("tasks/"@, slug::slug_of(u));
            assert(vault::owner_of(s1.vault->0.owners, p) == vault::owner_of(
                s.vault->0.owners,
                p,
            ));
            assert(vault::owner_of(s2.vault->0.owners, p) == vault::owner_of(
                s1.vault->0.owners,
                p,
            ));
            assert(untouched(files, s1, s2, u));
            lemma_untouched_further(files, s, s1, s2, u);
            lemma_grown_further(s, s1, s2);
            lemma_untouched_further(files, s, s2, s3, u);
        }
    }
}

proof fn lemma_completion_shown(
    files: Map<Seq<char>, Seq<char>>,
    s: StoreView,
    c: TaskView,
    now: Timestamp,
    u: TaskView,
)
    requires
        s.vault is Some,
    ensures
        shown(files, model::completion_noted(s, c, now), c),
        u.id != c.id && vault::task_named(s.vault->0.owners, u) ==> untouched(
            files,
            s,
            model::completion_noted(s, c, now),
            u,
        ),
{
    let s1 = model::noted(s, c);
    lemma_noted_shows(files, s, c, u);
    lemma_noted_grows(s, c);
    match c.claimed_by {
        Some(agent) => {
            let event = model::link_event(s1, "completed"@, c);
            lemma_told_shows(files, s1, agent, event, now, c);
            lemma_told_shows(files, s1, agent, event, now, u);
            if u.id != c.id && vault::task_named(s.vault->0.owners, u) {
                lemma_untouched_further(files, s, s1, model::told(s1, agent, event, now), u);
            }
        },
        None => {},
    }
}

/// What `after` has noted is written down: the files of the tasks `n` say what
/// the tasks are, and the file of another task `u` is as it was.
pub open spec fn written_down(
    files: Map<Seq<char>, Seq<char>>,
    s: StoreView,
    after: StoreView,
    n: Seq<TaskView>,
    u: TaskView,
) -> bool {
    &&& distinct(n) ==> forall|i: int| 0 <= i < n.len() ==> shown(files, after, #[trigger] n[i])
    &&& vault::task_named(s.vault->0.owners, u) && none_is(n, u.id) ==> untouched(
        files,
        s,
        after,
        u,
    )
}

proof fn lemma_one_written(
    files: Map<Seq<char>, Seq<char>>,
    s: StoreView,
    s1: StoreView,
    t: TaskView,
    u: TaskView,
)
    requires
        s.vault is Some,
        s1.vault == s.vault,
    ensures
        written_down(files, s, model::noted(s1, t), seq![t], u),
{
    lemma_noted_shows(files, s1, t, u);
    if none_is(seq![t], u.id) {
        assert(seq![t][0].id != u.id);
    }
}

proof fn lemma_claim_written(
    files: Map<Seq<char>, Seq<char>>,
    s: StoreView,
    s1: StoreView,
    t: TaskView,
    agent: Seq<char>,
    now: Timestamp,
    u: TaskView,
)
    requires
        s.vault is Some,
        s1.vault == s.vault,
    ensures
        ({
            let s2 = model::noted(s1, t);
            let s3 = model::told(s2, agent, model::link_event(s2, "claimed"@, t), now);
            written_down(files, s, s3, seq![t], u)
        }),
{
    let s2 = model::noted(s1, t);
    let event = model::link_event(s2, "claimed"@, t);
    lemma_noted_shows(files, s1, t, u);
    lemma_noted_grows(s1, t);
    lemma_told_shows(files, s2, agent, event, now, t);
    lemma_told_shows(files, s2, agent, event, now, u);
    if none_is(seq![t], u.id) && vault::task_named(s.vault->0.owners, u) {
        assert(seq![t][0].id != u.id);
        lemma_untouched_further(files, s1, s2, model::told(s2, agent, event, now), u);
    }
}

proof fn lemma_completion_written(
    files: Map<Seq<char>, Seq<char>>,
    s: StoreView,
    s1: StoreView,
    t: TaskView,
    now: Timestamp,
    u: TaskView,
)
    requires
        s.vault is Some,
        s1.vault == s.vault,
    ensures
        written_down(files, s, model::completion_noted(s1, t, now), seq![t], u),
{
    lemma_completion_shown(files, s1, t, now, u);
    if none_is(seq![t], u.id) {
        assert(seq![t][0].id != u.id);
    }
}

proof fn lemma_acknowledgement_written(
    files: Map<Seq<char>, Seq<char>>,
    s: StoreView,
    s1: StoreView,
    t: TaskView,
    ack: TaskView,
    now: Timestamp,
    u: TaskView,
)
    requires
        s.vault is Some,
        s1.vault == s.vault,
    ensures
        written_down(
            files,
            s,
            model::noted(model::completion_noted(s1, t, now), ack),
            seq![t].push(ack),
            u,
        ),
{
    let n = seq![t].push(ack);
    let s2 = model::completion_noted(s1, t, now);
    lemma_completion_shown(files, s1, t, now, u);
    lemma_completion_grows(s1, t, now);
    lemma_noted_shows(files, s2, ack, t);
    lemma_noted_shows(files, s2, ack, u);
    assert(n[0] == t && n[1] == ack);
    if distinct(n) {
        assert(n[0].id != n[1].id);
    }
    if vault::task_named(s.vault->0.owners, u) && none_is(n, u.id) {
        assert(n[0].id != u.id && n[1].id != u.id);
        let p = vault::note_path("tasks/"@, slug::slug_of(u));
        assert(vault::owner_of(s2.vault->0.owners, p) == vault::owner_of(s1.vault->0.owners, p));
        lemma_untouched_further(files, s1, s2, model::noted(s2, ack), u);
    }
}

proof fn lemma_nothing_written(
    files: Map<Seq<char>, Seq<char>>,
    s: StoreView,
    after: StoreView,
    u: TaskView,
)
    requires
        s.vault is Some,
        after.vault == s.vault,
    ensures
        written_down(files, s, after, Seq::empty(), u),
{
}

proof fn lemma_sweep_written_down(
    files: Map<Seq<char>, Seq<char>>,
    s: StoreView,
    now: Timestamp,
    u: TaskView,
)
    requires
        s.vault is Some,
    ensures
        written_down(
            files,
            s,
            model::reclaim(s, now).0,
            noted_by(s, Op::Sweep { now }),
            u,
        ),
{
    match model::read_all(model::expired_rows(s.tasks, now)) {
        Ok(before) => match model::refetched(model::rows_swept(s, now).tasks, before) {
            Ok(after) => {
                lemma_refetched_len(model::rows_swept(s, now).tasks, before);
                lemma_abandonments_shown(
                    files,
                    model::rows_swept(s, now),
                    before,
                    after,
                    now,
                    before.len(),
                    u,
                );
            },
            Err(_) => {},
        },
        Err(_) => {},
    }
}

/// Where a vault is kept, what an operation notes is written down: once the
/// notes are carried out, the file of each task that it notes says what the
/// task is. The file of a task that it does not note is as it was.
pub proof fn lemma_notes_are_written_down(
    files: Map<Seq<char>, Seq<char>>,
    s: StoreView,
    op: Op,
    u: TaskView,
)
    requires
        s.vault is Some,
    ensures
        written_down(files, s, step(s, op), noted_by(s, op), u),
{
    lemma_nothing_written(files, s, s, u);
    match op {
        Op::Post { id, name, kind, priority, payload, now } => {
            let t = model::fresh_task(id, name, kind, priority, payload, now);
            lemma_one_written(files, s, model::added(s, rows::row_of_task(t)), t, u);
        },
        Op::Claim { id, agent, now, until } => match model::task_row(s.tasks, id) {
            Some(r) => {
                let won = model::granted(r, agent, now, until);
                match rows::task_of_row(won) {
                    Ok(t) => lemma_claim_written(
                        files,
                        s,
                        model::saved(s, won),
                        t,
                        agent,
                        now,
                        u,
                    ),
                    Err(_) => lemma_nothing_written(files, s, model::saved(s, won), u),
                }
            },
            None => {},
        },
        Op::Extend { id, now, until, .. } => match model::task_row(s.tasks, id) {
            Some(r) => {
                let e = model::extended(r, now, until);
                match rows::task_of_row(e) {
                    Ok(t) => lemma_one_written(files, s, model::saved(s, e), t, u),
                    Err(_) => lemma_nothing_written(files, s, model::saved(s, e), u),
                }
            },
            None => {},
        },
        Op::Sweep { now } => lemma_sweep_written_down(files, s, now, u),
        Op::Complete { id, result, now } => match model::task_row(s.tasks, id) {
            Some(r) => {
                let c = model::completed(r, result, now);
                match rows::task_of_row(c) {
                    Ok(t) => lemma_completion_written(files, s, model::saved(s, c), t, now, u),
                    Err(_) => lemma_nothing_written(files, s, model::saved(s, c), u),
                }
            },
            None => {},
        },
        Op::Acknowledge { id, result, ack, now } => match model::task_row(s.tasks, id) {
            Some(r) => {
                let c = model::completed(r, result, now);
                match rows::task_of_row(c) {
                    Ok(t) => lemma_acknowledgement_written(
                        files,
                        s,
                        model::added(model::saved(s, c), rows::row_of_task(ack)),
                        t,
                        ack,
                        now,
                        u,
                    ),
                    Err(_) => {},
                }
            },
            None => {},
        },
        Op::Cancel { id, now } => match model::task_row(s.tasks, id) {
            Some(r) => {
                let c = model::cancelled(r, now);
                match rows::task_of_row(c) {
                    Ok(t) => lemma_one_written(files, s, model::saved(s, c), t, u),
                    Err(_) => lemma_nothing_written(files, s, model::saved(s, c), u),
                }
            },
            None => {},
        },
        Op::Report { agent, name, now } => {
            let v = s.vault->0;
            vault::lemma_log_is_begun_once(files, v, agent, name, now);
            vault::lemma_paths_differ(
                vault::task_name(v.owners, u),
                vault::log_name(v.owners, agent),
            );
        },
    }
}

proof fn lemma_refetched_len(tasks: Seq<TaskRowView>, before: Seq<TaskView>)
    ensures
        model::refetched(tasks, before) matches Ok(after) ==> after.len() == before.len(),
    decreases before.len(),
{
    if before.len() > 0 {
        lemma_refetched_len(tasks, before.drop_last());
    }
}

proof fn lemma_carried_out_keeps(
    files: Map<Seq<char>, Seq<char>>,
    notes: Seq<vault::NoteView>,
    n: int,
    path: Seq<char>,
)
    requires
        0 <= n <= notes.len(),
        vault::all_carried_out(files, notes.take(n)).contains_key(path),
    ensures
        vault::all_carried_out(files, notes).contains_key(path),
    decreases notes.len() - n,
{
    if n < notes.len() {
        assert(notes.take(n + 1).drop_last() =~= notes.take(n));
        lemma_carried_out_keeps(files, notes, n + 1, path);
    } else {
        assert(notes.take(n) =~= notes);
    }
}

/// After an agent's first report, and whatever has happened since, a further
/// report leaves every file of the vault as it is, also where the agent
/// reports under another name.
pub proof fn lemma_second_report_writes_nothing(
    files: Map<Seq<char>, Seq<char>>,
    s: StoreView,
    agent: Seq<char>,
    name: Seq<char>,
    now: Timestamp,
    ops: Seq<Op>,
    other_name: Seq<char>,
    later: Timestamp,
)
    requires
        s.vault is Some,
    ensures
        ({
            let since = run(model::heartbeat(s, agent, name, now), ops);
            let again = model::heartbeat(since, agent, other_name, later);
            since.vault is Some && again.vault is Some && vault::filed(files, again.vault->0)
                == vault::filed(files, since.vault->0)
        }),
{
    let first = model::heartbeat(s, agent, name, now);
    let since = run(first, ops);
    lemma_run_grows(first, ops);
    let v = s.vault->0;
    let w = first.vault->0;
    let x = since.vault->0;
    vault::lemma_log_is_begun_once(files, v, agent, name, now);
    vault::lemma_vault_steps(v, arbitrary(), Seq::empty(), agent, name, now);
    lemma_carried_out_keeps(
        files,
        x.notes,
        w.notes.len() as int,
        vault::log_path(v.owners, agent),
    );
    vault::lemma_name_stays(w.owners, x.owners, "agents/"@, slug::agent_slug(agent), agent);
    vault::lemma_log_is_begun_once(files, x, agent, other_name, later);
}

} // verus!
