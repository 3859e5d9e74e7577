//! What callers of the daemon are answered, and what their requests do, said
//! member by member and row by row.

use vstd::prelude::*;

use crate::a2a;
use crate::a2a::{
    ClaimParams, CompleteParams, ExtendParams, HeartbeatParams, IdParams, ListParams, ListReply,
    ListStep, Method, MethodErrorView, Request, TaskSendParams, WaitEvent,
};
use crate::json;
use crate::json::JsonView;
use crate::model;
use crate::model::StoreView;
use crate::promises;
use crate::rows;
use crate::rows::RowError;
use crate::store;
use crate::text;
use crate::time;
use crate::time::Timestamp;
use crate::types;
use crate::types::{TaskId, TaskState, TaskView};

verus! {

// ---------------------------------------------------------------------
// Methods
// ---------------------------------------------------------------------

/// Each method goes by one name, and a name that belongs to no method is
/// refused as such.
pub proof fn lemma_methods(m: Method, s: Seq<char>)
    ensures
        a2a::method_named(s) == Some(m) ==> a2a::method_name(m) == s,
        a2a::method_name(m) == match m {
            Method::TasksSend => "tasks/send"@,
            Method::TasksGet => "tasks/get"@,
            Method::TasksList => "tasks/list"@,
            Method::TasksCancel => "tasks/cancel"@,
            Method::TasksClaim => "tasks/claim"@,
            Method::TasksExtend => "tasks/extend"@,
            Method::TasksReclaim => "tasks/reclaim"@,
            Method::TasksComplete => "tasks/complete"@,
            Method::AgentsHeartbeat => "agents/heartbeat"@,
            Method::AgentsList => "agents/list"@,
        },
        a2a::method_named(a2a::method_name(m)) is Some,
{
}

/// Errors have the codes of JSON-RPC and say what went wrong.
pub proof fn lemma_errors(what: Seq<char>)
    ensures
        a2a::bad_params_error(what).code == -32602,
        a2a::not_found_error(what).code == -32601,
        a2a::internal_error(what).code == -32000,
        a2a::conflict_error(what).code == -32001,
        text::has_suffix(a2a::bad_params_error(what).message, what),
        text::has_suffix(a2a::not_found_error(what).message, what),
        text::has_suffix(a2a::internal_error(what).message, what),
        a2a::conflict_error(what).message == what,
{
    let a = a2a::bad_params_error(what).message;
    let b = a2a::not_found_error(what).message;
    let c = a2a::internal_error(what).message;
    assert(a.skip(a.len() - what.len()) =~= what);
    assert(b.skip(b.len() - what.len()) =~= what);
    assert(c.skip(c.len() - what.len()) =~= what);
}

// ---------------------------------------------------------------------
// Tasks
// ---------------------------------------------------------------------

/// Whether a document shows a task: every field under its own name, and the
/// state by its name.
pub open spec fn is_shown(j: JsonView, t: TaskView) -> bool {
    &&& json::member(j, "id"@) == Some(JsonView::Text(types::uuid_text(t.id)))
    &&& json::member(j, "name"@) == Some(JsonView::Text(t.name))
    &&& json::member(j, "kind"@) == Some(JsonView::Text(t.kind))
    &&& json::member(j, "priority"@) == Some(JsonView::Text(t.priority))
    &&& json::member(j, "state"@) == Some(
        JsonView::Text(
            match t.state {
                TaskState::Pending => "pending"@,
                TaskState::Claimed => "claimed"@,
                TaskState::Completed => "completed"@,
                TaskState::Failed => "failed"@,
                TaskState::Cancelled => "cancelled"@,
            },
        ),
    )
    &&& json::member(j, "payload"@) == Some(t.payload)
    &&& (t.claimed_by matches Some(a) ==> json::member(j, "claimed_by"@) == Some(JsonView::Text(a)))
    &&& t.claimed_by is None ==> json::member(j, "claimed_by"@) == Some(JsonView::Null)
    &&& (t.result matches Some(v) ==> json::member(j, "result"@) == Some(v))
    &&& (t.lease_until matches Some(at) ==> json::member(j, "lease_until"@) == Some(
        JsonView::Text(time::stamp_z(at)),
    ))
    &&& t.lease_until is None ==> json::member(j, "lease_until"@) is None
}

/// A task is shown with all its fields.
pub proof fn lemma_task_is_shown(t: TaskView)
    ensures
        is_shown(types::task_json(t), t),
{
    types::lemma_task_on_the_wire(t);
}

/// A posting is answered with the task as it was posted: a `task` of `normal`
/// priority with no payload unless something else is asked for. Waiters hear
/// of it.
pub proof fn lemma_send(s: StoreView, p: TaskSendParams, fresh: TaskId, now: Timestamp)
    requires
        model::task_row(s.tasks, fresh) is None,
    ensures
        ({
            let (after, reply) = a2a::served(s, Request::Send(p), fresh, now);
            let kind = match p.kind {
                Some(k) => k@,
                None => "task"@,
            };
            let priority = match p.priority {
                Some(x) => x@,
                None => "normal"@,
            };
            let r = after.tasks.last();
            &&& reply.notify
            &&& reply.outcome matches Ok(j) && {
                &&& json::member(j, "id"@) == Some(JsonView::Text(types::uuid_text(fresh)))
                &&& json::member(j, "name"@) == Some(JsonView::Text(p.name@))
                &&& json::member(j, "kind"@) == Some(JsonView::Text(kind))
                &&& json::member(j, "priority"@) == Some(JsonView::Text(priority))
                &&& json::member(j, "claimed_by"@) == Some(JsonView::Null)
                &&& json::member(j, "state"@) == Some(
                    JsonView::Text(
                        if kind == "ack"@ || kind == "knowledge"@ || kind == "decision"@ {
                            "completed"@
                        } else {
                            "pending"@
                        },
                    ),
                )
                &&& (p.payload matches Some(v) ==> json::member(j, "payload"@) == Some(v@))
                &&& p.payload is None ==> json::member(j, "payload"@) == Some(JsonView::Null)
            }
            &&& after.tasks.len() == s.tasks.len() + 1
            &&& r.id == types::uuid_text(fresh) && r.name == p.name@
            &&& r.kind == kind && r.priority == priority
        }),
{
    let t = model::fresh_task(
        fresh,
        p.name@,
        a2a::text_or(p.kind, "task"@),
        a2a::text_or(p.priority, "normal"@),
        a2a::or_null(p.payload),
        now,
    );
    promises::lemma_posting(
        s,
        fresh,
        p.name@,
        a2a::text_or(p.kind, "task"@),
        a2a::text_or(p.priority, "normal"@),
        a2a::or_null(p.payload),
        now,
    );
    types::lemma_task_on_the_wire(t);
}

/// A fetch is answered with the task that is there, and with `null` where
/// there is none. It changes nothing and wakes nobody.
pub proof fn lemma_get(s: StoreView, p: IdParams, fresh: TaskId, now: Timestamp)
    ensures
        ({
            let (after, reply) = a2a::served(s, Request::Get(p), fresh, now);
            &&& after == s && !reply.notify
            &&& match model::task_at(s.tasks, p.id) {
                Ok(Some(t)) => reply.outcome matches Ok(j) && is_shown(j, t),
                Ok(None) => reply.outcome == Ok::<JsonView, MethodErrorView>(JsonView::Null),
                Err(_) => reply.outcome matches Err(e) && e.code == -32000,
            }
        }),
{
    match model::task_at(s.tasks, p.id) {
        Ok(Some(t)) => lemma_task_is_shown(t),
        _ => {},
    }
}

/// A claim on a pending task is answered with the task, claimed by the agent
/// that asked. A claim on anything else is a conflict, which changes nothing
/// and wakes nobody.
pub proof fn lemma_claim(
    s: StoreView,
    p: ClaimParams,
    fresh: TaskId,
    now: Timestamp,
    until: Timestamp,
    t: TaskView,
)
    requires
        model::lease_end(s.default_lease, now, p.lease_seconds) == Some(until),
        promises::spelled(now) && promises::spelled(until),
    ensures
        ({
            let (after, reply) = a2a::served(s, Request::Claim(p), fresh, now);
            match model::task_row(s.tasks, p.id) {
                Some(r) if r.state == "pending"@ => {
                    &&& rows::task_of_row(r) == Ok::<TaskView, RowError>(t) ==> reply.notify && (
                    reply.outcome matches Ok(j) && {
                        &&& json::member(j, "id"@) == Some(JsonView::Text(types::uuid_text(t.id)))
                        &&& json::member(j, "name"@) == Some(JsonView::Text(t.name))
                        &&& json::member(j, "payload"@) == Some(t.payload)
                        &&& json::member(j, "state"@) == Some(JsonView::Text("claimed"@))
                        &&& json::member(j, "claimed_by"@) == Some(JsonView::Text(p.agent_id@))
                        &&& json::member(j, "lease_until"@) == Some(
                            JsonView::Text(time::stamp_z(until)),
                        )
                    })
                    &&& model::task_row(after.tasks, p.id) matches Some(u) && u.state
                        == "claimed"@ && u.claimed_by == Some(p.agent_id@)
                },
                _ => {
                    &&& after == s && !reply.notify
                    &&& reply.outcome matches Err(e) && e.code == -32001
                },
            }
        }),
{
    promises::lemma_claiming(s, p.id, p.agent_id@, now, until);
    match model::task_row(s.tasks, p.id) {
        Some(r) => if r.state == "pending"@ && rows::task_of_row(r) == Ok::<TaskView, RowError>(
            t,
        ) {
            promises::lemma_winner_is_handed_the_task(s, p.id, p.agent_id@, now, until, t);
            let u = model::claim(s, p.id, p.agent_id@, now, until).1->Ok_0->0;
            types::lemma_task_on_the_wire(u);
        },
        None => {},
    }
}

/// An extension by the agent that holds the task is answered with the end that
/// is then on record.
pub proof fn lemma_extend(
    s: StoreView,
    p: ExtendParams,
    fresh: TaskId,
    now: Timestamp,
    until: Timestamp,
    t: TaskView,
)
    requires
        model::lease_end(s.default_lease, now, p.lease_seconds) == Some(until),
        promises::spelled(now) && promises::spelled(until),
        model::task_row(s.tasks, p.id) matches Some(r) && r.state == "claimed"@ && r.claimed_by
            == Some(p.agent_id@) && rows::task_of_row(r) == Ok::<TaskView, RowError>(t),
    ensures
        a2a::extend_served(s, p, now).1.outcome matches Ok(j) && {
            let end = if t.lease_until matches Some(e) && until.lt(e) {
                t.lease_until->0
            } else {
                until
            };
            &&& json::member(j, "ok"@) == Some(JsonView::Bool(true))
            &&& json::member(j, "lease_until"@) == Some(JsonView::Text(time::stamp(end)))
        },
        a2a::served(s, Request::Extend(p), fresh, now) == a2a::extend_served(s, p, now),
{
    promises::lemma_extension_is_read(s, p.id, p.agent_id@, now, until, t);
    let end = model::extend(s, p.id, p.agent_id@, now, until).1->Ok_0->0;
    reveal_strlit("lease_until");
    assert("lease_until"@.len() == 11);
    lemma_ok_and("lease_until"@, JsonView::Text(time::stamp(end)));
}

/// An extension by anyone but the agent that holds the task is a conflict, and
/// changes nothing. No extension wakes anybody.
pub proof fn lemma_extend_refused(
    s: StoreView,
    p: ExtendParams,
    fresh: TaskId,
    now: Timestamp,
    until: Timestamp,
)
    requires
        model::lease_end(s.default_lease, now, p.lease_seconds) == Some(until),
    ensures
        ({
            let (after, reply) = a2a::served(s, Request::Extend(p), fresh, now);
            &&& !reply.notify
            &&& !(model::task_row(s.tasks, p.id) matches Some(r) && r.state == "claimed"@
                && r.claimed_by == Some(p.agent_id@)) ==> after == s && (reply.outcome matches Err(
                e,
            ) && e.code == -32001)
        }),
{
    promises::lemma_extending(s, p.id, p.agent_id@, now, until);
}

proof fn lemma_ok_and(key: Seq<char>, v: JsonView)
    requires
        key != "ok"@ || key.len() != 2,
    ensures
        json::member(JsonView::Object(a2a::ok_members()), "ok"@) == Some(JsonView::Bool(true)),
        json::member(
            JsonView::Object(json::with_member(a2a::ok_members(), key, v)),
            "ok"@,
        ) == Some(JsonView::Bool(true)),
        json::member(JsonView::Object(json::with_member(a2a::ok_members(), key, v)), key) == Some(
            v,
        ),
{
    reveal_strlit("ok");
    assert("ok"@.len() == 2);
    json::lemma_member_set(Seq::empty(), "ok"@, JsonView::Bool(true));
    json::lemma_member_set(a2a::ok_members(), key, v);
}

/// A completion of a claimed task is answered with success, whoever asks, and
/// wakes the waiters. Of a task that is not claimed it is a conflict, which
/// changes nothing.
pub proof fn lemma_complete(s: StoreView, p: CompleteParams, fresh: TaskId, now: Timestamp)
    requires
        !p.post_ack,
        promises::spelled(now),
    ensures
        ({
            let (after, reply) = a2a::served(s, Request::Complete(p), fresh, now);
            match model::task_row(s.tasks, p.id) {
                Some(r) if r.state == "claimed"@ => {
                    &&& model::task_row(after.tasks, p.id) matches Some(u) && u.state
                        == "completed"@ && u.result == Some(
                        json::json_text(
                            match p.result {
                                Some(v) => v@,
                                None => JsonView::Null,
                            },
                        ),
                    )
                    &&& after.tasks.len() == s.tasks.len()
                    &&& rows::task_of_row(r) is Ok ==> reply.notify && (reply.outcome matches Ok(j)
                        && json::member(j, "ok"@) == Some(JsonView::Bool(true)) && json::member(
                        j,
                        "ack"@,
                    ) is None)
                },
                _ => after == s && !reply.notify && (reply.outcome matches Err(e) && e.code
                    == -32001),
            }
        }),
{
    let result = a2a::or_null(p.result);
    promises::lemma_completing(s, p.id, result, now);
    reveal_strlit("ok");
    reveal_strlit("ack");
    assert("ok"@.len() == 2 && "ack"@.len() == 3);
    json::lemma_member_set(Seq::empty(), "ok"@, JsonView::Bool(true));
    assert(json::lookup(Seq::<(Seq<char>, JsonView)>::empty(), "ack"@) is None);
    match model::task_row(s.tasks, p.id) {
        Some(r) => {
            promises::lemma_row_is_read(r);
            promises::lemma_row_is_read(model::completed(r, result, now));
        },
        None => {},
    }
}

/// A completion with an acknowledgement posts it in the same stroke and shows
/// it: of kind `ack`, named after the task unless a name is given, of `normal`
/// priority unless another is given, and with the task that it is about in its
/// payload.
pub proof fn lemma_complete_with_ack(
    s: StoreView,
    p: CompleteParams,
    r: rows::TaskRowView,
    fresh: TaskId,
    now: Timestamp,
)
    requires
        p.post_ack,
        a2a::ack_members(p.ack_payload) is Some,
        model::task_row(s.tasks, p.id) == Some(r),
        r.state == "claimed"@,
        rows::task_of_row(r) is Ok,
        model::task_row(s.tasks, fresh) is None,
        promises::spelled(now),
    ensures
        a2a::served(s, Request::Complete(p), fresh, now) == a2a::complete_served(s, p, fresh, now),
        ({
            let (after, reply) = a2a::complete_served(s, p, fresh, now);
            let a = after.tasks.last();
            &&& reply.notify
            &&& after.tasks.len() == s.tasks.len() + 1
            &&& a.id == types::uuid_text(fresh)
            &&& a.kind == "ack"@
            &&& a.state == "completed"@
            &&& (p.ack_name matches Some(n) ==> a.name == n@)
            &&& p.ack_name is None ==> a.name == "ack: "@ + r.name
            &&& (p.ack_priority matches Some(x) ==> a.priority == x@)
            &&& p.ack_priority is None ==> a.priority == "normal"@
        }),
        ({
            let (after, reply) = a2a::complete_served(s, p, fresh, now);
            let a = after.tasks.last();
            reply.outcome matches Ok(j) && json::member(j, "ok"@) == Some(JsonView::Bool(true)) && (
            json::member(j, "ack"@) matches Some(shown) && {
                &&& json::member(shown, "id"@) == Some(JsonView::Text(types::uuid_text(fresh)))
                &&& json::member(shown, "kind"@) == Some(JsonView::Text("ack"@))
                &&& json::member(shown, "name"@) == Some(JsonView::Text(a.name))
                &&& json::member(shown, "state"@) == Some(JsonView::Text("completed"@))
                &&& json::member(shown, "payload"@) matches Some(about) && json::member(
                    about,
                    "fixed_bug_id"@,
                ) == Some(JsonView::Text(types::uuid_text(p.id)))
            })
        }),
{
    let result = a2a::or_null(p.result);
    let c = model::completed(r, result, now);
    lemma_completed_reads(r, result, now);
    let ack = a2a::ack_of(r, p, fresh, now);
    types::lemma_task_on_the_wire(ack);
    reveal_strlit("ack");
    assert("ack"@.len() == 3);
    lemma_ok_and("ack"@, types::task_json(ack));
    assert(a2a::complete_served(s, p, fresh, now) == (
        model::complete_with_ack(s, p.id, result, ack, now),
        a2a::changed(
            JsonView::Object(
                json::with_member(a2a::ok_members(), "ack"@, types::task_json(ack)),
            ),
        ),
    ));
    lemma_ack_about(p);
}

proof fn lemma_completed_reads(r: rows::TaskRowView, result: JsonView, now: Timestamp)
    requires
        rows::task_of_row(r) is Ok,
        promises::spelled(now),
    ensures
        rows::task_of_row(model::completed(r, result, now)) is Ok,
{
    promises::lemma_row_is_read(r);
    promises::lemma_row_is_read(model::completed(r, result, now));
}

proof fn lemma_ack_about(p: CompleteParams)
    requires
        a2a::ack_members(p.ack_payload) is Some,
    ensures
        json::member(
            model::ack_payload(a2a::ack_members(p.ack_payload)->0, p.id),
            "fixed_bug_id"@,
        ) == Some(JsonView::Text(types::uuid_text(p.id))),
{
    lemma_set_is_found(
        a2a::ack_members(p.ack_payload)->0,
        "fixed_bug_id"@,
        JsonView::Text(types::uuid_text(p.id)),
    );
}

proof fn lemma_set_is_found(m: Seq<(Seq<char>, JsonView)>, key: Seq<char>, v: JsonView)
    ensures
        json::lookup(json::with_member(m, key, v), key) == Some(v),
    decreases m.len(),
{
    let out = json::with_member(m, key, v);
    if m.len() > 0 && m[0].0 != key && !text::text_lt(key, m[0].0) {
        lemma_set_is_found(m.drop_first(), key, v);
        assert(out.drop_first() =~= json::with_member(m.drop_first(), key, v));
    }
}

/// What is handed in for an acknowledgement's payload is an object; nothing and
/// `null` stand for an empty one.
pub proof fn lemma_ack_payload_handed_in(payload: Option<json::Json>)
    ensures
        match payload {
            None => a2a::ack_members(payload) == Some(Seq::<(Seq<char>, JsonView)>::empty()),
            Some(json::Json::Null) => a2a::ack_members(payload) == Some(
                Seq::<(Seq<char>, JsonView)>::empty(),
            ),
            Some(json::Json::Object(o)) => a2a::ack_members(payload) == Some(o@),
            Some(_) => a2a::ack_members(payload) is None,
        },
{
}

/// An acknowledgement keeps what was handed in for its payload, but for the
/// member that names its task.
pub proof fn lemma_ack_keeps_its_payload(
    given: Seq<(Seq<char>, JsonView)>,
    source: TaskId,
    key: Seq<char>,
)
    requires
        json::keys_ascend(given),
        key != "fixed_bug_id"@,
    ensures
        json::member(model::ack_payload(given, source), key) == json::lookup(given, key),
{
    json::lemma_lookup_with_member(
        given,
        "fixed_bug_id"@,
        JsonView::Text(types::uuid_text(source)),
        key,
    );
}

/// A completion with an acknowledgement is refused where the payload that is
/// handed in for it is no object, and is a conflict where the task is not
/// claimed. Nothing changes then.
pub proof fn lemma_ack_refused(s: StoreView, p: CompleteParams, fresh: TaskId, now: Timestamp)
    requires
        p.post_ack,
    ensures
        ({
            let (after, reply) = a2a::served(s, Request::Complete(p), fresh, now);
            &&& a2a::ack_members(p.ack_payload) is None ==> after == s && !reply.notify && (
            reply.outcome matches Err(e) && e.code == -32602)
            &&& a2a::ack_members(p.ack_payload) is Some && !(model::task_row(
                s.tasks,
                p.id,
            ) matches Some(r) && r.state == "claimed"@) ==> after == s && !reply.notify && (
            reply.outcome matches Err(e) && e.code == -32001)
        }),
{
}

/// A cancellation is answered with success, whether or not there is such a
/// task, and wakes the waiters.
pub proof fn lemma_cancel(s: StoreView, p: IdParams, fresh: TaskId, now: Timestamp)
    requires
        promises::spelled(now),
        model::task_row(s.tasks, p.id) matches Some(r) ==> rows::task_of_row(r) is Ok,
    ensures
        ({
            let (after, reply) = a2a::served(s, Request::Cancel(p), fresh, now);
            &&& reply.notify
            &&& reply.outcome matches Ok(j) && json::member(j, "ok"@) == Some(JsonView::Bool(true))
            &&& (model::task_row(s.tasks, p.id) is Some ==> (model::task_row(
                after.tasks,
                p.id,
            ) matches Some(u) && u.state == "cancelled"@))
        }),
{
    promises::lemma_cancelling(s, p.id, now);
    json::lemma_member_set(Seq::empty(), "ok"@, JsonView::Bool(true));
    match model::task_row(s.tasks, p.id) {
        Some(r) => {
            promises::lemma_row_is_read(r);
            promises::lemma_row_is_read(model::cancelled(r, now));
        },
        None => {},
    }
}

/// A report is answered with success, puts the agent on record, and wakes
/// nobody.
pub proof fn lemma_heartbeat(s: StoreView, p: HeartbeatParams, fresh: TaskId, now: Timestamp)
    ensures
        ({
            let (after, reply) = a2a::served(s, Request::Heartbeat(p), fresh, now);
            &&& !reply.notify
            &&& reply.outcome matches Ok(j) && json::member(j, "ok"@) == Some(JsonView::Bool(true))
            &&& after.tasks == s.tasks
            &&& exists|i: int|
                0 <= i < after.agents.len() && (#[trigger] after.agents[i]).id == p.id@
                    && after.agents[i].name == p.name@ && after.agents[i].last_seen == time::stamp(
                    now,
                )
        }),
{
    promises::lemma_reporting(s, p.id@, p.name@, now);
    json::lemma_member_set(Seq::empty(), "ok"@, JsonView::Bool(true));
    let after = model::heartbeat(s, p.id@, p.name@, now);
    match model::agent_at(s.agents, p.id@) {
        Some(_) => {
            store::lemma_agent_at(after.agents, p.id@);
            let b = model::agent_at(after.agents, p.id@)->0;
            let i = choose|i: int| 0 <= i < after.agents.len() && after.agents[i] == b;
            assert(after.agents[i].id == p.id@);
        },
        None => {
            assert(after.agents[after.agents.len() - 1].id == p.id@);
        },
    }
}

/// A sweep is answered with the tasks that it returned, as many documents as
/// there are tasks, and wakes the waiters where there is one.
pub proof fn lemma_reclaim(s: StoreView, fresh: TaskId, now: Timestamp, i: int)
    ensures
        ({
            let (after, reply) = a2a::served(s, Request::Reclaim, fresh, now);
            match model::reclaim(s, now).1 {
                Ok(tasks) => {
                    &&& reply.notify <==> tasks.len() > 0
                    &&& reply.outcome matches Ok(JsonView::Array(items)) && items.len()
                        == tasks.len() && (0 <= i < items.len() ==> is_shown(items[i], tasks[i]))
                },
                Err(_) => !reply.notify && (reply.outcome matches Err(e) && e.code == -32000),
            }
        }),
{
    match model::reclaim(s, now).1 {
        Ok(tasks) => if 0 <= i < tasks.len() {
            lemma_task_is_shown(tasks[i]);
        },
        Err(_) => {},
    }
}

/// A listing of agents shows every agent that is listed, in that order, with
/// the task that it holds.
pub proof fn lemma_agents(s: StoreView, fresh: TaskId, now: Timestamp, i: int)
    ensures
        ({
            let (after, reply) = a2a::served(s, Request::Agents, fresh, now);
            &&& after == s && !reply.notify
            &&& match model::agents_listed(s) {
                Ok(agents) => reply.outcome matches Ok(JsonView::Array(items)) && items.len()
                    == agents.len() && (0 <= i < items.len() ==> {
                    &&& json::member(items[i], "id"@) == Some(JsonView::Text(agents[i].id))
                    &&& json::member(items[i], "name"@) == Some(JsonView::Text(agents[i].name))
                    &&& json::member(items[i], "current_task"@) == Some(
                        match agents[i].current_task {
                            Some(id) => JsonView::Text(types::uuid_text(id)),
                            None => JsonView::Null,
                        },
                    )
                }),
                Err(_) => reply.outcome matches Err(e) && e.code == -32000,
            }
        }),
{
    match model::agents_listed(s) {
        Ok(agents) => if 0 <= i < agents.len() {
            types::lemma_agent_on_the_wire(agents[i]);
        },
        Err(_) => {},
    }
}

// ---------------------------------------------------------------------
// Listings
// ---------------------------------------------------------------------

/// What a listing asks for is in its parameters, each under its name; without
/// them it asks for fifty tasks of any state, kind and priority, at once.
pub proof fn lemma_list_parameters(params: JsonView, n: u64, s: Seq<char>)
    ensures
        ({
            let (limit, filter, wait_ms) = a2a::asked(params);
            &&& json::member(params, "limit"@) == Some(JsonView::Int(n as int)) ==> limit == n
            &&& json::member(params, "limit"@) is None ==> limit == 50
            &&& json::member(params, "wait_ms"@) == Some(JsonView::Int(n as int)) ==> wait_ms == n
            &&& json::member(params, "wait_ms"@) is None ==> wait_ms == 0
            &&& json::member(params, "state"@) == Some(JsonView::Text(s)) ==> filter.state == Some(
                s,
            )
            &&& json::member(params, "kind"@) == Some(JsonView::Text(s)) ==> filter.kind == Some(s)
            &&& json::member(params, "priority"@) == Some(JsonView::Text(s)) ==> filter.priority
                == Some(s)
            &&& json::member(params, "state"@) is None ==> filter.state is None
            &&& json::member(params, "kind"@) is None ==> filter.kind is None
            &&& json::member(params, "priority"@) is None ==> filter.priority is None
        }),
{
}

/// A listing waits for as long as it asks for, and a minute at the most.
pub proof fn lemma_waits(q: ListParams)
    ensures
        q.wait_ms <= 60_000 ==> a2a::wait_length(q) == q.wait_ms,
        q.wait_ms > 60_000 ==> a2a::wait_length(q) == 60_000,
{
}

/// Whether a document shows the task that is read in a row.
pub open spec fn shows_row(j: JsonView, r: rows::TaskRowView) -> bool {
    rows::task_of_row(r) matches Ok(t) && is_shown(j, t)
}

/// Whether documents show the tasks in rows, one for one.
pub open spec fn shows_rows(items: Seq<JsonView>, table: Seq<rows::TaskRowView>) -> bool {
    &&& items.len() == table.len()
    &&& forall|i: int|
        #![trigger items[i]]
        0 <= i < items.len() ==> shows_row(items[i], table[i])
}

proof fn lemma_rows_are_shown(table: Seq<rows::TaskRowView>)
    ensures
        model::read_all(table) matches Ok(tasks) ==> (types::tasks_json(
            tasks,
        ) matches JsonView::Array(items) && shows_rows(items, table)),
{
    promises::lemma_listing_is_read(table);
    match model::read_all(table) {
        Ok(tasks) => {
            let items = types::tasks_json(tasks)->Array_0;
            assert forall|i: int|
                #![trigger items[i]]
                0 <= i < items.len() implies shows_row(items[i], table[i]) by {
                assert(rows::task_of_row(table[i]) == Ok::<TaskView, RowError>(tasks[i]));
                assert(items[i] == types::task_json(tasks[i]));
                lemma_task_is_shown(tasks[i]);
            }
        },
        Err(_) => {},
    }
}

/// Whether no row is older than the next one.
pub open spec fn newest_first(table: Seq<rows::TaskRowView>) -> bool {
    forall|i: int, j: int|
        0 <= i < j < table.len() ==> !text::text_lt(
            (#[trigger] table[i]).created_at,
            (#[trigger] table[j]).created_at,
        )
}

proof fn lemma_notified(s: StoreView, now: Timestamp)
    ensures
        a2a::sweep_returns(s, now) <==> model::reclaim(s, now).1 is Ok && promises::count_ended(
            s.tasks,
            now,
        ) > 0,
{
    promises::lemma_sweep_answer(s, now);
}

/// A listing that is answered shows rows of the bulletin that have every
/// column that was asked for, the newest first, at most as many as were asked
/// for, and all of them where there are fewer. One that is to wait found none,
/// and waits only where it was asked to. Waiters hear of a listing where it
/// took back a claim that had lapsed.
pub proof fn lemma_list(s: StoreView, q: ListParams, now: Timestamp, r: ListReply, after: StoreView)
    requires
        a2a::list_outcome(s, q, now, r, after),
    ensures
        r.notify <==> model::reclaim(s, now).1 is Ok && promises::count_ended(s.tasks, now) > 0,
        ({
            let f = q.filter@;
            let all = promises::count_with(after.tasks, f.state, f.kind, f.priority);
            match r.step {
                ListStep::Answer(j) => j@ matches JsonView::Array(items) && {
                    &&& items.len() == if all < q.limit {
                        all
                    } else {
                        q.limit as nat
                    }
                    &&& exists|table: Seq<rows::TaskRowView>| #[trigger]
                        shows_rows(items, table) && newest_first(table) && forall|i: int|
                            0 <= i < table.len() ==> after.tasks.contains(#[trigger] table[i])
                                && promises::has_columns(table[i], f.state, f.kind, f.priority)
                    &&& q.wait_ms > 0 ==> items.len() > 0
                },
                ListStep::Wait(ms) => {
                    &&& q.wait_ms > 0
                    &&& ms <= 60_000 && ms <= q.wait_ms
                    &&& q.limit == 0 || all == 0
                },
                ListStep::Fail(e) => e@.code == -32000,
            }
        }),
{
    lemma_notified(s, now);
    lemma_list_step(after, q, q.wait_ms != 0, r.step);
}

proof fn lemma_list_step(after: StoreView, q: ListParams, hold: bool, step: ListStep)
    requires
        a2a::list_step(
            model::listed(after.tasks, q.limit as nat, q.filter@),
            q,
            hold,
            step,
        ),
    ensures
        ({
            let f = q.filter@;
            let all = promises::count_with(after.tasks, f.state, f.kind, f.priority);
            match step {
                ListStep::Answer(j) => j@ matches JsonView::Array(items) && {
                    &&& items.len() == if all < q.limit {
                        all
                    } else {
                        q.limit as nat
                    }
                    &&& exists|table: Seq<rows::TaskRowView>| #[trigger]
                        shows_rows(items, table) && newest_first(table) && forall|i: int|
                            0 <= i < table.len() ==> after.tasks.contains(#[trigger] table[i])
                                && promises::has_columns(table[i], f.state, f.kind, f.priority)
                    &&& hold ==> items.len() > 0
                },
                ListStep::Wait(ms) => {
                    &&& hold
                    &&& ms <= 60_000 && ms <= q.wait_ms
                    &&& q.limit == 0 || all == 0
                },
                ListStep::Fail(e) => e@.code == -32000,
            }
        }),
{
    let f = q.filter@;
    let table = model::listed(after.tasks, q.limit as nat, f);
    lemma_rows_are_shown(table);
    promises::lemma_listing_is_read(table);
    promises::lemma_listing_length(after.tasks, q.limit as nat, f.state, f.kind, f.priority);
    if table.len() > 0 {
        promises::lemma_listing_by_columns(
            after.tasks,
            q.limit as nat,
            f.state,
            f.kind,
            f.priority,
            table[0],
        );
    }
    match step {
        ListStep::Answer(j) => {
            let items = j@->Array_0;
            assert(shows_rows(items, table));
        },
        _ => {},
    }
}

/// A listing that waits goes on after a change as it began: it is answered
/// with what there is, and waits again where there is nothing. When its time
/// is over it is answered with what there is, and when the daemon closes with
/// nothing.
pub proof fn lemma_relist(
    s: StoreView,
    q: ListParams,
    event: WaitEvent,
    now: Timestamp,
    r: ListReply,
    after: StoreView,
)
    requires
        a2a::relist_outcome(s, q, event, now, r, after),
    ensures
        r.notify <==> event != WaitEvent::Closed && model::reclaim(s, now).1 is Ok
            && promises::count_ended(s.tasks, now) > 0,
        event == WaitEvent::Closed ==> after == s && (r.step matches ListStep::Answer(j) && (
        j@ matches JsonView::Array(items) && items.len() == 0)),
        r.step is Wait ==> event == WaitEvent::Changed,
        event != WaitEvent::Closed ==> {
            let f = q.filter@;
            let all = promises::count_with(after.tasks, f.state, f.kind, f.priority);
            &&& (r.step matches ListStep::Answer(j) ==> (j@ matches JsonView::Array(items)
                && items.len() == if all < q.limit {
                all
            } else {
                q.limit as nat
            }))
            &&& r.step is Wait ==> q.limit == 0 || all == 0
            &&& event == WaitEvent::Changed && (r.step matches ListStep::Answer(j)) ==> all > 0
        },
{
    lemma_notified(s, now);
    if event != WaitEvent::Closed {
        lemma_list_step(after, q, event == WaitEvent::Changed, r.step);
    }
}

// ---------------------------------------------------------------------
// Responses
// ---------------------------------------------------------------------

/// A response carries the identifier of its request and either a result or an
/// error, never both; an error has its code and its message.
pub proof fn lemma_response(id: JsonView, outcome: Result<JsonView, MethodErrorView>)
    ensures
        ({
            let j = a2a::response(id, outcome);
            &&& json::member(j, "jsonrpc"@) == Some(JsonView::Text("2.0"@))
            &&& json::member(j, "id"@) == Some(id)
            &&& match outcome {
                Ok(v) => json::member(j, "result"@) == Some(v) && json::member(j, "error"@) is None,
                Err(e) => json::member(j, "result"@) is None && (json::member(
                    j,
                    "error"@,
                ) matches Some(inner) && json::member(inner, "code"@) == Some(
                    JsonView::Int(e.code),
                ) && json::member(inner, "message"@) == Some(JsonView::Text(e.message))),
            }
        }),
{
    reveal_strlit("jsonrpc");
    reveal_strlit("id");
    reveal_strlit("result");
    reveal_strlit("error");
    reveal_strlit("code");
    reveal_strlit("message");
    assert("jsonrpc"@.len() == 7 && "id"@.len() == 2 && "result"@.len() == 6 && "error"@.len()
        == 5);
    assert("code"@.len() == 4 && "message"@.len() == 7);
    let m = Seq::<(Seq<char>, JsonView)>::empty();
    json::lemma_member_set(m, "jsonrpc"@, JsonView::Text("2.0"@));
    let m1 = json::with_member(m, "jsonrpc"@, JsonView::Text("2.0"@));
    json::lemma_member_set(m1, "id"@, id);
    let m2 = json::with_member(m1, "id"@, id);
    match outcome {
        Ok(v) => json::lemma_member_set(m2, "result"@, v),
        Err(e) => {
            json::lemma_member_set(m, "code"@, JsonView::Int(e.code));
            let c = json::with_member(m, "code"@, JsonView::Int(e.code));
            json::lemma_member_set(c, "message"@, JsonView::Text(e.message));
            let inner = JsonView::Object(
                json::with_member(c, "message"@, JsonView::Text(e.message)),
            );
            json::lemma_member_set(m2, "error"@, inner);
        },
    }
}

/// The card names the daemon and its version, and lists eight skills under
/// their names; every one of them is a method that is served.
pub proof fn lemma_card(i: int)
    ensures
        json::member(a2a::card(), "name"@) == Some(JsonView::Text("coord"@)),
        json::member(a2a::card(), "skills"@) matches Some(JsonView::Array(skills)) && {
            &&& skills.len() == 8
            &&& 0 <= i < 8 ==> (json::member_text(skills[i], "id"@) matches Some(id)
                && a2a::method_named(id) is Some)
        },
{
    lemma_card_members();
    if 0 <= i < 8 {
        lemma_skill(i);
    }
}

proof fn lemma_skill(i: int)
    requires
        0 <= i < 8,
    ensures
        json::member_text(a2a::skills()[i], "id"@) matches Some(id) && a2a::method_named(id)
            is Some,
{
    reveal_strlit("id");
    reveal_strlit("name");
    assert("id"@.len() == 2 && "name"@.len() == 4);
    let all = seq![
        ("tasks/send"@, "Create a task"@),
        ("tasks/get"@, "Get task state"@),
        ("tasks/cancel"@, "Cancel a task"@),
        ("tasks/list"@, "List / long-poll tasks (extension)"@),
        ("tasks/claim"@, "Atomic leased claim (extension)"@),
        ("tasks/extend"@, "Extend a claim's lease (extension)"@),
        ("tasks/reclaim"@, "Sweep expired leases (extension)"@),
        ("tasks/complete"@, "Complete a claimed task (extension)"@),
    ];
    let (id, name) = all[i];
    assert(a2a::skills()[i] == a2a::skill(id, name));
    json::lemma_member_set(Seq::empty(), "id"@, JsonView::Text(id));
    json::lemma_member_set(
        json::with_member(Seq::empty(), "id"@, JsonView::Text(id)),
        "name"@,
        JsonView::Text(name),
    );
}

proof fn lemma_card_members()
    ensures
        json::member(a2a::card(), "name"@) == Some(JsonView::Text("coord"@)),
        json::member(a2a::card(), "skills"@) == Some(JsonView::Array(a2a::skills())),
{
    reveal_strlit("name");
    reveal_strlit("version");
    reveal_strlit("description");
    reveal_strlit("url");
    reveal_strlit("capabilities");
    reveal_strlit("compatibility");
    reveal_strlit("skills");
    assert("name"@.len() == 4 && "version"@.len() == 7 && "description"@.len() == 11);
    assert("url"@.len() == 3 && "capabilities"@.len() == 12 && "compatibility"@.len() == 13);
    assert("skills"@.len() == 6);
    let m0 = Seq::<(Seq<char>, JsonView)>::empty();
    json::lemma_member_set(m0, "name"@, JsonView::Text("coord"@));
    let m1 = json::with_member(m0, "name"@, JsonView::Text("coord"@));
    json::lemma_member_set(m1, "version"@, JsonView::Text(a2a::VERSION@));
    let m2 = json::with_member(m1, "version"@, JsonView::Text(a2a::VERSION@));
    json::lemma_member_set(m2, "description"@, JsonView::Text(a2a::DESCRIPTION@));
    let m3 = json::with_member(m2, "description"@, JsonView::Text(a2a::DESCRIPTION@));
    json::lemma_member_set(m3, "url"@, JsonView::Text("/"@));
    let m4 = json::with_member(m3, "url"@, JsonView::Text("/"@));
    json::lemma_member_set(m4, "capabilities"@, a2a::capabilities());
    let m5 = json::with_member(m4, "capabilities"@, a2a::capabilities());
    let compat = JsonView::Object(
        json::with_member(
            Seq::empty(),
            "a2a"@,
            a2a::two_texts("version"@, "subset"@, "notes"@, a2a::A2A_NOTES@),
        ),
    );
    json::lemma_member_set(m5, "compatibility"@, compat);
    let m6 = json::with_member(m5, "compatibility"@, compat);
    json::lemma_member_set(m6, "skills"@, JsonView::Array(a2a::skills()));
}

/// What is left of a wait and what has passed of it make up the whole; nothing
/// is left once it is over.
pub proof fn lemma_time_left(wait_ms: u64, elapsed_ms: u64)
    ensures
        elapsed_ms <= wait_ms ==> a2a::left(wait_ms, elapsed_ms) + elapsed_ms == wait_ms,
        elapsed_ms >= wait_ms ==> a2a::left(wait_ms, elapsed_ms) == 0,
{
}

} // verus!
