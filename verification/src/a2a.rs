//! The JSON-RPC methods: which operation a request is, what it is answered,
//! and when those who wait for a change are woken.
//!
//! `tasks/send`, `tasks/get` and `tasks/cancel` follow A2A; the other methods
//! are extensions. `tasks/list` can wait for a task to come up: its decisions
//! are those of [`tasks_list_at`] and [`tasks_relist_at`], and whoever holds
//! the connection does the waiting.

use vstd::prelude::*;

use crate::json;
use crate::json::{Json, JsonObject, JsonView};
use crate::laws;
use crate::model;
use crate::model::{FilterView, StoreView};
use crate::order;
use crate::rows;
use crate::rows::{RowError, TaskRowView};
use crate::store;
use crate::store::{Ack, Store, StoreError, TaskFilter};
use crate::text;
use crate::time;
use crate::time::Timestamp;
use crate::types;
use crate::types::{TaskId, TaskView, DEFAULT_KIND, DEFAULT_PRIORITY};

verus! {

/// The version of the protocol's implementation.
pub const VERSION: &'static str = "0.4.1";

// ---------------------------------------------------------------------
// Errors
// ---------------------------------------------------------------------

/// Why a request was refused.
#[derive(Debug, PartialEq, Eq)]
pub struct MethodError {
    pub code: i32,
    pub message: String,
}

/// What an error holds.
#[verifier::ext_equal]
pub struct MethodErrorView {
    pub code: int,
    pub message: Seq<char>,
}

impl View for MethodError {
    type V = MethodErrorView;

    open spec fn view(&self) -> MethodErrorView {
        MethodErrorView { code: self.code as int, message: self.message@ }
    }
}

/// The error for parameters that cannot be read.
pub open spec fn bad_params_error(e: Seq<char>) -> MethodErrorView {
    MethodErrorView { code: -32602, message: "invalid params: "@ + e }
}

/// The error for a method that does not exist.
pub open spec fn not_found_error(method: Seq<char>) -> MethodErrorView {
    MethodErrorView { code: -32601, message: "method not found: "@ + method }
}

/// The error for an operation that the bulletin refused.
pub open spec fn internal_error(e: Seq<char>) -> MethodErrorView {
    MethodErrorView { code: -32000, message: "internal error: "@ + e }
}

/// The error for an operation that came too late.
pub open spec fn conflict_error(msg: Seq<char>) -> MethodErrorView {
    MethodErrorView { code: -32001, message: msg }
}

impl MethodError {
    /// The error for parameters that cannot be read.
    pub fn bad_params(e: &str) -> (r: MethodError)
        ensures
            r@ == bad_params_error(e@),
    {
        let mut message = "invalid params: ".to_owned();
        message.append(e);
        MethodError { code: -32602, message }
    }

    /// The error for a method that does not exist.
    pub fn not_found(method: &str) -> (r: MethodError)
        ensures
            r@ == not_found_error(method@),
    {
        let mut message = "method not found: ".to_owned();
        message.append(method);
        MethodError { code: -32601, message }
    }

    /// The error for an operation that the bulletin refused.
    pub fn internal(e: &str) -> (r: MethodError)
        ensures
            r@ == internal_error(e@),
    {
        let mut message = "internal error: ".to_owned();
        message.append(e);
        MethodError { code: -32000, message }
    }

    /// The error for an operation that came too late.
    pub fn conflict(msg: &str) -> (r: MethodError)
        ensures
            r@ == conflict_error(msg@),
    {
        MethodError { code: -32001, message: msg.to_owned() }
    }
}

/// What a claim that is not won is answered.
pub const NOT_CLAIMABLE: &'static str = "task is not claimable (already claimed or missing)";

/// What an extension that is not granted is answered.
pub const NOT_EXTENDABLE: &'static str = "lease cannot be extended (not claimed by this agent, or already completed / cancelled / reclaimed)";

/// What a completion that is not accepted is answered.
pub const NOT_CLAIMED: &'static str = "task is not in 'claimed' state — was it cancelled, already completed, or reclaimed after its lease expired?";

/// What is wrong with an acknowledgement's payload that is not an object.
pub const ACK_NOT_OBJECT: &'static str = "ackPayload must be an object";

// ---------------------------------------------------------------------
// Methods
// ---------------------------------------------------------------------

/// A method of the JSON-RPC surface.
#[derive(Debug, Clone, Copy, PartialEq, Eq, Structural)]
pub enum Method {
    TasksSend,
    TasksGet,
    TasksList,
    TasksCancel,
    TasksClaim,
    TasksExtend,
    TasksReclaim,
    TasksComplete,
    AgentsHeartbeat,
    AgentsList,
}

/// The name of a method.
pub open spec fn method_name(m: Method) -> Seq<char> {
    match m {
        Method::TasksSend => "tasks/send"@,
        Method::TasksGet => "tasks/get"@,
        Method::TasksList => "tasks/list"@,
        Method::TasksCancel => "tasks/cancel"@,
        Method::TasksClaim => "tasks/claim"@,
        Method::TasksExtend => "tasks/extend"@,
        Method::TasksReclaim => "tasks/reclaim"@,
        Method::TasksComplete => "tasks/complete"@,
        Method::AgentsHeartbeat => "agents/heartbeat"@,
        Method::AgentsList => "agents/list"@,
    }
}

/// The method with the given name.
pub open spec fn method_named(s: Seq<char>) -> Option<Method> {
    if s == "tasks/send"@ {
        Some(Method::TasksSend)
    } else if s == "tasks/get"@ {
        Some(Method::TasksGet)
    } else if s == "tasks/list"@ {
        Some(Method::TasksList)
    } else if s == "tasks/cancel"@ {
        Some(Method::TasksCancel)
    } else if s == "tasks/claim"@ {
        Some(Method::TasksClaim)
    } else if s == "tasks/extend"@ {
        Some(Method::TasksExtend)
    } else if s == "tasks/reclaim"@ {
        Some(Method::TasksReclaim)
    } else if s == "tasks/complete"@ {
        Some(Method::TasksComplete)
    } else if s == "agents/heartbeat"@ {
        Some(Method::AgentsHeartbeat)
    } else if s == "agents/list"@ {
        Some(Method::AgentsList)
    } else {
        None
    }
}

/// The method that a request names; any other name is refused.
pub fn route(method: &str) -> (r: Result<Method, MethodError>)
    ensures
        match method_named(method@) {
            Some(m) => r == Ok::<Method, MethodError>(m),
            None => r matches Err(e) && e@ == not_found_error(method@),
        },
{
    if text::same(method, "tasks/send") {
        Ok(Method::TasksSend)
    } else if text::same(method, "tasks/get") {
        Ok(Method::TasksGet)
    } else if text::same(method, "tasks/list") {
        Ok(Method::TasksList)
    } else if text::same(method, "tasks/cancel") {
        Ok(Method::TasksCancel)
    } else if text::same(method, "tasks/claim") {
        Ok(Method::TasksClaim)
    } else if text::same(method, "tasks/extend") {
        Ok(Method::TasksExtend)
    } else if text::same(method, "tasks/reclaim") {
        Ok(Method::TasksReclaim)
    } else if text::same(method, "tasks/complete") {
        Ok(Method::TasksComplete)
    } else if text::same(method, "agents/heartbeat") {
        Ok(Method::AgentsHeartbeat)
    } else if text::same(method, "agents/list") {
        Ok(Method::AgentsList)
    } else {
        Err(MethodError::not_found(method))
    }
}

// ---------------------------------------------------------------------
// Requests
// ---------------------------------------------------------------------

/// The parameters of `tasks/send`.
#[derive(Debug)]
pub struct TaskSendParams {
    pub name: String,
    pub kind: Option<String>,
    pub priority: Option<String>,
    pub payload: Option<Json>,
}

/// The parameters of methods that name a task.
#[derive(Debug)]
pub struct IdParams {
    pub id: TaskId,
}

/// The parameters of `tasks/claim`.
#[derive(Debug)]
pub struct ClaimParams {
    pub id: TaskId,
    pub agent_id: String,
    pub lease_seconds: Option<u64>,
}

/// The parameters of `tasks/extend`.
#[derive(Debug)]
pub struct ExtendParams {
    pub id: TaskId,
    pub agent_id: String,
    pub lease_seconds: Option<u64>,
}

/// The parameters of `tasks/complete`. With `post_ack` an acknowledgement is
/// posted together with the completion.
#[derive(Debug)]
pub struct CompleteParams {
    pub id: TaskId,
    pub result: Option<Json>,
    pub post_ack: bool,
    pub ack_name: Option<String>,
    pub ack_priority: Option<String>,
    pub ack_payload: Option<Json>,
}

/// The parameters of `agents/heartbeat`.
#[derive(Debug)]
pub struct HeartbeatParams {
    pub id: String,
    pub name: String,
}

/// A request that is answered at once.
#[derive(Debug)]
pub enum Request {
    Send(TaskSendParams),
    Get(IdParams),
    Cancel(IdParams),
    Claim(ClaimParams),
    Extend(ExtendParams),
    Reclaim,
    Complete(CompleteParams),
    Heartbeat(HeartbeatParams),
    Agents,
}

/// The answer to a request, and whether a change of state is announced.
#[derive(Debug)]
pub struct Reply {
    pub outcome: Result<Json, MethodError>,
    pub notify: bool,
}

/// What a reply holds.
pub struct ReplyView {
    pub outcome: Result<JsonView, MethodErrorView>,
    pub notify: bool,
}

impl View for Reply {
    type V = ReplyView;

    open spec fn view(&self) -> ReplyView {
        ReplyView {
            outcome: match self.outcome {
                Ok(j) => Ok(j@),
                Err(e) => Err(e@),
            },
            notify: self.notify,
        }
    }
}

/// A document, or `null` for none.
pub open spec fn or_null(j: Option<Json>) -> JsonView {
    match j {
        Some(v) => v@,
        None => JsonView::Null,
    }
}

/// A text, or another one for none.
pub open spec fn text_or(s: Option<String>, other: Seq<char>) -> Seq<char> {
    match s {
        Some(t) => t@,
        None => other,
    }
}

/// An answer that a change of state goes with.
pub open spec fn changed(j: JsonView) -> ReplyView {
    ReplyView { outcome: Ok(j), notify: true }
}

/// An answer that no announcement goes with.
pub open spec fn quiet(j: JsonView) -> ReplyView {
    ReplyView { outcome: Ok(j), notify: false }
}

/// A refusal.
pub open spec fn refused(e: MethodErrorView) -> ReplyView {
    ReplyView { outcome: Err(e), notify: false }
}

/// A failure of the bulletin.
pub open spec fn failed(e: StoreError) -> ReplyView {
    refused(internal_error(store::error_text(e)))
}

/// A failure to read a row.
pub open spec fn unreadable(e: RowError) -> ReplyView {
    failed(StoreError::Row(e))
}

/// The members of `{"ok": true}`.
pub open spec fn ok_members() -> Seq<(Seq<char>, JsonView)> {
    json::with_member(Seq::empty(), "ok"@, JsonView::Bool(true))
}

/// What `tasks/send` makes of the bulletin, and its answer.
pub open spec fn send_served(s: StoreView, p: TaskSendParams, id: TaskId, now: Timestamp) -> (
    StoreView,
    ReplyView,
) {
    let t = model::fresh_task(
        id,
        p.name@,
        text_or(p.kind, DEFAULT_KIND@),
        text_or(p.priority, DEFAULT_PRIORITY@),
        or_null(p.payload),
        now,
    );
    if model::task_row(s.tasks, id) is Some {
        (s, failed(StoreError::DuplicateTask))
    } else {
        (model::posted(s, t), changed(types::task_json(t)))
    }
}

/// What `tasks/get` answers: the task, or `null`.
pub open spec fn get_served(s: StoreView, id: TaskId) -> ReplyView {
    match model::task_at(s.tasks, id) {
        Ok(Some(t)) => quiet(types::task_json(t)),
        Ok(None) => quiet(JsonView::Null),
        Err(e) => unreadable(e),
    }
}

/// What `tasks/claim` makes of the bulletin, and its answer.
pub open spec fn claim_served(s: StoreView, p: ClaimParams, now: Timestamp) -> (
    StoreView,
    ReplyView,
) {
    match model::lease_end(s.default_lease, now, p.lease_seconds) {
        Some(until) => {
            let (after, won) = model::claim(s, p.id, p.agent_id@, now, until);
            match won {
                Ok(Some(t)) => (after, changed(types::task_json(t))),
                Ok(None) => (s, refused(conflict_error(NOT_CLAIMABLE@))),
                Err(e) => (after, unreadable(e)),
            }
        },
        None => (s, failed(StoreError::LeaseEnd)),
    }
}

/// What `tasks/extend` makes of the bulletin, and its answer.
pub open spec fn extend_served(s: StoreView, p: ExtendParams, now: Timestamp) -> (
    StoreView,
    ReplyView,
) {
    match model::lease_end(s.default_lease, now, p.lease_seconds) {
        Some(until) => {
            let (after, granted) = model::extend(s, p.id, p.agent_id@, now, until);
            match granted {
                Ok(Some(end)) => (
                    after,
                    quiet(
                        JsonView::Object(
                            json::with_member(
                                ok_members(),
                                "lease_until"@,
                                JsonView::Text(time::stamp(end)),
                            ),
                        ),
                    ),
                ),
                Ok(None) => (s, refused(conflict_error(NOT_EXTENDABLE@))),
                Err(e) => (after, unreadable(e)),
            }
        },
        None => (s, failed(StoreError::LeaseEnd)),
    }
}

/// What `tasks/reclaim` answers: the tasks that it returned to the bulletin.
pub open spec fn reclaim_served(s: StoreView, now: Timestamp) -> ReplyView {
    match model::reclaim(s, now).1 {
        Ok(tasks) => ReplyView { outcome: Ok(types::tasks_json(tasks)), notify: tasks.len() > 0 },
        Err(e) => unreadable(e),
    }
}

/// The members of an acknowledgement's payload as they were handed in:
/// `None` where what was handed in is not an object.
pub open spec fn ack_members(payload: Option<Json>) -> Option<Seq<(Seq<char>, JsonView)>> {
    match payload {
        None => Some(Seq::empty()),
        Some(Json::Null) => Some(Seq::empty()),
        Some(Json::Object(o)) => Some(o@),
        Some(_) => None,
    }
}

/// What `tasks/complete` makes of the bulletin, and its answer.
pub open spec fn complete_served(s: StoreView, p: CompleteParams, fresh: TaskId, now: Timestamp) -> (
    StoreView,
    ReplyView,
) {
    let result = or_null(p.result);
    if p.post_ack && ack_members(p.ack_payload) is None {
        (s, refused(bad_params_error(ACK_NOT_OBJECT@)))
    } else {
        match model::task_row(s.tasks, p.id) {
            Some(r) if r.state == "claimed"@ => if !p.post_ack {
                let (after, done) = model::complete(s, p.id, result, now);
                match done {
                    Ok(_) => (after, changed(JsonView::Object(ok_members()))),
                    Err(e) => (after, unreadable(e)),
                }
            } else {
                let ack = ack_of(r, p, fresh, now);
                match rows::task_of_row(model::completed(r, result, now)) {
                    Err(e) => (s, unreadable(e)),
                    Ok(_) => if model::task_row(s.tasks, fresh) is Some {
                        (s, failed(StoreError::DuplicateTask))
                    } else {
                        (
                            model::complete_with_ack(s, p.id, result, ack, now),
                            changed(
                                JsonView::Object(
                                    json::with_member(ok_members(), "ack"@, types::task_json(ack)),
                                ),
                            ),
                        )
                    },
                }
            },
            _ => (s, refused(conflict_error(NOT_CLAIMED@))),
        }
    }
}

/// The acknowledgement that goes with a completion.
pub open spec fn ack_of(r: TaskRowView, p: CompleteParams, fresh: TaskId, now: Timestamp) -> TaskView {
    model::fresh_task(
        fresh,
        text_or(p.ack_name, "ack: "@ + r.name),
        "ack"@,
        text_or(p.ack_priority, DEFAULT_PRIORITY@),
        model::ack_payload(ack_members(p.ack_payload)->0, p.id),
        now,
    )
}

/// What a request makes of the bulletin, and its answer.
pub open spec fn served(s: StoreView, request: Request, fresh: TaskId, now: Timestamp) -> (
    StoreView,
    ReplyView,
) {
    match request {
        Request::Send(p) => send_served(s, p, fresh, now),
        Request::Get(p) => (s, get_served(s, p.id)),
        Request::Cancel(p) => {
            let (after, done) = model::cancel(s, p.id, now);
            match done {
                Ok(_) => (after, changed(JsonView::Object(ok_members()))),
                Err(e) => (after, unreadable(e)),
            }
        },
        Request::Claim(p) => claim_served(s, p, now),
        Request::Extend(p) => extend_served(s, p, now),
        Request::Reclaim => (model::reclaim(s, now).0, reclaim_served(s, now)),
        Request::Complete(p) => complete_served(s, p, fresh, now),
        Request::Heartbeat(p) => (
            model::heartbeat(s, p.id@, p.name@, now),
            quiet(JsonView::Object(ok_members())),
        ),
        Request::Agents => match model::agents_listed(s) {
            Ok(agents) => (s, quiet(types::agents_json(agents))),
            Err(e) => (s, unreadable(e)),
        },
    }
}

fn ok_object() -> (o: JsonObject)
    ensures
        o@ == ok_members(),
{
    let mut o = JsonObject::new();
    o.insert("ok".to_owned(), Json::Bool(true));
    o
}

fn changed_reply(j: Json) -> (r: Reply)
    ensures
        r@ == changed(j@),
{
    Reply { outcome: Ok(j), notify: true }
}

fn quiet_reply(j: Json) -> (r: Reply)
    ensures
        r@ == quiet(j@),
{
    Reply { outcome: Ok(j), notify: false }
}

fn refusal(e: MethodError) -> (r: Reply)
    ensures
        r@ == refused(e@),
{
    Reply { outcome: Err(e), notify: false }
}

fn failure(e: StoreError) -> (r: Reply)
    ensures
        r@ == failed(e),
{
    refusal(MethodError::internal(e.message()))
}

fn unwrap_or_null(j: Option<Json>) -> (r: Json)
    ensures
        r@ == or_null(j),
{
    match j {
        Some(v) => v,
        None => Json::Null,
    }
}

fn unwrap_or_text(s: Option<String>, other: &str) -> (r: String)
    ensures
        r@ == text_or(s, other@),
{
    match s {
        Some(t) => t,
        None => other.to_owned(),
    }
}

fn serve_send(store: &mut Store, p: TaskSendParams, fresh: TaskId, now: Timestamp) -> (r: Reply)
    requires
        old(store).wf(),
    ensures
        final(store).wf(),
        (final(store)@, r@) == send_served(old(store)@, p, fresh, now),
{
    let kind = unwrap_or_text(p.kind, DEFAULT_KIND);
    let priority = unwrap_or_text(p.priority, DEFAULT_PRIORITY);
    let payload = unwrap_or_null(p.payload);
    match store.create_task_full_at(
        fresh,
        p.name.as_str(),
        kind.as_str(),
        priority.as_str(),
        payload,
        now,
    ) {
        Ok(t) => changed_reply(t.to_json()),
        Err(e) => failure(e),
    }
}

fn serve_claim(store: &mut Store, p: ClaimParams, now: Timestamp) -> (r: Reply)
    requires
        old(store).wf(),
    ensures
        final(store).wf(),
        (final(store)@, r@) == claim_served(old(store)@, p, now),
{
    match store.claim_task_at(p.id, p.agent_id.as_str(), p.lease_seconds, now) {
        Ok(Some(t)) => changed_reply(t.to_json()),
        Ok(None) => refusal(MethodError::conflict(NOT_CLAIMABLE)),
        Err(e) => failure(e),
    }
}

fn serve_extend(store: &mut Store, p: ExtendParams, now: Timestamp) -> (r: Reply)
    requires
        old(store).wf(),
    ensures
        final(store).wf(),
        (final(store)@, r@) == extend_served(old(store)@, p, now),
{
    match store.extend_lease_at(p.id, p.agent_id.as_str(), p.lease_seconds, now) {
        Ok(Some(until)) => {
            let mut o = ok_object();
            o.insert("lease_until".to_owned(), Json::Text(time::stamp_text(&until)));
            quiet_reply(Json::Object(o))
        },
        Ok(None) => refusal(MethodError::conflict(NOT_EXTENDABLE)),
        Err(e) => failure(e),
    }
}

fn serve_complete(store: &mut Store, p: CompleteParams, fresh: TaskId, now: Timestamp) -> (r: Reply)
    requires
        old(store).wf(),
    ensures
        final(store).wf(),
        (final(store)@, r@) == complete_served(old(store)@, p, fresh, now),
{
    if !p.post_ack {
        return match store.complete_task_at(p.id, unwrap_or_null(p.result), now) {
            Ok(true) => changed_reply(Json::Object(ok_object())),
            Ok(false) => refusal(MethodError::conflict(NOT_CLAIMED)),
            Err(e) => failure(e),
        };
    }
    let payload = match p.ack_payload {
        None => JsonObject::new(),
        Some(Json::Null) => JsonObject::new(),
        Some(Json::Object(o)) => o,
        Some(_) => return refusal(MethodError::bad_params(ACK_NOT_OBJECT)),
    };
    let ack = Ack { name: p.ack_name, priority: p.ack_priority, payload };
    match store.complete_task_with_ack_at(p.id, unwrap_or_null(p.result), ack, fresh, now) {
        Ok(Some(a)) => {
            let mut o = ok_object();
            o.insert("ack".to_owned(), a.to_json());
            changed_reply(Json::Object(o))
        },
        Ok(None) => refusal(MethodError::conflict(NOT_CLAIMED)),
        Err(e) => failure(e),
    }
}

/// Serves a request at the given time, with an identifier to give to a task
/// that it may post.
pub fn dispatch_at(store: &mut Store, request: Request, fresh: TaskId, now: Timestamp) -> (r: Reply)
    requires
        old(store).wf(),
    ensures
        final(store).wf(),
        (final(store)@, r@) == served(old(store)@, request, fresh, now),
{
    match request {
        Request::Send(p) => serve_send(store, p, fresh, now),
        Request::Get(p) => match store.get_task(p.id) {
            Ok(Some(t)) => quiet_reply(t.to_json()),
            Ok(None) => quiet_reply(Json::Null),
            Err(e) => failure(e),
        },
        Request::Cancel(p) => match store.cancel_task_at(p.id, now) {
            Ok(_) => changed_reply(Json::Object(ok_object())),
            Err(e) => failure(e),
        },
        Request::Claim(p) => serve_claim(store, p, now),
        Request::Extend(p) => serve_extend(store, p, now),
        Request::Reclaim => match store.reclaim_expired_leases_at(now) {
            Ok(tasks) => {
                let notify = tasks.len() > 0;
                Reply { outcome: Ok(types::tasks_to_json(&tasks)), notify }
            },
            Err(e) => failure(e),
        },
        Request::Complete(p) => serve_complete(store, p, fresh, now),
        Request::Heartbeat(p) => match store.heartbeat_at(p.id.as_str(), p.name.as_str(), now) {
            Ok(_) => quiet_reply(Json::Object(ok_object())),
            Err(e) => failure(e),
        },
        Request::Agents => match store.list_agents() {
            Ok(agents) => quiet_reply(types::agents_to_json(&agents)),
            Err(e) => failure(e),
        },
    }
}

/// What a request comes to.
pub open spec fn dispatch_outcome(
    s: StoreView,
    request: Request,
    fresh: TaskId,
    now: Timestamp,
    r: ReplyView,
    after: StoreView,
) -> bool {
    (after, r) == served(s, request, fresh, now)
}

/// Serves a request.
pub fn dispatch(store: &mut Store, request: Request) -> (r: Reply)
    requires
        old(store).wf(),
    ensures
        final(store).wf(),
        exists|fresh: TaskId, now: Timestamp|
            types::is_random(fresh) && time::on_clock(now) && #[trigger] dispatch_outcome(
                old(store)@,
                request,
                fresh,
                now,
                r@,
                final(store)@,
            ),
{
    let fresh = types::fresh_id();
    let now = time::now();
    let r = dispatch_at(store, request, fresh, now);
    assert(dispatch_outcome(old(store)@, request, fresh, now, r@, store@));
    r
}

/// A request that is refused changes nothing and wakes nobody. One that fails
/// wakes nobody either; it may have changed a row that it then could not read.
pub proof fn lemma_refusals_change_nothing(
    s: StoreView,
    request: Request,
    fresh: TaskId,
    now: Timestamp,
)
    ensures
        served(s, request, fresh, now).1.outcome matches Err(e) ==> {
            &&& !served(s, request, fresh, now).1.notify
            &&& e.code != -32000 ==> served(s, request, fresh, now).0 == s
        },
{
}

/// A report wakes nobody.
pub proof fn lemma_reports_wake_nobody(
    s: StoreView,
    p: HeartbeatParams,
    fresh: TaskId,
    now: Timestamp,
)
    ensures
        !served(s, Request::Heartbeat(p), fresh, now).1.notify,
{
}

/// Whenever a request that does not fail makes a task or changes its state,
/// those who wait are woken.
pub proof fn lemma_changes_wake_waiters(
    s: StoreView,
    request: Request,
    fresh: TaskId,
    now: Timestamp,
    id: TaskId,
)
    requires
        served(s, request, fresh, now).1.outcome is Ok,
    ensures
        ({
            let (after, reply) = served(s, request, fresh, now);
            match (model::task_row(s.tasks, id), model::task_row(after.tasks, id)) {
                (None, Some(_)) => reply.notify,
                (Some(r), Some(u)) => r.state != u.state ==> reply.notify,
                (Some(_), None) => false,
                (None, None) => true,
            }
        }),
{
    match op_of(s, request, fresh, now) {
        Some(op) => {
            lemma_served_step(s, request, fresh, now);
            laws::lemma_step_row(s, op, id);
            match op {
                laws::Op::Sweep { .. } => {
                    store::lemma_row_at(s.tasks, types::uuid_text(id));
                    match model::task_row(s.tasks, id) {
                        Some(r) => if model::expired(r, now) {
                            laws::lemma_expired_are_swept(s.tasks, now, r);
                            laws::lemma_sweep_returns(s, now);
                        },
                        None => {},
                    }
                },
                _ => {},
            }
        },
        None => {},
    }
}

/// A request that does not fail is the operation that it comes to, and
/// announces it unless it is an extension, a report or a sweep of nothing.
proof fn lemma_served_step(s: StoreView, request: Request, fresh: TaskId, now: Timestamp)
    requires
        served(s, request, fresh, now).1.outcome is Ok,
        op_of(s, request, fresh, now) is Some,
    ensures
        served(s, request, fresh, now).0 == laws::step(s, op_of(s, request, fresh, now)->0),
        served(s, request, fresh, now).1.notify || op_of(s, request, fresh, now)->0 is Extend
            || op_of(s, request, fresh, now)->0 is Report || op_of(s, request, fresh, now)->0
            is Sweep,
        op_of(s, request, fresh, now)->0 is Sweep ==> served(s, request, fresh, now).1.notify
            == sweep_returns(s, now),
{
}

/// The operation on the bulletin that a request comes to, if any.
spec fn op_of(s: StoreView, request: Request, fresh: TaskId, now: Timestamp) -> Option<laws::Op> {
    match request {
        Request::Send(p) => Some(
            laws::Op::Post {
                id: fresh,
                name: p.name@,
                kind: text_or(p.kind, DEFAULT_KIND@),
                priority: text_or(p.priority, DEFAULT_PRIORITY@),
                payload: or_null(p.payload),
                now,
            },
        ),
        Request::Cancel(p) => Some(laws::Op::Cancel { id: p.id, now }),
        Request::Claim(p) => match model::lease_end(s.default_lease, now, p.lease_seconds) {
            Some(until) => Some(laws::Op::Claim { id: p.id, agent: p.agent_id@, now, until }),
            None => None,
        },
        Request::Extend(p) => match model::lease_end(s.default_lease, now, p.lease_seconds) {
            Some(until) => Some(laws::Op::Extend { id: p.id, agent: p.agent_id@, now, until }),
            None => None,
        },
        Request::Reclaim => Some(laws::Op::Sweep { now }),
        Request::Complete(p) => {
            let result = or_null(p.result);
            match model::task_row(s.tasks, p.id) {
                Some(r) => if !p.post_ack {
                    Some(laws::Op::Complete { id: p.id, result, now })
                } else if ack_members(p.ack_payload) is None {
                    None
                } else {
                    Some(
                        laws::Op::Acknowledge {
                            id: p.id,
                            result,
                            ack: ack_of(r, p, fresh, now),
                            now,
                        },
                    )
                },
                None => None,
            }
        },
        Request::Heartbeat(p) => Some(
            laws::Op::Report { agent: p.id@, name: p.name@, now },
        ),
        Request::Get(_) => None,
        Request::Agents => None,
    }
}

// ---------------------------------------------------------------------
// Listing and waiting
// ---------------------------------------------------------------------

/// How many tasks are listed where the caller names no limit.
pub const DEFAULT_LIMIT: u64 = 50;

/// The longest that a listing waits, in milliseconds.
pub const MAX_WAIT_MS: u64 = 60_000;

/// The parameters of `tasks/list`.
#[derive(Debug)]
pub struct ListParams {
    pub limit: u64,
    pub filter: TaskFilter,
    /// How long to wait for a task to come up, in milliseconds.
    pub wait_ms: u64,
}

fn owned(s: Option<&str>) -> (r: Option<String>)
    ensures
        match s {
            Some(t) => text::opt_text(r) == Some(t@),
            None => r is None,
        },
{
    match s {
        Some(t) => Some(t.to_owned()),
        None => None,
    }
}

/// What a listing asks for: how many tasks at the most, which ones, and how
/// long it waits.
pub open spec fn asked(params: JsonView) -> (u64, FilterView, u64) {
    (
        match json::member_uint(params, "limit"@) {
            Some(n) => n,
            None => DEFAULT_LIMIT,
        },
        FilterView {
            state: json::member_text(params, "state"@),
            kind: json::member_text(params, "kind"@),
            priority: json::member_text(params, "priority"@),
        },
        match json::member_uint(params, "wait_ms"@) {
            Some(n) => n,
            None => 0,
        },
    )
}

impl ListParams {
    /// Reads the parameters of a listing; what is missing or of another type
    /// has its default.
    pub fn read(params: &Json) -> (q: ListParams)
        ensures
            q.limit == match json::member_uint(params@, "limit"@) {
                Some(n) => n,
                None => DEFAULT_LIMIT,
            },
            q.filter@ == (FilterView {
                state: json::member_text(params@, "state"@),
                kind: json::member_text(params@, "kind"@),
                priority: json::member_text(params@, "priority"@),
            }),
            q.wait_ms == match json::member_uint(params@, "wait_ms"@) {
                Some(n) => n,
                None => 0,
            },
            (q.limit, q.filter@, q.wait_ms) == asked(params@),
    {
        let limit: u64 = match params.get_u64("limit") {
            Some(n) => n,
            None => DEFAULT_LIMIT,
        };
        let wait_ms: u64 = match params.get_u64("wait_ms") {
            Some(n) => n,
            None => 0,
        };
        let filter = TaskFilter {
            state: owned(params.get_str("state")),
            kind: owned(params.get_str("kind")),
            priority: owned(params.get_str("priority")),
        };
        ListParams { limit, filter, wait_ms }
    }
}

/// What is to be done about a listing.
#[derive(Debug)]
pub enum ListStep {
    /// It is answered.
    Answer(Json),
    /// It waits for a change, at most so many milliseconds.
    Wait(u64),
    /// It fails: a row that it would show cannot be read.
    Fail(MethodError),
}

/// What is to be done about a listing, and whether a change of state is
/// announced.
#[derive(Debug)]
pub struct ListReply {
    pub step: ListStep,
    pub notify: bool,
}

/// The rows that a listing finds, once expired claims are taken back.
pub open spec fn found(s: StoreView, q: ListParams, now: Timestamp) -> Seq<TaskRowView> {
    model::listed(model::reclaim(s, now).0.tasks, q.limit as nat, q.filter@)
}

/// Whether a sweep returns a task to the bulletin.
pub open spec fn sweep_returns(s: StoreView, now: Timestamp) -> bool {
    model::reclaim(s, now).1 matches Ok(tasks) && tasks.len() > 0
}

/// What is to be done about a listing that finds rows, where `hold` says
/// whether it is to wait where it finds none.
pub open spec fn list_step(
    table: Seq<TaskRowView>,
    q: ListParams,
    hold: bool,
    step: ListStep,
) -> bool {
    match model::read_all(table) {
        Err(e) => step matches ListStep::Fail(f) && f@ == internal_error(
            store::error_text(StoreError::Row(e)),
        ),
        Ok(tasks) => if hold && tasks.len() == 0 {
            step matches ListStep::Wait(ms) && ms == wait_length(q)
        } else {
            step matches ListStep::Answer(j) && j@ == types::tasks_json(tasks)
        },
    }
}

/// The time for which a listing waits.
pub open spec fn wait_length(q: ListParams) -> u64 {
    if q.wait_ms < MAX_WAIT_MS {
        q.wait_ms
    } else {
        MAX_WAIT_MS
    }
}

/// What a listing comes to: it is answered at once where it finds something
/// or does not wait.
pub open spec fn list_outcome(
    s: StoreView,
    q: ListParams,
    now: Timestamp,
    r: ListReply,
    after: StoreView,
) -> bool {
    &&& after == model::reclaim(s, now).0
    &&& r.notify == sweep_returns(s, now)
    &&& list_step(found(s, q, now), q, q.wait_ms != 0, r.step)
}

fn longest_wait(q: &ListParams) -> (ms: u64)
    ensures
        ms == wait_length(*q),
{
    if q.wait_ms < MAX_WAIT_MS {
        q.wait_ms
    } else {
        MAX_WAIT_MS
    }
}

/// Takes expired claims back and lists; a listing that finds nothing is to
/// wait where `hold` is set.
fn sweep_and_find(store: &mut Store, q: &ListParams, hold: bool, now: Timestamp) -> (r: ListReply)
    requires
        old(store).wf(),
    ensures
        final(store).wf(),
        final(store)@ == model::reclaim(old(store)@, now).0,
        r.notify == sweep_returns(old(store)@, now),
        list_step(found(old(store)@, *q, now), *q, hold, r.step),
{
    let notify = match store.reclaim_expired_leases_at(now) {
        Ok(tasks) => tasks.len() > 0,
        Err(_) => false,
    };
    let total: usize = store.task_count();
    let limit: usize = if q.limit >= total as u64 {
        total
    } else {
        q.limit as usize
    };
    proof {
        order::lemma_newest_order(model::created_ats(model::admitted(store@.tasks, q.filter@)));
        lemma_no_more_than_there_are(store@.tasks, q.filter@);
        assert(model::listed(store@.tasks, limit as nat, q.filter@) =~= found(
            old(store)@,
            *q,
            now,
        ));
    }
    let step = match store.list_tasks_filtered(limit, &q.filter) {
        Ok(tasks) => if hold && tasks.len() == 0 {
            ListStep::Wait(longest_wait(q))
        } else {
            ListStep::Answer(types::tasks_to_json(&tasks))
        },
        Err(e) => ListStep::Fail(MethodError::internal(e.message())),
    };
    ListReply { step, notify }
}

/// Begins a listing at the given time: expired claims are taken back first.
pub fn tasks_list_at(store: &mut Store, q: &ListParams, now: Timestamp) -> (r: ListReply)
    requires
        old(store).wf(),
    ensures
        final(store).wf(),
        list_outcome(old(store)@, *q, now, r, final(store)@),
{
    sweep_and_find(store, q, q.wait_ms != 0, now)
}

/// Begins a listing.
pub fn tasks_list(store: &mut Store, q: &ListParams) -> (r: ListReply)
    requires
        old(store).wf(),
    ensures
        final(store).wf(),
        exists|now: Timestamp|
            time::on_clock(now) && #[trigger] list_outcome(
                old(store)@,
                *q,
                now,
                r,
                final(store)@,
            ),
{
    let now = time::now();
    tasks_list_at(store, q, now)
}

/// What happens to a listing that waits.
#[derive(Debug, Clone, Copy, PartialEq, Eq, Structural)]
pub enum WaitEvent {
    /// Something has changed.
    Changed,
    /// The time for which it waits is over.
    TimeUp,
    /// There will be no more changes.
    Closed,
}

/// What an event makes of a listing that waits. After a change it is answered
/// where it now finds something, and goes on waiting otherwise. When its time
/// is up it is answered with what there is. When changes have ended it is
/// answered that there is nothing.
pub open spec fn relist_outcome(
    s: StoreView,
    q: ListParams,
    event: WaitEvent,
    now: Timestamp,
    r: ListReply,
    after: StoreView,
) -> bool {
    match event {
        WaitEvent::Closed => {
            &&& after == s
            &&& !r.notify
            &&& r.step matches ListStep::Answer(j) && j@ == types::tasks_json(Seq::empty())
        },
        _ => {
            &&& after == model::reclaim(s, now).0
            &&& r.notify == sweep_returns(s, now)
            &&& list_step(found(s, q, now), q, event == WaitEvent::Changed, r.step)
        },
    }
}

/// Goes on with a listing that waits, after an event at the given time.
pub fn tasks_relist_at(store: &mut Store, q: &ListParams, event: WaitEvent, now: Timestamp) -> (r:
    ListReply)
    requires
        old(store).wf(),
    ensures
        final(store).wf(),
        relist_outcome(old(store)@, *q, event, now, r, final(store)@),
{
    if event == WaitEvent::Closed {
        let nothing = Json::Array(Vec::new());
        assert(nothing@->Array_0 =~= types::tasks_json(Seq::empty())->Array_0);
        return ListReply { step: ListStep::Answer(nothing), notify: false };
    }
    sweep_and_find(store, q, event == WaitEvent::Changed, now)
}

/// Goes on with a listing that waits, after an event.
pub fn tasks_relist(store: &mut Store, q: &ListParams, event: WaitEvent) -> (r: ListReply)
    requires
        old(store).wf(),
    ensures
        final(store).wf(),
        exists|now: Timestamp|
            time::on_clock(now) && #[trigger] relist_outcome(
                old(store)@,
                *q,
                event,
                now,
                r,
                final(store)@,
            ),
{
    let now = time::now();
    tasks_relist_at(store, q, event, now)
}

proof fn lemma_no_more_than_there_are(tasks: Seq<TaskRowView>, f: FilterView)
    ensures
        model::admitted(tasks, f).len() <= tasks.len(),
    decreases tasks.len(),
{
    if tasks.len() > 0 {
        lemma_no_more_than_there_are(tasks.drop_last(), f);
    }
}

/// A matching task ends the wait: once a task that passes the filter is
/// posted, the listing that was waiting for it finds something, and the
/// posting wakes it.
pub proof fn lemma_match_ends_the_wait(
    s: StoreView,
    q: ListParams,
    p: TaskSendParams,
    fresh: TaskId,
    posted_at: Timestamp,
    now: Timestamp,
)
    requires
        q.limit > 0,
        served(s, Request::Send(p), fresh, posted_at).1.outcome is Ok,
        model::admits(
            q.filter@,
            rows::row_of_task(
                model::fresh_task(
                    fresh,
                    p.name@,
                    text_or(p.kind, DEFAULT_KIND@),
                    text_or(p.priority, DEFAULT_PRIORITY@),
                    or_null(p.payload),
                    posted_at,
                ),
            ),
        ),
    ensures
        served(s, Request::Send(p), fresh, posted_at).1.notify,
        found(served(s, Request::Send(p), fresh, posted_at).0, q, now).len() > 0,
{
    let after = served(s, Request::Send(p), fresh, posted_at).0;
    let op = op_of(s, Request::Send(p), fresh, posted_at)->0;
    laws::lemma_step_row(s, op, fresh);
    laws::lemma_step_row(after, laws::Op::Sweep { now }, fresh);
    laws::lemma_fresh_is_not_swept(
        model::fresh_task(
            fresh,
            p.name@,
            text_or(p.kind, DEFAULT_KIND@),
            text_or(p.priority, DEFAULT_PRIORITY@),
            or_null(p.payload),
            posted_at,
        ),
        now,
    );
    let tasks = model::reclaim(after, now).0.tasks;
    let r = model::task_row(tasks, fresh)->0;
    store::lemma_row_at(tasks, types::uuid_text(fresh));
    laws::lemma_listing(tasks, q.limit as nat, q.filter@, r);
}

/// A claim that lapses ends the wait too: where the lease of a task has ended
/// that passes the filter once it is pending again, the listing finds
/// something at the next event.
pub proof fn lemma_lapsed_claim_ends_the_wait(
    s: StoreView,
    q: ListParams,
    r: TaskRowView,
    now: Timestamp,
)
    requires
        q.limit > 0,
        s.tasks.contains(r),
        laws::sweeps(s, now),
        model::expired(r, now),
        model::admits(q.filter@, model::released(r, now)),
    ensures
        found(s, q, now).len() > 0,
{
    laws::lemma_sweep_tables(s, now);
    let k = choose|k: int| 0 <= k < s.tasks.len() && s.tasks[k] == r;
    let tasks = model::reclaim(s, now).0.tasks;
    assert(tasks[k] == model::released(r, now));
    laws::lemma_listing(tasks, q.limit as nat, q.filter@, model::released(r, now));
}

/// The time that is left of a wait.
pub open spec fn left(wait_ms: u64, elapsed_ms: u64) -> int {
    if elapsed_ms < wait_ms {
        wait_ms - elapsed_ms
    } else {
        0
    }
}

/// The time that is left of a wait.
pub fn time_left(wait_ms: u64, elapsed_ms: u64) -> (r: u64)
    ensures
        r == left(wait_ms, elapsed_ms),
        r == if elapsed_ms < wait_ms {
            wait_ms - elapsed_ms
        } else {
            0
        },
{
    if elapsed_ms < wait_ms {
        wait_ms - elapsed_ms
    } else {
        0
    }
}

// ---------------------------------------------------------------------
// Envelopes
// ---------------------------------------------------------------------

/// The response to a request with the given identifier.
pub open spec fn response(id: JsonView, outcome: Result<JsonView, MethodErrorView>) -> JsonView {
    let m = json::with_member(Seq::empty(), "jsonrpc"@, JsonView::Text("2.0"@));
    let m = json::with_member(m, "id"@, id);
    JsonView::Object(
        match outcome {
            Ok(v) => json::with_member(m, "result"@, v),
            Err(e) => json::with_member(
                m,
                "error"@,
                JsonView::Object(
                    json::with_member(
                        json::with_member(Seq::empty(), "code"@, JsonView::Int(e.code)),
                        "message"@,
                        JsonView::Text(e.message),
                    ),
                ),
            ),
        },
    )
}

/// The response to a request with the given identifier.
pub fn rpc_response(id: Option<Json>, outcome: Result<Json, MethodError>) -> (j: Json)
    ensures
        j@ == response(
            or_null(id),
            match outcome {
                Ok(v) => Ok(v@),
                Err(e) => Err(e@),
            },
        ),
{
    let mut o = JsonObject::new();
    o.insert("jsonrpc".to_owned(), Json::Text("2.0".to_owned()));
    o.insert("id".to_owned(), unwrap_or_null(id));
    match outcome {
        Ok(v) => {
            o.insert("result".to_owned(), v);
        },
        Err(e) => {
            let mut error = JsonObject::new();
            error.insert("code".to_owned(), Json::Int(e.code as i64));
            error.insert("message".to_owned(), Json::Text(e.message));
            o.insert("error".to_owned(), Json::Object(error));
        },
    }
    Json::Object(o)
}

/// What the agent card says of the daemon.
pub const DESCRIPTION: &'static str = "Local coordinator for parallel AI coding agents. JSON-RPC 2.0 with an A2A-compatible tasks/send · tasks/get · tasks/cancel subset, plus local-loop extensions: atomic claim with leases, blocking long-poll on tasks/list, agent presence.";

/// What the agent card says of A2A.
pub const A2A_NOTES: &'static str = "Implements tasks/send, tasks/get, tasks/cancel from A2A v1.0. Streamable HTTP, signed Agent Cards, and push notifications are not implemented.";

/// An object with two texts.
pub open spec fn two_texts(
    k1: Seq<char>,
    v1: Seq<char>,
    k2: Seq<char>,
    v2: Seq<char>,
) -> JsonView {
    JsonView::Object(
        json::with_member(
            json::with_member(Seq::empty(), k1, JsonView::Text(v1)),
            k2,
            JsonView::Text(v2),
        ),
    )
}

/// A skill on the agent card.
pub open spec fn skill(id: Seq<char>, name: Seq<char>) -> JsonView {
    two_texts("id"@, id, "name"@, name)
}

/// The skills on the agent card.
pub open spec fn skills() -> Seq<JsonView> {
    seq![
        skill("tasks/send"@, "Create a task"@),
        skill("tasks/get"@, "Get task state"@),
        skill("tasks/cancel"@, "Cancel a task"@),
        skill("tasks/list"@, "List / long-poll tasks (extension)"@),
        skill("tasks/claim"@, "Atomic leased claim (extension)"@),
        skill("tasks/extend"@, "Extend a claim's lease (extension)"@),
        skill("tasks/reclaim"@, "Sweep expired leases (extension)"@),
        skill("tasks/complete"@, "Complete a claimed task (extension)"@),
    ]
}

/// What the agent card says the daemon can do.
pub open spec fn capabilities() -> JsonView {
    let m = json::with_member(Seq::empty(), "streaming"@, JsonView::Bool(false));
    let m = json::with_member(m, "pushNotifications"@, JsonView::Bool(false));
    let m = json::with_member(m, "longPoll"@, JsonView::Bool(true));
    JsonView::Object(json::with_member(m, "leasedClaims"@, JsonView::Bool(true)))
}

/// The agent card.
pub open spec fn card() -> JsonView {
    let m = json::with_member(Seq::empty(), "name"@, JsonView::Text("coord"@));
    let m = json::with_member(m, "version"@, JsonView::Text(VERSION@));
    let m = json::with_member(m, "description"@, JsonView::Text(DESCRIPTION@));
    let m = json::with_member(m, "url"@, JsonView::Text("/"@));
    let m = json::with_member(m, "capabilities"@, capabilities());
    let m = json::with_member(
        m,
        "compatibility"@,
        JsonView::Object(
            json::with_member(
                Seq::empty(),
                "a2a"@,
                two_texts("version"@, "subset"@, "notes"@, A2A_NOTES@),
            ),
        ),
    );
    JsonView::Object(json::with_member(m, "skills"@, JsonView::Array(skills())))
}

fn text_pair(k1: &str, v1: &str, k2: &str, v2: &str) -> (j: Json)
    ensures
        j@ == two_texts(k1@, v1@, k2@, v2@),
{
    let mut o = JsonObject::new();
    o.insert(k1.to_owned(), Json::Text(v1.to_owned()));
    o.insert(k2.to_owned(), Json::Text(v2.to_owned()));
    Json::Object(o)
}

fn push_skill(out: &mut Vec<Json>, id: &str, name: &str)
    ensures
        json::views(final(out)@) == json::views(old(out)@).push(skill(id@, name@)),
{
    let ghost before = out@;
    out.push(text_pair("id", id, "name", name));
    assert(json::views(out@) =~= json::views(before).push(skill(id@, name@)));
}

/// The agent card.
pub fn agent_card() -> (j: Json)
    ensures
        j@ == card(),
{
    let mut able = JsonObject::new();
    able.insert("streaming".to_owned(), Json::Bool(false));
    able.insert("pushNotifications".to_owned(), Json::Bool(false));
    able.insert("longPoll".to_owned(), Json::Bool(true));
    able.insert("leasedClaims".to_owned(), Json::Bool(true));
    let mut compatible = JsonObject::new();
    compatible.insert("a2a".to_owned(), text_pair("version", "subset", "notes", A2A_NOTES));
    let mut list: Vec<Json> = Vec::new();
    assert(json::views(list@) =~= Seq::<JsonView>::empty());
    push_skill(&mut list, "tasks/send", "Create a task");
    push_skill(&mut list, "tasks/get", "Get task state");
    push_skill(&mut list, "tasks/cancel", "Cancel a task");
    push_skill(&mut list, "tasks/list", "List / long-poll tasks (extension)");
    push_skill(&mut list, "tasks/claim", "Atomic leased claim (extension)");
    push_skill(&mut list, "tasks/extend", "Extend a claim's lease (extension)");
    push_skill(&mut list, "tasks/reclaim", "Sweep expired leases (extension)");
    push_skill(&mut list, "tasks/complete", "Complete a claimed task (extension)");
    assert(json::views(list@) =~= skills());
    let array = Json::Array(list);
    assert(array@->Array_0 =~= skills());
    let mut o = JsonObject::new();
    o.insert("name".to_owned(), Json::Text("coord".to_owned()));
    o.insert("version".to_owned(), Json::Text(VERSION.to_owned()));
    o.insert("description".to_owned(), Json::Text(DESCRIPTION.to_owned()));
    o.insert("url".to_owned(), Json::Text("/".to_owned()));
    o.insert("capabilities".to_owned(), Json::Object(able));
    o.insert("compatibility".to_owned(), Json::Object(compatible));
    o.insert("skills".to_owned(), array);
    Json::Object(o)
}

} // verus!
