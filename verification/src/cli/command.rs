//! The subcommands: which call to the daemon each one makes, and how the
//! answer is shown.

use vstd::prelude::*;

use crate::a2a;
use crate::cli::init::InitArgs;
use crate::cli::wait::WaitArgs;
use crate::json;
use crate::json::{Json, JsonObject, JsonView};
use crate::text;
use crate::types;
use crate::types::TaskId;

verus! {

/// Where and how the daemon runs.
#[derive(Debug)]
pub struct ServeArgs {
    pub addr: String,
    pub db: Option<String>,
    pub vault: Option<String>,
    /// The length of leases that nobody asks for, in seconds.
    pub default_lease: Option<u64>,
}

/// Where the bridge for MCP clients finds the daemon.
#[derive(Debug)]
pub struct McpArgs {
    pub url: String,
}

/// A subcommand.
#[derive(Debug)]
pub enum Cmd {
    Serve(ServeArgs),
    Mcp(McpArgs),
    Version,
    Init(InitArgs),
    Status,
    Top { once: bool },
    Tasks { limit: u64 },
    Agents,
    Send { name: String, payload: Option<String>, kind: String, priority: String },
    Claim { id: TaskId, agent_id: String, lease: Option<u64> },
    Extend { id: TaskId, agent_id: String, lease: Option<u64> },
    Reclaim,
    Complete { id: TaskId, result: Option<String> },
    Cancel { id: TaskId },
    Heartbeat { agent_id_pos: Option<String>, agent_id_flag: Option<String>, name: String },
    Wait(WaitArgs),
}

/// How an answer is shown.
#[derive(Debug, Clone, Copy, PartialEq, Eq, Structural)]
pub enum Show {
    /// As the task table.
    Tasks,
    /// As the agent table.
    Agents,
    /// As indented JSON.
    Document,
}

/// A call to the daemon.
#[derive(Debug)]
pub struct Call {
    pub method: &'static str,
    pub params: Json,
    pub show: Show,
}

/// What a call holds.
#[verifier::ext_equal]
pub struct CallView {
    pub method: Seq<char>,
    pub params: JsonView,
    pub show: Show,
}

impl View for Call {
    type V = CallView;

    open spec fn view(&self) -> CallView {
        CallView { method: self.method@, params: self.params@, show: self.show }
    }
}

/// Why a subcommand cannot be carried out.
#[derive(Debug, PartialEq, Eq)]
pub enum CmdError {
    /// The payload or the result is not JSON, for the given reason.
    NotJson(String),
    /// No agent was named.
    NoAgent,
}

/// What an error holds.
pub enum CmdErrorView {
    NotJson(Seq<char>),
    NoAgent,
}

impl View for CmdError {
    type V = CmdErrorView;

    open spec fn view(&self) -> CmdErrorView {
        match self {
            CmdError::NotJson(reason) => CmdErrorView::NotJson(reason@),
            CmdError::NoAgent => CmdErrorView::NoAgent,
        }
    }
}

/// What an error says.
pub open spec fn error_text(e: CmdErrorView) -> Seq<char> {
    match e {
        CmdErrorView::NotJson(reason) => reason,
        CmdErrorView::NoAgent =>
            "agent ID required: pass it as a positional argument or with --as"@,
    }
}

impl CmdError {
    /// What the error says.
    pub fn message(&self) -> (r: &str)
        ensures
            r@ == error_text(self@),
    {
        match self {
            CmdError::NotJson(reason) => reason.as_str(),
            CmdError::NoAgent => "agent ID required: pass it as a positional argument or with --as",
        }
    }
}

/// The members of an object with one more text.
pub open spec fn with_text(
    m: Seq<(Seq<char>, JsonView)>,
    key: Seq<char>,
    s: Seq<char>,
) -> Seq<(Seq<char>, JsonView)> {
    json::with_member(m, key, JsonView::Text(s))
}

/// The members of an object that names a task.
pub open spec fn naming(id: TaskId) -> Seq<(Seq<char>, JsonView)> {
    with_text(Seq::empty(), "id"@, types::uuid_text(id))
}

/// The parameters of a claim or of an extension.
pub open spec fn lease_params(id: TaskId, agent: Seq<char>, lease: Option<u64>) -> JsonView {
    let m = with_text(naming(id), "agentId"@, agent);
    JsonView::Object(
        match lease {
            Some(n) => json::with_member(m, "leaseSeconds"@, JsonView::Int(n as int)),
            None => m,
        },
    )
}

/// The document that an argument spells, `null` where there is none, or else
/// what is wrong with it.
pub open spec fn document(s: Option<String>) -> Result<JsonView, Seq<char>> {
    match s {
        Some(t) => json::json_outcome(t@),
        None => Ok(JsonView::Null),
    }
}

/// An object with a single integer.
pub open spec fn with_limit(limit: u64) -> JsonView {
    JsonView::Object(json::with_member(Seq::empty(), "limit"@, JsonView::Int(limit as int)))
}

/// The parameters of a posting.
pub open spec fn send_params(
    name: Seq<char>,
    kind: Seq<char>,
    priority: Seq<char>,
    payload: JsonView,
) -> JsonView {
    let m = with_text(Seq::empty(), "name"@, name);
    let m = with_text(m, "kind"@, kind);
    let m = with_text(m, "priority"@, priority);
    JsonView::Object(json::with_member(m, "payload"@, payload))
}

/// The parameters of a report.
pub open spec fn report_params(id: Seq<char>, name: Seq<char>) -> JsonView {
    JsonView::Object(with_text(with_text(Seq::empty(), "id"@, id), "name"@, name))
}

/// The call that a subcommand makes: `Ok(None)` for one that is more than a
/// single call or no client at all.
pub open spec fn call_of(cmd: Cmd) -> Result<Option<CallView>, CmdErrorView> {
    match cmd {
        Cmd::Tasks { limit } => Ok(
            Some(
                CallView {
                    method: a2a::method_name(a2a::Method::TasksList),
                    params: with_limit(limit),
                    show: Show::Tasks,
                },
            ),
        ),
        Cmd::Agents => Ok(
            Some(
                CallView {
                    method: a2a::method_name(a2a::Method::AgentsList),
                    params: JsonView::Object(Seq::empty()),
                    show: Show::Agents,
                },
            ),
        ),
        Cmd::Send { name, payload, kind, priority } => match document(payload) {
            Ok(p) => Ok(
                Some(
                    CallView {
                        method: a2a::method_name(a2a::Method::TasksSend),
                        params: send_params(name@, kind@, priority@, p),
                        show: Show::Document,
                    },
                ),
            ),
            Err(reason) => Err(CmdErrorView::NotJson(reason)),
        },
        Cmd::Claim { id, agent_id, lease } => Ok(
            Some(
                CallView {
                    method: a2a::method_name(a2a::Method::TasksClaim),
                    params: lease_params(id, agent_id@, lease),
                    show: Show::Document,
                },
            ),
        ),
        Cmd::Extend { id, agent_id, lease } => Ok(
            Some(
                CallView {
                    method: a2a::method_name(a2a::Method::TasksExtend),
                    params: lease_params(id, agent_id@, lease),
                    show: Show::Document,
                },
            ),
        ),
        Cmd::Reclaim => Ok(
            Some(
                CallView {
                    method: a2a::method_name(a2a::Method::TasksReclaim),
                    params: JsonView::Object(Seq::empty()),
                    show: Show::Document,
                },
            ),
        ),
        Cmd::Complete { id, result } => match document(result) {
            Ok(r) => Ok(
                Some(
                    CallView {
                        method: a2a::method_name(a2a::Method::TasksComplete),
                        params: JsonView::Object(json::with_member(naming(id), "result"@, r)),
                        show: Show::Document,
                    },
                ),
            ),
            Err(reason) => Err(CmdErrorView::NotJson(reason)),
        },
        Cmd::Cancel { id } => Ok(
            Some(
                CallView {
                    method: a2a::method_name(a2a::Method::TasksCancel),
                    params: JsonView::Object(naming(id)),
                    show: Show::Document,
                },
            ),
        ),
        Cmd::Heartbeat { agent_id_pos, agent_id_flag, name } => match (
            agent_id_flag,
            agent_id_pos,
        ) {
            (Some(id), _) => Ok(
                Some(
                    CallView {
                        method: a2a::method_name(a2a::Method::AgentsHeartbeat),
                        params: report_params(id@, name@),
                        show: Show::Document,
                    },
                ),
            ),
            (None, Some(id)) => Ok(
                Some(
                    CallView {
                        method: a2a::method_name(a2a::Method::AgentsHeartbeat),
                        params: report_params(id@, name@),
                        show: Show::Document,
                    },
                ),
            ),
            (None, None) => Err(CmdErrorView::NoAgent),
        },
        _ => Ok(None),
    }
}

/// What a call that was worked out holds, or why there is none.
pub open spec fn call_read(r: Result<Option<Call>, CmdError>) -> Result<
    Option<CallView>,
    CmdErrorView,
> {
    match r {
        Ok(Some(c)) => Ok(Some(c@)),
        Ok(None) => Ok(None),
        Err(e) => Err(e@),
    }
}

fn put_text(o: &mut JsonObject, key: &str, value: &str)
    ensures
        final(o)@ == with_text(old(o)@, key@, value@),
{
    o.insert(key.to_owned(), Json::Text(value.to_owned()));
}

fn name_task(id: TaskId) -> (o: JsonObject)
    ensures
        o@ == naming(id),
{
    let mut o = JsonObject::new();
    put_text(&mut o, "id", types::id_text(id).as_str());
    o
}

fn lease_object(id: TaskId, agent_id: &str, lease: Option<u64>) -> (j: Json)
    ensures
        j@ == lease_params(id, agent_id@, lease),
{
    let mut o = name_task(id);
    put_text(&mut o, "agentId", agent_id);
    match lease {
        Some(n) => o.insert("leaseSeconds".to_owned(), Json::UInt(n)),
        None => {},
    }
    Json::Object(o)
}

fn read_document(s: &Option<String>) -> (r: Result<Json, String>)
    ensures
        json::read_view(r) == document(*s),
{
    match s {
        Some(t) => json::read(t.as_str()),
        None => Ok(Json::Null),
    }
}

/// The parameters of a listing of so many tasks.
pub fn limit_params(limit: u64) -> (j: Json)
    ensures
        j@ == with_limit(limit),
{
    let mut o = JsonObject::new();
    o.insert("limit".to_owned(), Json::UInt(limit));
    Json::Object(o)
}

/// Parameters that say nothing.
pub fn no_params() -> (j: Json)
    ensures
        j@ == JsonView::Object(Seq::empty()),
{
    Json::Object(JsonObject::new())
}

/// The parameters of a report.
pub fn heartbeat_params(id: &str, name: &str) -> (j: Json)
    ensures
        j@ == report_params(id@, name@),
{
    let mut o = JsonObject::new();
    put_text(&mut o, "id", id);
    put_text(&mut o, "name", name);
    Json::Object(o)
}

/// The parameters of a posting from the dashboard.
pub open spec fn test_params(name: Seq<char>) -> JsonView {
    JsonView::Object(
        json::with_member(
            with_text(Seq::empty(), "name"@, name),
            "payload"@,
            JsonView::Object(Seq::empty()),
        ),
    )
}

/// The parameters of a cancellation from the dashboard.
pub open spec fn cancelling(id: Seq<char>) -> JsonView {
    JsonView::Object(with_text(Seq::empty(), "id"@, id))
}

/// The parameters of a posting from the dashboard: a name and an empty
/// payload.
pub fn test_task_params(name: &str) -> (j: Json)
    ensures
        j@ == JsonView::Object(
            json::with_member(
                with_text(Seq::empty(), "name"@, name@),
                "payload"@,
                JsonView::Object(Seq::empty()),
            ),
        ),
        j@ == test_params(name@),
{
    let mut o = JsonObject::new();
    put_text(&mut o, "name", name);
    o.insert("payload".to_owned(), Json::Object(JsonObject::new()));
    Json::Object(o)
}

/// The parameters of a cancellation from the dashboard, which has the
/// identifier as text.
pub fn cancel_params(id: &str) -> (j: Json)
    ensures
        j@ == JsonView::Object(with_text(Seq::empty(), "id"@, id@)),
        j@ == cancelling(id@),
{
    let mut o = JsonObject::new();
    put_text(&mut o, "id", id);
    Json::Object(o)
}

/// The call that a subcommand makes: `None` for one that is more than a
/// single call or no client at all.
pub fn client_call(cmd: &Cmd) -> (r: Result<Option<Call>, CmdError>)
    ensures
        call_read(r) == call_of(*cmd),
{
    let (method, params, show) = match cmd {
        Cmd::Tasks { limit } => ("tasks/list", limit_params(*limit), Show::Tasks),
        Cmd::Agents => ("agents/list", no_params(), Show::Agents),
        Cmd::Send { name, payload, kind, priority } => {
            let payload = match read_document(payload) {
                Ok(p) => p,
                Err(reason) => return Err(CmdError::NotJson(reason)),
            };
            let mut o = JsonObject::new();
            put_text(&mut o, "name", name.as_str());
            put_text(&mut o, "kind", kind.as_str());
            put_text(&mut o, "priority", priority.as_str());
            o.insert("payload".to_owned(), payload);
            ("tasks/send", Json::Object(o), Show::Document)
        },
        Cmd::Claim { id, agent_id, lease } => (
            "tasks/claim",
            lease_object(*id, agent_id.as_str(), *lease),
            Show::Document,
        ),
        Cmd::Extend { id, agent_id, lease } => (
            "tasks/extend",
            lease_object(*id, agent_id.as_str(), *lease),
            Show::Document,
        ),
        Cmd::Reclaim => ("tasks/reclaim", no_params(), Show::Document),
        Cmd::Complete { id, result } => {
            let result = match read_document(result) {
                Ok(r) => r,
                Err(reason) => return Err(CmdError::NotJson(reason)),
            };
            let mut o = name_task(*id);
            o.insert("result".to_owned(), result);
            ("tasks/complete", Json::Object(o), Show::Document)
        },
        Cmd::Cancel { id } => ("tasks/cancel", Json::Object(name_task(*id)), Show::Document),
        Cmd::Heartbeat { agent_id_pos, agent_id_flag, name } => {
            let id = match (agent_id_flag, agent_id_pos) {
                (Some(id), _) => id,
                (None, Some(id)) => id,
                (None, None) => return Err(CmdError::NoAgent),
            };
            (
                "agents/heartbeat",
                heartbeat_params(id.as_str(), name.as_str()),
                Show::Document,
            )
        },
        _ => return Ok(None),
    };
    Ok(Some(Call { method, params, show }))
}

/// Every call goes to a method that the daemon has.
pub proof fn lemma_calls_are_served(cmd: Cmd)
    ensures
        call_of(cmd) matches Ok(Some(c)) ==> a2a::method_named(c.method) is Some,
{
}

/// What `coord version` says.
pub open spec fn version_text() -> Seq<Seq<char>> {
    seq![
        "coord "@ + a2a::VERSION@,
        "a2a   subset (tasks/send, tasks/get, tasks/cancel)"@,
        "ext   tasks/claim, tasks/extend, tasks/reclaim, tasks/complete, tasks/list (long-poll)"@,
        "mcp   bridge   (use `coord mcp` for stdio)"@,
        "vault markdown (use `coord serve --vault PATH` to enable)"@,
        "kinds task | bug | feature | decision | ack | knowledge | build"@,
        "prio  low | normal | high | urgent"@,
        "lease 300s default · 3600s max · auto-reclaim every 30s"@,
    ]
}

/// What `coord version` says, line by line.
pub fn version_lines() -> (r: Vec<String>)
    ensures
        text::texts(r@) == version_text(),
{
    let mut first = "coord ".to_owned();
    first.append(a2a::VERSION);
    let mut out: Vec<String> = Vec::new();
    out.push(first);
    out.push("a2a   subset (tasks/send, tasks/get, tasks/cancel)".to_owned());
    out.push(
        "ext   tasks/claim, tasks/extend, tasks/reclaim, tasks/complete, tasks/list (long-poll)".to_owned(),
    );
    out.push("mcp   bridge   (use `coord mcp` for stdio)".to_owned());
    out.push("vault markdown (use `coord serve --vault PATH` to enable)".to_owned());
    out.push("kinds task | bug | feature | decision | ack | knowledge | build".to_owned());
    out.push("prio  low | normal | high | urgent".to_owned());
    out.push("lease 300s default · 3600s max · auto-reclaim every 30s".to_owned());
    assert(text::texts(out@) =~= version_text());
    out
}

// ---------------------------------------------------------------------
// What the client asks for
// ---------------------------------------------------------------------

/// A posting hands over the name, the kind, the priority and the payload; a
/// payload that is not given is `null`, and one that is no JSON is refused for
/// the reason that the parser gives.
pub proof fn lemma_send_call(
    name: String,
    payload: Option<String>,
    kind: String,
    priority: String,
)
    ensures
        payload is None ==> document(payload) == Ok::<JsonView, Seq<char>>(JsonView::Null),
        (payload matches Some(s) ==> document(payload) == json::json_outcome(s@)),
        match (call_of(Cmd::Send { name, payload, kind, priority }), document(payload)) {
            (Ok(Some(c)), Ok(p)) => {
                &&& c.method == "tasks/send"@
                &&& c.show == Show::Document
                &&& json::member(c.params, "name"@) == Some(JsonView::Text(name@))
                &&& json::member(c.params, "kind"@) == Some(JsonView::Text(kind@))
                &&& json::member(c.params, "priority"@) == Some(JsonView::Text(priority@))
                &&& json::member(c.params, "payload"@) == Some(p)
            },
            (Err(CmdErrorView::NotJson(why)), Err(reason)) => why == reason,
            _ => false,
        },
{
    reveal_strlit("name");
    reveal_strlit("kind");
    reveal_strlit("priority");
    reveal_strlit("payload");
    assert("name"@[0] != "kind"@[0]);
    assert("name"@.len() == 4 && "priority"@.len() == 8 && "payload"@.len() == 7);
    match document(payload) {
        Ok(p) => {
            let m0 = Seq::<(Seq<char>, JsonView)>::empty();
            json::lemma_member_set(m0, "name"@, JsonView::Text(name@));
            let m1 = with_text(m0, "name"@, name@);
            json::lemma_member_set(m1, "kind"@, JsonView::Text(kind@));
            let m2 = with_text(m1, "kind"@, kind@);
            json::lemma_member_set(m2, "priority"@, JsonView::Text(priority@));
            let m3 = with_text(m2, "priority"@, priority@);
            json::lemma_member_set(m3, "payload"@, p);
        },
        Err(_) => {},
    }
}

/// A claim and an extension name the task and the agent, and the length of the
/// lease where one is given and not otherwise.
pub proof fn lemma_lease_calls(id: TaskId, agent_id: String, lease: Option<u64>)
    ensures
        call_of(Cmd::Claim { id, agent_id, lease }) matches Ok(Some(c)) && c.method
            == "tasks/claim"@ && c.params == lease_params(id, agent_id@, lease),
        call_of(Cmd::Extend { id, agent_id, lease }) matches Ok(Some(c)) && c.method
            == "tasks/extend"@ && c.params == lease_params(id, agent_id@, lease),
        ({
            let p = lease_params(id, agent_id@, lease);
            &&& json::member(p, "id"@) == Some(JsonView::Text(types::uuid_text(id)))
            &&& json::member(p, "agentId"@) == Some(JsonView::Text(agent_id@))
            &&& (lease matches Some(n) ==> json::member(p, "leaseSeconds"@) == Some(
                JsonView::Int(n as int),
            ))
            &&& lease is None ==> json::member(p, "leaseSeconds"@) is None
        }),
{
    reveal_strlit("id");
    reveal_strlit("agentId");
    reveal_strlit("leaseSeconds");
    assert("id"@.len() == 2 && "agentId"@.len() == 7 && "leaseSeconds"@.len() == 12);
    let m0 = Seq::<(Seq<char>, JsonView)>::empty();
    json::lemma_member_set(m0, "id"@, JsonView::Text(types::uuid_text(id)));
    let m1 = naming(id);
    json::lemma_member_set(m1, "agentId"@, JsonView::Text(agent_id@));
    let m2 = with_text(m1, "agentId"@, agent_id@);
    match lease {
        Some(n) => json::lemma_member_set(m2, "leaseSeconds"@, JsonView::Int(n as int)),
        None => {},
    }
}

/// A completion names the task and hands over the result, `null` where none is
/// given; a cancellation names the task.
pub proof fn lemma_end_calls(id: TaskId, result: Option<String>)
    ensures
        match (call_of(Cmd::Complete { id, result }), document(result)) {
            (Ok(Some(c)), Ok(v)) => {
                &&& c.method == "tasks/complete"@
                &&& json::member(c.params, "id"@) == Some(JsonView::Text(types::uuid_text(id)))
                &&& json::member(c.params, "result"@) == Some(v)
            },
            (Err(CmdErrorView::NotJson(why)), Err(reason)) => why == reason,
            _ => false,
        },
        call_of(Cmd::Cancel { id }) matches Ok(Some(c)) && c.method == "tasks/cancel"@
            && json::member(c.params, "id"@) == Some(JsonView::Text(types::uuid_text(id))),
{
    reveal_strlit("id");
    reveal_strlit("result");
    assert("id"@.len() == 2 && "result"@.len() == 6);
    json::lemma_member_set(Seq::empty(), "id"@, JsonView::Text(types::uuid_text(id)));
    match document(result) {
        Ok(v) => json::lemma_member_set(naming(id), "result"@, v),
        Err(_) => {},
    }
}

/// A report names the agent: the one after `--as` where it is there, else the
/// one that is named first. Where neither is there nothing is sent.
pub proof fn lemma_report_call(
    agent_id_pos: Option<String>,
    agent_id_flag: Option<String>,
    name: String,
)
    ensures
        match call_of(Cmd::Heartbeat { agent_id_pos, agent_id_flag, name }) {
            Ok(Some(c)) => {
                &&& agent_id_flag is Some || agent_id_pos is Some
                &&& c.method == "agents/heartbeat"@
                &&& json::member(c.params, "name"@) == Some(JsonView::Text(name@))
                &&& (agent_id_flag matches Some(id) ==> json::member(c.params, "id"@) == Some(
                    JsonView::Text(id@),
                ))
                &&& agent_id_flag is None ==> json::member(c.params, "id"@) == Some(
                    JsonView::Text(agent_id_pos->0@),
                )
            },
            Err(CmdErrorView::NoAgent) => agent_id_flag is None && agent_id_pos is None,
            _ => false,
        },
{
    reveal_strlit("id");
    reveal_strlit("name");
    assert("id"@.len() == 2 && "name"@.len() == 4);
    let id = match agent_id_flag {
        Some(id) => id@,
        None => match agent_id_pos {
            Some(id) => id@,
            None => Seq::empty(),
        },
    };
    json::lemma_member_set(Seq::empty(), "id"@, JsonView::Text(id));
    json::lemma_member_set(
        with_text(Seq::empty(), "id"@, id),
        "name"@,
        JsonView::Text(name@),
    );
}

/// A listing of tasks asks for as many as the user does and shows them as a
/// table, and so does a listing of agents; a sweep takes nothing. Each goes to
/// the method of its name.
pub proof fn lemma_listing_calls(limit: u64)
    ensures
        call_of(Cmd::Tasks { limit }) matches Ok(Some(c)) && c.method == "tasks/list"@ && c.show
            == Show::Tasks && json::member(c.params, "limit"@) == Some(
            JsonView::Int(limit as int),
        ) && json::member(c.params, "state"@) is None,
        call_of(Cmd::Agents) matches Ok(Some(c)) && c.method == "agents/list"@ && c.show
            == Show::Agents,
        call_of(Cmd::Reclaim) matches Ok(Some(c)) && c.method == "tasks/reclaim"@ && c.show
            == Show::Document,
{
    reveal_strlit("limit");
    reveal_strlit("state");
    assert("limit"@[0] != "state"@[0]);
    json::lemma_member_set(Seq::empty(), "limit"@, JsonView::Int(limit as int));
    assert(json::lookup(Seq::<(Seq<char>, JsonView)>::empty(), "state"@) is None);
}

/// The dashboard posts a task by its name and calls one off by its identifier.
pub proof fn lemma_dashboard_calls(s: Seq<char>)
    ensures
        json::member(test_params(s), "name"@) == Some(JsonView::Text(s)),
        json::member(test_params(s), "kind"@) is None,
        json::member(cancelling(s), "id"@) == Some(JsonView::Text(s)),
{
    reveal_strlit("name");
    reveal_strlit("payload");
    reveal_strlit("kind");
    assert("name"@.len() == 4 && "payload"@.len() == 7 && "kind"@.len() == 4);
    assert("name"@[0] != "kind"@[0]);
    let m0 = Seq::<(Seq<char>, JsonView)>::empty();
    json::lemma_member_set(m0, "name"@, JsonView::Text(s));
    let m1 = with_text(m0, "name"@, s);
    json::lemma_member_set(m1, "payload"@, JsonView::Object(Seq::empty()));
    json::lemma_member_set(m0, "id"@, JsonView::Text(s));
    assert(json::lookup(m0, "kind"@) is None);
}

} // verus!
