//! The records of the bulletin: tasks, agents, their identifiers and their
//! wire form.

use uuid::Uuid;
use vstd::prelude::*;

use crate::json;
use crate::json::{Json, JsonObject, JsonView};
use crate::text;
use crate::time;
use crate::time::Timestamp;

verus! {

// ---------------------------------------------------------------------
// Task states
// ---------------------------------------------------------------------

/// Where a task stands in its life.
#[derive(Debug, Clone, Copy, PartialEq, Eq, Structural)]
pub enum TaskState {
    Pending,
    Claimed,
    Completed,
    Failed,
    Cancelled,
}

/// The name of a state.
pub open spec fn state_name(s: TaskState) -> Seq<char> {
    match s {
        TaskState::Pending => "pending"@,
        TaskState::Claimed => "claimed"@,
        TaskState::Completed => "completed"@,
        TaskState::Failed => "failed"@,
        TaskState::Cancelled => "cancelled"@,
    }
}

/// The state that a name stands for.
pub open spec fn state_named(s: Seq<char>) -> Option<TaskState> {
    if s == "pending"@ {
        Some(TaskState::Pending)
    } else if s == "claimed"@ {
        Some(TaskState::Claimed)
    } else if s == "completed"@ {
        Some(TaskState::Completed)
    } else if s == "failed"@ {
        Some(TaskState::Failed)
    } else if s == "cancelled"@ {
        Some(TaskState::Cancelled)
    } else {
        None
    }
}

impl TaskState {
    /// The name of the state.
    pub fn as_str(&self) -> (r: &'static str)
        ensures
            r@ == state_name(*self),
    {
        match self {
            TaskState::Pending => "pending",
            TaskState::Claimed => "claimed",
            TaskState::Completed => "completed",
            TaskState::Failed => "failed",
            TaskState::Cancelled => "cancelled",
        }
    }

    /// The state with the given name.
    pub fn parse(s: &str) -> (r: Option<TaskState>)
        ensures
            r == state_named(s@),
    {
        if text::same(s, "pending") {
            Some(TaskState::Pending)
        } else if text::same(s, "claimed") {
            Some(TaskState::Claimed)
        } else if text::same(s, "completed") {
            Some(TaskState::Completed)
        } else if text::same(s, "failed") {
            Some(TaskState::Failed)
        } else if text::same(s, "cancelled") {
            Some(TaskState::Cancelled)
        } else {
            None
        }
    }
}

/// No two states share a name: parsing the name of a state gives the state
/// back, and a text that parses is the name of what it parses to.
pub proof fn lemma_state_names(s: TaskState, t: Seq<char>)
    ensures
        state_named(state_name(s)) == Some(s),
        state_named(t) matches Some(p) ==> state_name(p) == t,
{
    reveal_strlit("pending");
    reveal_strlit("claimed");
    reveal_strlit("completed");
    reveal_strlit("failed");
    reveal_strlit("cancelled");
    assert("pending"@[0] != "claimed"@[0]);
    assert("completed"@[1] != "claimed"@[1]);
    assert("cancelled"@[1] != "claimed"@[1]);
    assert("cancelled"@[1] != "completed"@[1]);
    assert("pending"@[0] != "completed"@[0]);
    assert("pending"@[0] != "failed"@[0]);
    assert("failed"@[0] != "claimed"@[0]);
    assert("failed"@[0] != "completed"@[0]);
    assert("pending"@[0] != "cancelled"@[0]);
    assert("failed"@[0] != "cancelled"@[0]);
}

// ---------------------------------------------------------------------
// Defaults
// ---------------------------------------------------------------------

/// The category of a task whose poster names none.
pub const DEFAULT_KIND: &'static str = "task";

/// The priority of a task whose poster names none.
pub const DEFAULT_PRIORITY: &'static str = "normal";

/// The length of a lease that nobody asks for, in seconds, unless the daemon
/// was given another one.
pub const DEFAULT_LEASE_SECONDS: u64 = 300;

/// The longest lease that a single claim can hold.
pub const MAX_LEASE_SECONDS: u64 = 3_600;

// ---------------------------------------------------------------------
// Identifiers
// ---------------------------------------------------------------------

/// The 128 bits of a UUID.
pub type TaskId = u128;

/// A hexadecimal digit, in lower case.
pub open spec fn hex_char(d: nat) -> char {
    if d < 10 {
        ((48 + d) as u8) as char
    } else {
        ((87 + d) as u8) as char
    }
}

/// The `k`-th of the 32 hexadecimal digits of an identifier, the most
/// significant first.
pub open spec fn hex_digit(id: u128, k: int) -> nat {
    ((id as int / vstd::arithmetic::power::pow(16, (31 - k) as nat)) % 16) as nat
}

/// The hyphenated spelling of an identifier: groups of 8, 4, 4, 4 and 12
/// hexadecimal digits.
pub open spec fn uuid_text(id: u128) -> Seq<char> {
    Seq::new(
        36,
        |i: int|
            if i == 8 || i == 13 || i == 18 || i == 23 {
                '-'
            } else if i < 8 {
                hex_char(hex_digit(id, i))
            } else if i < 13 {
                hex_char(hex_digit(id, i - 1))
            } else if i < 18 {
                hex_char(hex_digit(id, i - 2))
            } else if i < 23 {
                hex_char(hex_digit(id, i - 3))
            } else {
                hex_char(hex_digit(id, i - 4))
            },
    )
}

proof fn lemma_leading_digits(a: u128, b: u128, k: nat)
    requires
        k <= 32,
        forall|j: int| 0 <= j < k ==> #[trigger] hex_digit(a, j) == hex_digit(b, j),
    ensures
        a as int / vstd::arithmetic::power::pow(16, (32 - k) as nat) == b as int
            / vstd::arithmetic::power::pow(16, (32 - k) as nat),
    decreases k,
{
    if k == 0 {
        assert(vstd::arithmetic::power::pow(16, 32) == 0x1_0000_0000_0000_0000_0000_0000_0000_0000)
            by {
            reveal_with_fuel(vstd::arithmetic::power::pow, 33);
        }
        vstd::arithmetic::div_mod::lemma_basic_div(a as int, vstd::arithmetic::power::pow(16, 32));
        vstd::arithmetic::div_mod::lemma_basic_div(b as int, vstd::arithmetic::power::pow(16, 32));
    } else {
        lemma_leading_digits(a, b, (k - 1) as nat);
        let p = vstd::arithmetic::power::pow(16, (32 - k) as nat);
        vstd::arithmetic::power::lemma_pow_positive(16, (32 - k) as nat);
        vstd::arithmetic::power::lemma_pow_adds(16, (32 - k) as nat, 1);
        vstd::arithmetic::power::lemma_pow1(16);
        assert(vstd::arithmetic::power::pow(16, (33 - k) as nat) == p * 16);
        vstd::arithmetic::div_mod::lemma_div_denominator(a as int, p, 16);
        vstd::arithmetic::div_mod::lemma_div_denominator(b as int, p, 16);
        assert(hex_digit(a, k - 1) == hex_digit(b, k - 1));
        assert((31 - (k - 1)) as nat == (32 - k) as nat);
    }
}

/// Two identifiers are never spelled alike.
pub proof fn lemma_uuid_text_unique(a: TaskId, b: TaskId)
    requires
        uuid_text(a) == uuid_text(b),
    ensures
        a == b,
{
    assert forall|j: int| 0 <= j < 32 implies #[trigger] hex_digit(a, j) == hex_digit(b, j) by {
        let i = if j < 8 {
            j
        } else if j < 12 {
            j + 1
        } else if j < 16 {
            j + 2
        } else if j < 20 {
            j + 3
        } else {
            j + 4
        };
        assert(uuid_text(a)[i] == hex_char(hex_digit(a, j)));
        assert(uuid_text(b)[i] == hex_char(hex_digit(b, j)));
    }
    lemma_leading_digits(a, b, 32);
    vstd::arithmetic::power::lemma_pow0(16);
}

/// What `Uuid::parse_str` reads in a text, `None` where it finds an error.
pub uninterp spec fn uuid_parse(s: Seq<char>) -> Option<u128>;

/// `Uuid::to_string`: the hyphenated spelling in lower case, which
/// `Uuid::parse_str` reads back.
#[verifier::external_body]
pub(crate) fn uuid_to_string(id: TaskId) -> (r: String)
    ensures
        r@ == uuid_text(id),
        uuid_parse(r@) == Some(id),
{
    Uuid::from_u128(id).to_string()
}

/// `Uuid::parse_str`: what it reads depends on the text alone.
#[verifier::external_body]
pub(crate) fn uuid_from_str(s: &str) -> (r: Option<TaskId>)
    ensures
        r == uuid_parse(s@),
{
    Uuid::parse_str(s).ok().map(|u| u.as_u128())
}

/// What a random identifier can be: its version is 4 and its variant that of
/// RFC 4122.
pub open spec fn is_random(id: TaskId) -> bool {
    (id >> 76u128) & 0xf == 4 && (id >> 62u128) & 0x3 == 2
}

/// `Uuid::new_v4`: a random identifier, of which nothing is said but the
/// bits of its version and variant.
#[verifier::external_body]
pub(crate) fn fresh_id() -> (id: TaskId)
    ensures
        is_random(id),
{
    Uuid::new_v4().as_u128()
}

/// The hyphenated spelling of an identifier.
pub fn id_text(id: TaskId) -> (r: String)
    ensures
        r@ == uuid_text(id),
        uuid_parse(r@) == Some(id),
{
    uuid_to_string(id)
}

/// The identifier that a text spells.
pub fn parse_id(s: &str) -> (r: Option<TaskId>)
    ensures
        r == uuid_parse(s@),
{
    uuid_from_str(s)
}

// ---------------------------------------------------------------------
// Tasks
// ---------------------------------------------------------------------

/// One posting on the bulletin.
#[derive(Debug, PartialEq)]
pub struct Task {
    pub id: TaskId,
    pub name: String,
    pub kind: String,
    pub priority: String,
    pub state: TaskState,
    pub claimed_by: Option<String>,
    pub payload: Json,
    pub result: Option<Json>,
    pub created_at: Timestamp,
    pub updated_at: Timestamp,
    /// When the present claim was granted.
    pub claimed_at: Option<Timestamp>,
    /// When the present claim lapses.
    pub lease_until: Option<Timestamp>,
}

/// What a task holds.
#[verifier::ext_equal]
pub struct TaskView {
    pub id: TaskId,
    pub name: Seq<char>,
    pub kind: Seq<char>,
    pub priority: Seq<char>,
    pub state: TaskState,
    pub claimed_by: Option<Seq<char>>,
    pub payload: JsonView,
    pub result: Option<JsonView>,
    pub created_at: Timestamp,
    pub updated_at: Timestamp,
    pub claimed_at: Option<Timestamp>,
    pub lease_until: Option<Timestamp>,
}

impl View for Task {
    type V = TaskView;

    open spec fn view(&self) -> TaskView {
        TaskView {
            id: self.id,
            name: self.name@,
            kind: self.kind@,
            priority: self.priority@,
            state: self.state,
            claimed_by: text::opt_text(self.claimed_by),
            payload: self.payload@,
            result: json::opt_view(self.result),
            created_at: self.created_at,
            updated_at: self.updated_at,
            claimed_at: self.claimed_at,
            lease_until: self.lease_until,
        }
    }
}

/// The views of a sequence of tasks.
pub open spec fn task_views(tasks: Seq<Task>) -> Seq<TaskView> {
    Seq::new(tasks.len(), |i: int| tasks[i]@)
}

impl Clone for Task {
    fn clone(&self) -> (r: Task)
        ensures
            r@ == self@,
    {
        Task {
            id: self.id,
            name: self.name.clone(),
            kind: self.kind.clone(),
            priority: self.priority.clone(),
            state: self.state,
            claimed_by: text::clone_opt(&self.claimed_by),
            payload: self.payload.clone(),
            result: json::clone_opt(&self.result),
            created_at: self.created_at,
            updated_at: self.updated_at,
            claimed_at: self.claimed_at,
            lease_until: self.lease_until,
        }
    }
}

/// An agent as readers of the bulletin see it.
#[derive(Debug, PartialEq)]
pub struct Agent {
    pub id: String,
    pub name: String,
    /// When the agent first reported.
    pub first_seen: Timestamp,
    /// When the agent last reported.
    pub last_seen: Timestamp,
    /// A task that the agent holds a claim on.
    pub current_task: Option<TaskId>,
}

/// What an agent record holds.
#[verifier::ext_equal]
pub struct AgentView {
    pub id: Seq<char>,
    pub name: Seq<char>,
    pub first_seen: Timestamp,
    pub last_seen: Timestamp,
    pub current_task: Option<TaskId>,
}

impl View for Agent {
    type V = AgentView;

    open spec fn view(&self) -> AgentView {
        AgentView {
            id: self.id@,
            name: self.name@,
            first_seen: self.first_seen,
            last_seen: self.last_seen,
            current_task: self.current_task,
        }
    }
}

impl Clone for Agent {
    fn clone(&self) -> (r: Agent)
        ensures
            r@ == self@,
    {
        Agent {
            id: self.id.clone(),
            name: self.name.clone(),
            first_seen: self.first_seen,
            last_seen: self.last_seen,
            current_task: self.current_task,
        }
    }
}

/// The views of a sequence of agents.
pub open spec fn agent_views(agents: Seq<Agent>) -> Seq<AgentView> {
    Seq::new(agents.len(), |i: int| agents[i]@)
}

// ---------------------------------------------------------------------
// Wire form
// ---------------------------------------------------------------------

/// A text, or `null` for none.
pub open spec fn text_or_null(s: Option<Seq<char>>) -> JsonView {
    match s {
        Some(t) => JsonView::Text(t),
        None => JsonView::Null,
    }
}

/// The members of an object with an instant under `key`, where there is one.
pub open spec fn with_instant(
    members: Seq<(Seq<char>, JsonView)>,
    key: Seq<char>,
    t: Option<Timestamp>,
) -> Seq<(Seq<char>, JsonView)> {
    match t {
        Some(t) => json::with_member(members, key, JsonView::Text(time::stamp_z(t))),
        None => members,
    }
}

/// The members of a task's wire form.
pub open spec fn task_members(t: TaskView) -> Seq<(Seq<char>, JsonView)> {
    let m = Seq::<(Seq<char>, JsonView)>::empty();
    let m = json::with_member(m, "id"@, JsonView::Text(uuid_text(t.id)));
    let m = json::with_member(m, "name"@, JsonView::Text(t.name));
    let m = json::with_member(m, "kind"@, JsonView::Text(t.kind));
    let m = json::with_member(m, "priority"@, JsonView::Text(t.priority));
    let m = json::with_member(m, "state"@, JsonView::Text(state_name(t.state)));
    let m = json::with_member(m, "claimed_by"@, text_or_null(t.claimed_by));
    let m = json::with_member(m, "payload"@, t.payload);
    let m = json::with_member(
        m,
        "result"@,
        match t.result {
            Some(r) => r,
            None => JsonView::Null,
        },
    );
    let m = json::with_member(m, "created_at"@, JsonView::Text(time::stamp_z(t.created_at)));
    let m = json::with_member(m, "updated_at"@, JsonView::Text(time::stamp_z(t.updated_at)));
    let m = with_instant(m, "claimed_at"@, t.claimed_at);
    with_instant(m, "lease_until"@, t.lease_until)
}

/// The wire form of a task.
pub open spec fn task_json(t: TaskView) -> JsonView {
    JsonView::Object(task_members(t))
}

/// The wire form of an agent.
pub open spec fn agent_json(a: AgentView) -> JsonView {
    let m = Seq::<(Seq<char>, JsonView)>::empty();
    let m = json::with_member(m, "id"@, JsonView::Text(a.id));
    let m = json::with_member(m, "name"@, JsonView::Text(a.name));
    let m = json::with_member(m, "first_seen"@, JsonView::Text(time::stamp_z(a.first_seen)));
    let m = json::with_member(m, "last_seen"@, JsonView::Text(time::stamp_z(a.last_seen)));
    let m = json::with_member(
        m,
        "current_task"@,
        match a.current_task {
            Some(id) => JsonView::Text(uuid_text(id)),
            None => JsonView::Null,
        },
    );
    JsonView::Object(m)
}

/// The wire form of a list of tasks.
pub open spec fn tasks_json(tasks: Seq<TaskView>) -> JsonView {
    JsonView::Array(Seq::new(tasks.len(), |i: int| task_json(tasks[i])))
}

/// The wire form of a list of agents.
pub open spec fn agents_json(agents: Seq<AgentView>) -> JsonView {
    JsonView::Array(Seq::new(agents.len(), |i: int| agent_json(agents[i])))
}

proof fn lemma_keys_differ()
    ensures
        "id"@.len() == 2,
        "name"@.len() == 4,
        "kind"@.len() == 4,
        "name"@ != "kind"@,
        "state"@.len() == 5,
        "result"@.len() == 6,
        "payload"@.len() == 7,
        "priority"@.len() == 8,
        "last_seen"@.len() == 9,
        "claimed_by"@.len() == 10,
        "created_at"@.len() == 10,
        "updated_at"@.len() == 10,
        "claimed_at"@.len() == 10,
        "first_seen"@.len() == 10,
        "claimed_by"@ != "claimed_at"@,
        "claimed_by"@ != "created_at"@,
        "claimed_by"@ != "updated_at"@,
        "claimed_at"@ != "created_at"@,
        "claimed_at"@ != "updated_at"@,
        "created_at"@ != "updated_at"@,
        "lease_until"@.len() == 11,
        "current_task"@.len() == 12,
{
    reveal_strlit("id");
    reveal_strlit("name");
    reveal_strlit("kind");
    reveal_strlit("state");
    reveal_strlit("result");
    reveal_strlit("payload");
    reveal_strlit("priority");
    reveal_strlit("last_seen");
    reveal_strlit("claimed_by");
    reveal_strlit("created_at");
    reveal_strlit("updated_at");
    reveal_strlit("claimed_at");
    reveal_strlit("first_seen");
    reveal_strlit("lease_until");
    reveal_strlit("current_task");
    assert("name"@[0] != "kind"@[0]);
    assert("claimed_by"@[8] != "claimed_at"@[8]);
    assert("claimed_by"@[1] != "created_at"@[1]);
    assert("claimed_by"@[0] != "updated_at"@[0]);
    assert("claimed_at"@[1] != "created_at"@[1]);
    assert("claimed_at"@[0] != "updated_at"@[0]);
    assert("created_at"@[0] != "updated_at"@[0]);
}

/// The wire form of a task carries every field of it under its own name; an
/// instant that is not there has no member.
pub proof fn lemma_task_on_the_wire(t: TaskView)
    ensures
        ({
            let j = task_json(t);
            &&& json::member(j, "id"@) == Some(JsonView::Text(uuid_text(t.id)))
            &&& json::member(j, "name"@) == Some(JsonView::Text(t.name))
            &&& json::member(j, "kind"@) == Some(JsonView::Text(t.kind))
            &&& json::member(j, "priority"@) == Some(JsonView::Text(t.priority))
            &&& json::member(j, "state"@) == Some(JsonView::Text(state_name(t.state)))
            &&& json::member(j, "claimed_by"@) == Some(text_or_null(t.claimed_by))
            &&& json::member(j, "payload"@) == Some(t.payload)
            &&& json::member(j, "result"@) == Some(
                match t.result {
                    Some(r) => r,
                    None => JsonView::Null,
                },
            )
            &&& json::member(j, "created_at"@) == Some(JsonView::Text(time::stamp_z(t.created_at)))
            &&& json::member(j, "updated_at"@) == Some(JsonView::Text(time::stamp_z(t.updated_at)))
            &&& json::member(j, "claimed_at"@) == match t.claimed_at {
                Some(at) => Some(JsonView::Text(time::stamp_z(at))),
                None => None,
            }
            &&& json::member(j, "lease_until"@) == match t.lease_until {
                Some(at) => Some(JsonView::Text(time::stamp_z(at))),
                None => None,
            }
        }),
{
    lemma_keys_differ();
    let m = Seq::<(Seq<char>, JsonView)>::empty();
    json::lemma_member_set(m, "id"@, JsonView::Text(uuid_text(t.id)));
    let m = json::with_member(m, "id"@, JsonView::Text(uuid_text(t.id)));
    json::lemma_member_set(m, "name"@, JsonView::Text(t.name));
    let m = json::with_member(m, "name"@, JsonView::Text(t.name));
    json::lemma_member_set(m, "kind"@, JsonView::Text(t.kind));
    let m = json::with_member(m, "kind"@, JsonView::Text(t.kind));
    json::lemma_member_set(m, "priority"@, JsonView::Text(t.priority));
    let m = json::with_member(m, "priority"@, JsonView::Text(t.priority));
    json::lemma_member_set(m, "state"@, JsonView::Text(state_name(t.state)));
    let m = json::with_member(m, "state"@, JsonView::Text(state_name(t.state)));
    json::lemma_member_set(m, "claimed_by"@, text_or_null(t.claimed_by));
    let m = json::with_member(m, "claimed_by"@, text_or_null(t.claimed_by));
    json::lemma_member_set(m, "payload"@, t.payload);
    let m = json::with_member(m, "payload"@, t.payload);
    let result = match t.result {
        Some(r) => r,
        None => JsonView::Null,
    };
    json::lemma_member_set(m, "result"@, result);
    let m = json::with_member(m, "result"@, result);
    json::lemma_member_set(m, "created_at"@, JsonView::Text(time::stamp_z(t.created_at)));
    let m = json::with_member(m, "created_at"@, JsonView::Text(time::stamp_z(t.created_at)));
    json::lemma_member_set(m, "updated_at"@, JsonView::Text(time::stamp_z(t.updated_at)));
    let m = json::with_member(m, "updated_at"@, JsonView::Text(time::stamp_z(t.updated_at)));
    match t.claimed_at {
        Some(at) => json::lemma_member_set(m, "claimed_at"@, JsonView::Text(time::stamp_z(at))),
        None => {},
    }
    let m = with_instant(m, "claimed_at"@, t.claimed_at);
    match t.lease_until {
        Some(at) => json::lemma_member_set(m, "lease_until"@, JsonView::Text(time::stamp_z(at))),
        None => {},
    }
}

/// The wire form of an agent carries every field of it under its own name.
pub proof fn lemma_agent_on_the_wire(a: AgentView)
    ensures
        ({
            let j = agent_json(a);
            &&& json::member(j, "id"@) == Some(JsonView::Text(a.id))
            &&& json::member(j, "name"@) == Some(JsonView::Text(a.name))
            &&& json::member(j, "first_seen"@) == Some(JsonView::Text(time::stamp_z(a.first_seen)))
            &&& json::member(j, "last_seen"@) == Some(JsonView::Text(time::stamp_z(a.last_seen)))
            &&& json::member(j, "current_task"@) == Some(
                match a.current_task {
                    Some(id) => JsonView::Text(uuid_text(id)),
                    None => JsonView::Null,
                },
            )
        }),
{
    lemma_keys_differ();
    let m = Seq::<(Seq<char>, JsonView)>::empty();
    json::lemma_member_set(m, "id"@, JsonView::Text(a.id));
    let m = json::with_member(m, "id"@, JsonView::Text(a.id));
    json::lemma_member_set(m, "name"@, JsonView::Text(a.name));
    let m = json::with_member(m, "name"@, JsonView::Text(a.name));
    json::lemma_member_set(m, "first_seen"@, JsonView::Text(time::stamp_z(a.first_seen)));
    let m = json::with_member(m, "first_seen"@, JsonView::Text(time::stamp_z(a.first_seen)));
    json::lemma_member_set(m, "last_seen"@, JsonView::Text(time::stamp_z(a.last_seen)));
    let m = json::with_member(m, "last_seen"@, JsonView::Text(time::stamp_z(a.last_seen)));
    json::lemma_member_set(
        m,
        "current_task"@,
        match a.current_task {
            Some(id) => JsonView::Text(uuid_text(id)),
            None => JsonView::Null,
        },
    );
}

fn put_text(o: &mut JsonObject, key: &str, value: &str)
    ensures
        final(o)@ == json::with_member(old(o)@, key@, JsonView::Text(value@)),
{
    o.insert(key.to_owned(), Json::Text(value.to_owned()));
}

fn put_instant(o: &mut JsonObject, key: &str, value: &Option<Timestamp>)
    ensures
        final(o)@ == with_instant(old(o)@, key@, *value),
{
    match value {
        Some(t) => {
            o.insert(key.to_owned(), Json::Text(time::rfc3339(t, true)));
        },
        None => {},
    }
}

impl Task {
    /// The wire form of the task.
    pub fn to_json(&self) -> (j: Json)
        ensures
            j@ == task_json(self@),
    {
        let mut o = JsonObject::new();
        put_text(&mut o, "id", id_text(self.id).as_str());
        put_text(&mut o, "name", self.name.as_str());
        put_text(&mut o, "kind", self.kind.as_str());
        put_text(&mut o, "priority", self.priority.as_str());
        put_text(&mut o, "state", self.state.as_str());
        let by = match &self.claimed_by {
            Some(s) => Json::Text(s.clone()),
            None => Json::Null,
        };
        o.insert("claimed_by".to_owned(), by);
        o.insert("payload".to_owned(), self.payload.clone());
        let result = match &self.result {
            Some(r) => r.clone(),
            None => Json::Null,
        };
        o.insert("result".to_owned(), result);
        put_text(&mut o, "created_at", time::rfc3339(&self.created_at, true).as_str());
        put_text(&mut o, "updated_at", time::rfc3339(&self.updated_at, true).as_str());
        put_instant(&mut o, "claimed_at", &self.claimed_at);
        put_instant(&mut o, "lease_until", &self.lease_until);
        Json::Object(o)
    }
}

impl Agent {
    /// The wire form of the agent.
    pub fn to_json(&self) -> (j: Json)
        ensures
            j@ == agent_json(self@),
    {
        let mut o = JsonObject::new();
        put_text(&mut o, "id", self.id.as_str());
        put_text(&mut o, "name", self.name.as_str());
        put_text(&mut o, "first_seen", time::rfc3339(&self.first_seen, true).as_str());
        put_text(&mut o, "last_seen", time::rfc3339(&self.last_seen, true).as_str());
        let current = match self.current_task {
            Some(id) => Json::Text(id_text(id)),
            None => Json::Null,
        };
        o.insert("current_task".to_owned(), current);
        Json::Object(o)
    }
}

/// The wire form of a list of tasks.
pub fn tasks_to_json(tasks: &Vec<Task>) -> (j: Json)
    ensures
        j@ == tasks_json(task_views(tasks@)),
{
    let mut out: Vec<Json> = Vec::new();
    let mut i: usize = 0;
    while i < tasks.len()
        invariant
            i <= tasks.len(),
            out.len() == i,
            forall|k: int| 0 <= k < i ==> json::json_view(#[trigger] out@[k]) == task_json(tasks@[k]@),
        decreases tasks.len() - i,
    {
        out.push(tasks[i].to_json());
        i = i + 1;
    }
    let j = Json::Array(out);
    assert(j@->Array_0 =~= tasks_json(task_views(tasks@))->Array_0);
    j
}

/// The wire form of a list of agents.
pub fn agents_to_json(agents: &Vec<Agent>) -> (j: Json)
    ensures
        j@ == agents_json(agent_views(agents@)),
{
    let mut out: Vec<Json> = Vec::new();
    let mut i: usize = 0;
    while i < agents.len()
        invariant
            i <= agents.len(),
            out.len() == i,
            forall|k: int|
                0 <= k < i ==> json::json_view(#[trigger] out@[k]) == agent_json(agents@[k]@),
        decreases agents.len() - i,
    {
        out.push(agents[i].to_json());
        i = i + 1;
    }
    let j = Json::Array(out);
    assert(j@->Array_0 =~= agents_json(agent_views(agents@))->Array_0);
    j
}

} // verus!
