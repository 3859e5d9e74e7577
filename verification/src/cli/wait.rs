//! `coord wait`: what a waiter asks for, which answer ends its wait, and what
//! it does next.
//!
//! The daemon holds each query open until something comes up, so a waiter
//! hears of a match at once. Queries are kept shorter than the time after
//! which an HTTP client gives up, and no longer than the time to the next
//! report.

use vstd::prelude::*;

use crate::cli::printing;
use crate::json;
use crate::json::{Json, JsonObject, JsonView};
use crate::model;
use crate::text;
use crate::types;

verus! {

/// What a waiter waits for, and how.
#[derive(Debug)]
pub struct WaitArgs {
    /// The agent that reports while it waits.
    pub agent_id: String,
    pub name: String,
    pub kind: Option<String>,
    /// The state that is waited for; `any` for every state.
    pub state: Option<String>,
    pub priority: Vec<String>,
    /// Part of the task's name, in any case.
    pub name_contains: Option<String>,
    /// Tasks that do not count.
    pub ignore_ids: Vec<String>,
    /// How long to wait, in seconds.
    pub timeout: u64,
    /// How long to pause where other tasks came up, in seconds.
    pub poll: u64,
    /// How long between two reports, in seconds.
    pub heartbeat: u64,
}

/// How many tasks a waiter looks at.
pub const WAIT_LIMIT: u64 = 200;

/// How long the daemon is asked to hold a query open, in milliseconds.
pub const HOLD_MS: u64 = 20_000;

// ---------------------------------------------------------------------
// The query
// ---------------------------------------------------------------------

/// The state in which tasks of a kind are first seen.
pub open spec fn first_state(kind: Option<Seq<char>>) -> Seq<char> {
    match kind {
        Some(k) => if model::is_announcement(k) {
            "completed"@
        } else {
            "pending"@
        },
        None => "pending"@,
    }
}

/// The state that is waited for, if any.
pub open spec fn wanted_state(state: Option<Seq<char>>, kind: Option<Seq<char>>) -> Option<
    Seq<char>,
> {
    match state {
        Some(s) => if s == "any"@ {
            None
        } else {
            Some(s)
        },
        None => Some(first_state(kind)),
    }
}

/// A waiter that names a kind but no state waits for the state in which tasks
/// of that kind are posted, so it sees them as they come.
pub proof fn lemma_waiter_sees_postings(kind: Seq<char>)
    ensures
        wanted_state(None, Some(kind)) == Some(types::state_name(model::initial_state(kind))),
{
}

/// The state in which tasks of a kind are first seen.
pub fn default_state_for_kind(kind: &Option<String>) -> (r: &'static str)
    ensures
        r@ == first_state(text::opt_text(*kind)),
{
    match kind {
        Some(k) => if text::same(k.as_str(), "ack") || text::same(k.as_str(), "knowledge")
            || text::same(k.as_str(), "decision") {
            "completed"
        } else {
            "pending"
        },
        None => "pending",
    }
}

/// The state that is waited for, if any.
pub fn effective_state(args: &WaitArgs) -> (r: Option<String>)
    ensures
        text::opt_text(r) == wanted_state(text::opt_text(args.state), text::opt_text(args.kind)),
{
    match &args.state {
        Some(s) => if text::same(s.as_str(), "any") {
            None
        } else {
            Some(s.clone())
        },
        None => Some(default_state_for_kind(&args.kind).to_owned()),
    }
}

/// The members of an object with a text under `key`, where there is one.
pub open spec fn with_text(
    members: Seq<(Seq<char>, JsonView)>,
    key: Seq<char>,
    s: Option<Seq<char>>,
) -> Seq<(Seq<char>, JsonView)> {
    match s {
        Some(t) => json::with_member(members, key, JsonView::Text(t)),
        None => members,
    }
}

/// The parameters of a waiter's query.
pub open spec fn query(state: Option<Seq<char>>, kind: Option<Seq<char>>, wait_ms: u64) -> JsonView {
    let m = json::with_member(Seq::empty(), "limit"@, JsonView::Int(WAIT_LIMIT as int));
    let m = with_text(m, "state"@, wanted_state(state, kind));
    let m = with_text(m, "kind"@, kind);
    JsonView::Object(json::with_member(m, "wait_ms"@, JsonView::Int(wait_ms as int)))
}

/// The parameters of a waiter's query, which the daemon holds open for the
/// given time.
pub fn query_params(args: &WaitArgs, wait_ms: u64) -> (j: Json)
    ensures
        j@ == query(text::opt_text(args.state), text::opt_text(args.kind), wait_ms),
{
    let mut o = JsonObject::new();
    o.insert("limit".to_owned(), Json::UInt(WAIT_LIMIT));
    match effective_state(args) {
        Some(s) => o.insert("state".to_owned(), Json::Text(s)),
        None => {},
    }
    match &args.kind {
        Some(k) => o.insert("kind".to_owned(), Json::Text(k.clone())),
        None => {},
    }
    o.insert("wait_ms".to_owned(), Json::UInt(wait_ms));
    Json::Object(o)
}

// ---------------------------------------------------------------------
// The match
// ---------------------------------------------------------------------

/// Whether a task is what is waited for.
pub open spec fn wanted(args: WaitArgs, t: JsonView) -> bool {
    &&& !text::texts(args.ignore_ids@).contains(json::member_text_or(t, "id"@, ""@))
    &&& args.priority@.len() == 0 || text::texts(args.priority@).contains(
        json::member_text_or(t, "priority"@, "normal"@),
    )
    &&& (text::opt_text(args.name_contains) matches Some(needle) ==> text::occurs_in(
        text::lowercase(needle),
        text::lowercase(json::member_text_or(t, "name"@, ""@)),
    ))
}

/// The first task that is waited for.
pub open spec fn first_wanted(args: WaitArgs, items: Seq<JsonView>) -> Option<JsonView>
    decreases items.len(),
{
    if items.len() == 0 {
        None
    } else if wanted(args, items[0]) {
        Some(items[0])
    } else {
        first_wanted(args, items.drop_first())
    }
}

fn is_one_of(list: &Vec<String>, s: &str) -> (r: bool)
    ensures
        r == text::texts(list@).contains(s@),
{
    let mut i: usize = 0;
    while i < list.len()
        invariant
            i <= list.len(),
            forall|k: int| 0 <= k < i ==> #[trigger] text::texts(list@)[k] != s@,
        decreases list.len() - i,
    {
        assert(text::texts(list@)[i as int] == list@[i as int]@);
        if text::same(list[i].as_str(), s) {
            return true;
        }
        i = i + 1;
    }
    false
}

/// Whether a task is what is waited for.
pub fn matches_task(args: &WaitArgs, t: &Json) -> (r: bool)
    ensures
        r == wanted(*args, t@),
{
    if is_one_of(&args.ignore_ids, t.get_str_or("id", "")) {
        return false;
    }
    if args.priority.len() > 0 && !is_one_of(&args.priority, t.get_str_or("priority", "normal")) {
        return false;
    }
    match &args.name_contains {
        Some(needle) => {
            let needle = text::to_lowercase(needle.as_str());
            let name = text::to_lowercase(t.get_str_or("name", ""));
            text::contains(name.as_str(), needle.as_str())
        },
        None => true,
    }
}

fn find_wanted(args: &WaitArgs, items: &Vec<Json>) -> (r: Option<Json>)
    ensures
        json::opt_view(r) == first_wanted(*args, json::views(items@)),
{
    let mut i: usize = 0;
    let ghost all = json::views(items@);
    assert(all.skip(0) =~= all);
    while i < items.len()
        invariant
            i <= items.len(),
            all == json::views(items@),
            first_wanted(*args, all) == first_wanted(*args, all.skip(i as int)),
        decreases items.len() - i,
    {
        assert(all.skip(i as int).drop_first() =~= all.skip(i + 1));
        assert(all.skip(i as int)[0] == items@[i as int]@);
        if matches_task(args, &items[i]) {
            return Some(items[i].clone());
        }
        i = i + 1;
    }
    None
}

// ---------------------------------------------------------------------
// The wait
// ---------------------------------------------------------------------

/// What a waiter does next.
#[derive(Debug, Clone, Copy, PartialEq, Eq, Structural)]
pub enum WaitStep {
    /// It has waited long enough.
    Timeout,
    /// It asks the daemon, which may hold the query open for so many
    /// milliseconds; it reports first where `report` is set.
    Ask { report: bool, hold_ms: u64 },
}

/// The smaller of two numbers.
pub open spec fn least(a: int, b: int) -> int {
    if a < b {
        a
    } else {
        b
    }
}

/// Whether a report is due: there was none yet, or the last one is too old.
pub open spec fn report_due(args: WaitArgs, since_report_ms: Option<u64>) -> bool {
    since_report_ms matches Some(ms) ==> ms >= args.heartbeat * 1_000
}

/// How long the next query may be held open: to the end of the wait at the
/// most, and to the next report. Where a report goes with every query, reports
/// set no bound.
pub open spec fn hold(args: WaitArgs, elapsed_ms: u64, since_report_ms: Option<u64>) -> int {
    let to_end = least(HOLD_MS as int, args.timeout * 1_000 - elapsed_ms);
    if args.heartbeat == 0 {
        to_end
    } else if report_due(args, since_report_ms) {
        least(to_end, args.heartbeat * 1_000)
    } else {
        least(to_end, args.heartbeat * 1_000 - since_report_ms->0)
    }
}

/// What a waiter does next, so long after it began and after its last report.
pub open spec fn step_after(args: WaitArgs, elapsed_ms: u64, since_report_ms: Option<u64>) -> WaitStep {
    if elapsed_ms >= args.timeout * 1_000 {
        WaitStep::Timeout
    } else {
        WaitStep::Ask {
            report: report_due(args, since_report_ms),
            hold_ms: hold(args, elapsed_ms, since_report_ms) as u64,
        }
    }
}

/// What a waiter does next, so long after it began and after its last report.
pub fn next_step(args: &WaitArgs, elapsed_ms: u64, since_report_ms: Option<u64>) -> (r: WaitStep)
    ensures
        r == if elapsed_ms >= args.timeout * 1_000 {
            WaitStep::Timeout
        } else {
            WaitStep::Ask {
                report: report_due(*args, since_report_ms),
                hold_ms: hold(*args, elapsed_ms, since_report_ms) as u64,
            }
        },
        r matches WaitStep::Ask { hold_ms, .. } ==> hold_ms == hold(
            *args,
            elapsed_ms,
            since_report_ms,
        ) && 0 < hold_ms <= HOLD_MS,
        r == step_after(*args, elapsed_ms, since_report_ms),
{
    let timeout: u128 = args.timeout as u128 * 1_000;
    let interval: u128 = args.heartbeat as u128 * 1_000;
    if elapsed_ms as u128 >= timeout {
        return WaitStep::Timeout;
    }
    let (report, to_report): (bool, u128) = match since_report_ms {
        Some(ms) => if ms as u128 >= interval {
            (true, interval)
        } else {
            (false, interval - ms as u128)
        },
        None => (true, interval),
    };
    let mut held: u128 = timeout - elapsed_ms as u128;
    if interval > 0 && to_report < held {
        held = to_report;
    }
    if held > HOLD_MS as u128 {
        held = HOLD_MS as u128;
    }
    WaitStep::Ask { report, hold_ms: held as u64 }
}

/// What an answer means to a waiter.
#[derive(Debug)]
pub enum Verdict {
    /// This is the task.
    Found(Json),
    /// Not yet. It asks again, after a pause where `pause` is set.
    Again { pause: bool },
    /// The daemon could not be asked. It says so and asks again after a
    /// pause.
    Failed(String),
}

/// What a verdict holds.
#[verifier::ext_equal]
pub enum VerdictView {
    Found(JsonView),
    Again { pause: bool },
    Failed(Seq<char>),
}

impl View for Verdict {
    type V = VerdictView;

    open spec fn view(&self) -> VerdictView {
        match self {
            Verdict::Found(j) => VerdictView::Found(j@),
            Verdict::Again { pause } => VerdictView::Again { pause: *pause },
            Verdict::Failed(msg) => VerdictView::Failed(msg@),
        }
    }
}

/// What an answer means to a waiter.
pub open spec fn verdict(
    args: WaitArgs,
    hold_ms: u64,
    answer: Result<JsonView, Seq<char>>,
) -> VerdictView {
    match answer {
        Ok(v) => match first_wanted(args, printing::items_or_none(v)) {
            Some(t) => VerdictView::Found(t),
            None => VerdictView::Again {
                pause: hold_ms == 0 || printing::items_or_none(v).len() > 0,
            },
        },
        Err(e) => VerdictView::Failed("coord wait: list failed ("@ + e + ") — retrying"@),
    }
}

/// What an answer means: the first task that is waited for ends the wait.
/// Otherwise the waiter pauses, unless the daemon has held the query open
/// and found nothing at all.
pub fn judge(args: &WaitArgs, hold_ms: u64, answer: &Result<Json, String>) -> (r: Verdict)
    ensures
        match answer {
            Ok(v) => match (first_wanted(*args, printing::items_or_none(v@)), r) {
                (Some(t), Verdict::Found(j)) => j@ == t,
                (None, Verdict::Again { pause }) => pause == (hold_ms == 0 || printing::items_or_none(v@).len() > 0),
                _ => false,
            },
            Err(e) => r matches Verdict::Failed(msg) && msg@ == "coord wait: list failed ("@ + e@
                + ") — retrying"@,
        },
        r@ == verdict(*args, hold_ms, json::read_view(*answer)),
{
    match answer {
        Ok(v) => match v.as_array() {
            Some(list) => match find_wanted(args, list) {
                Some(t) => Verdict::Found(t),
                None => Verdict::Again { pause: hold_ms == 0 || list.len() > 0 },
            },
            None => Verdict::Again { pause: hold_ms == 0 },
        },
        Err(e) => {
            let mut msg = "coord wait: list failed (".to_owned();
            msg.append(e.as_str());
            msg.append(") — retrying");
            Verdict::Failed(msg)
        },
    }
}

/// A task ends a wait only where it is what is waited for, and where the
/// answer holds such a task the wait ends.
pub proof fn lemma_first_wanted(args: WaitArgs, list: Seq<JsonView>)
    ensures
        match first_wanted(args, list) {
            Some(t) => wanted(args, t) && list.contains(t),
            None => forall|i: int| 0 <= i < list.len() ==> !wanted(args, #[trigger] list[i]),
        },
    decreases list.len(),
{
    if list.len() > 0 {
        let rest = list.drop_first();
        lemma_first_wanted(args, rest);
        if wanted(args, list[0]) {
            assert(list.contains(list[0]));
        } else {
            match first_wanted(args, rest) {
                Some(t) => {
                    let k = choose|k: int| 0 <= k < rest.len() && rest[k] == t;
                    assert(list[k + 1] == t);
                },
                None => {
                    assert forall|i: int| 0 <= i < list.len() implies !wanted(
                        args,
                        #[trigger] list[i],
                    ) by {
                        if i > 0 {
                            assert(rest[i - 1] == list[i]);
                        }
                    }
                },
            }
        }
    }
}

/// What a waiter says that has waited in vain.
pub fn timeout_message(args: &WaitArgs) -> (r: String)
    ensures
        r@ == "coord wait: timeout after "@ + text::decimal(args.timeout as nat)
            + "s, no matching task"@,
{
    let mut msg = "coord wait: timeout after ".to_owned();
    msg.append(text::decimal_text(args.timeout).as_str());
    msg.append("s, no matching task");
    msg
}

// ---------------------------------------------------------------------
// What waiting is
// ---------------------------------------------------------------------

/// Where a kind is given and no state, announcements are waited for as
/// completed and all other work as pending; `any` asks for no state, and any
/// other state is asked for as it is.
pub proof fn lemma_states_waited_for(state: Option<Seq<char>>, kind: Option<Seq<char>>)
    ensures
        state == Some("any"@) ==> wanted_state(state, kind) is None,
        state is Some && state != Some("any"@) ==> wanted_state(state, kind) == state,
        state is None && (kind == Some("ack"@) || kind == Some("knowledge"@) || kind == Some(
            "decision"@,
        )) ==> wanted_state(state, kind) == Some("completed"@),
        state is None && kind != Some("ack"@) && kind != Some("knowledge"@) && kind != Some(
            "decision"@,
        ) ==> wanted_state(state, kind) == Some("pending"@),
{
}

/// A query asks for at most two hundred tasks of the state and the kind that
/// are waited for, and to be held open for the given time. What is not given
/// is not asked for.
pub proof fn lemma_query(state: Option<Seq<char>>, kind: Option<Seq<char>>, wait_ms: u64)
    ensures
        ({
            let q = query(state, kind, wait_ms);
            &&& json::member(q, "limit"@) == Some(JsonView::Int(200))
            &&& json::member(q, "wait_ms"@) == Some(JsonView::Int(wait_ms as int))
            &&& json::member_text(q, "kind"@) == kind
            &&& kind is None ==> json::member(q, "kind"@) is None
            &&& json::member_text(q, "state"@) == wanted_state(state, kind)
            &&& wanted_state(state, kind) is None ==> json::member(q, "state"@) is None
            &&& json::member(q, "priority"@) is None
        }),
{
    reveal_strlit("limit");
    reveal_strlit("state");
    reveal_strlit("kind");
    reveal_strlit("wait_ms");
    reveal_strlit("priority");
    assert("limit"@[0] != "state"@[0]);
    assert("limit"@.len() == 5 && "state"@.len() == 5 && "kind"@.len() == 4);
    assert("wait_ms"@.len() == 7 && "priority"@.len() == 8);
    let m = Seq::<(Seq<char>, JsonView)>::empty();
    let limit = JsonView::Int(WAIT_LIMIT as int);
    json::lemma_member_set(m, "limit"@, limit);
    let m = json::with_member(m, "limit"@, limit);
    match wanted_state(state, kind) {
        Some(t) => json::lemma_member_set(m, "state"@, JsonView::Text(t)),
        None => {},
    }
    let m = with_text(m, "state"@, wanted_state(state, kind));
    match kind {
        Some(t) => json::lemma_member_set(m, "kind"@, JsonView::Text(t)),
        None => {},
    }
    let m = with_text(m, "kind"@, kind);
    json::lemma_member_set(m, "wait_ms"@, JsonView::Int(wait_ms as int));
}

/// A task is matched wherever the text that is waited for stands in its name,
/// whatever is before and behind it, in any case.
pub proof fn lemma_names_match_anywhere(
    args: WaitArgs,
    t: JsonView,
    id: Seq<char>,
    name: Seq<char>,
    a: Seq<char>,
    b: Seq<char>,
)
    requires
        json::member(t, "id"@) == Some(JsonView::Text(id)),
        json::member(t, "name"@) == Some(JsonView::Text(name)),
        forall|i: int| 0 <= i < args.ignore_ids@.len() ==> (#[trigger] args.ignore_ids@[i])@ != id,
        args.priority@.len() == 0 || exists|i: int|
            0 <= i < args.priority@.len() && json::member(t, "priority"@) == Some(
                JsonView::Text((#[trigger] args.priority@[i])@),
            ),
        args.name_contains matches Some(n) && text::lowercase(name) == a + text::lowercase(n@) + b,
    ensures
        wanted(args, t),
        forall|list: Seq<JsonView>| list.contains(t) ==> #[trigger] first_wanted(args, list) is Some,
{
    lemma_match(args, t);
    let n = text::lowercase(args.name_contains->0@);
    assert(text::lowercase(name) == ((a + n) + b));
    if args.priority@.len() > 0 {
        let i = choose|i: int|
            0 <= i < args.priority@.len() && json::member(t, "priority"@) == Some(
                JsonView::Text((#[trigger] args.priority@[i])@),
            );
        assert(args.priority@[i]@ == json::member_text_or(t, "priority"@, "normal"@));
    }
    assert forall|list: Seq<JsonView>| list.contains(t) implies #[trigger] first_wanted(
        args,
        list,
    ) is Some by {
        lemma_first_wanted(args, list);
    }
}

/// Whether a text stands somewhere in a name.
pub open spec fn stands_in(n: Seq<char>, name: Seq<char>) -> bool {
    exists|a: Seq<char>, b: Seq<char>| name == #[trigger] ((a + n) + b)
}

/// A task is what is waited for exactly where three things hold: its
/// identifier is none of those to ignore; its priority, which is `normal`
/// where it has none, is one of those asked for, if any are; and its name
/// holds the text that is waited for, if there is one, in any case.
pub proof fn lemma_match(args: WaitArgs, t: JsonView)
    ensures
        wanted(args, t) <==> {
            &&& forall|i: int|
                0 <= i < args.ignore_ids@.len() ==> (#[trigger] args.ignore_ids@[i])@
                    != json::member_text_or(t, "id"@, ""@)
            &&& args.priority@.len() > 0 ==> exists|i: int|
                0 <= i < args.priority@.len() && (#[trigger] args.priority@[i])@
                    == json::member_text_or(t, "priority"@, "normal"@)
            &&& (args.name_contains matches Some(n) ==> stands_in(
                text::lowercase(n@),
                text::lowercase(json::member_text_or(t, "name"@, ""@)),
            ))
        },
{
    let id = json::member_text_or(t, "id"@, ""@);
    let priority = json::member_text_or(t, "priority"@, "normal"@);
    let ignored = text::texts(args.ignore_ids@);
    let asked = text::texts(args.priority@);
    if ignored.contains(id) {
        let i = choose|i: int| 0 <= i < ignored.len() && ignored[i] == id;
        assert(args.ignore_ids@[i]@ == id);
    }
    assert forall|i: int| 0 <= i < args.ignore_ids@.len() implies (
    #[trigger] args.ignore_ids@[i])@ == ignored[i] by {}
    if asked.contains(priority) {
        let i = choose|i: int| 0 <= i < asked.len() && asked[i] == priority;
        assert(args.priority@[i]@ == priority);
    }
    assert forall|i: int| 0 <= i < args.priority@.len() implies (#[trigger] args.priority@[i])@
        == asked[i] by {}
    match args.name_contains {
        Some(n) => text::lemma_occurs(
            text::lowercase(n@),
            text::lowercase(json::member_text_or(t, "name"@, ""@)),
        ),
        None => {},
    }
}

/// A waiter that sets no condition takes every task, and the first one ends
/// its wait.
pub proof fn lemma_any_task_will_do(args: WaitArgs, list: Seq<JsonView>)
    requires
        args.ignore_ids@.len() == 0,
        args.priority@.len() == 0,
        args.name_contains is None,
    ensures
        list.len() > 0 ==> first_wanted(args, list) == Some(list[0]),
        list.len() == 0 ==> first_wanted(args, list) is None,
{
}

/// The task that ends a wait is the first of an answer that is waited for: it
/// stands in the answer, and none of those before it is waited for.
pub proof fn lemma_first_match_is_first(args: WaitArgs, list: Seq<JsonView>)
    ensures
        first_wanted(args, list) matches Some(t) ==> exists|i: int|
            0 <= i < list.len() && #[trigger] list[i] == t && wanted(args, t) && forall|j: int|
                0 <= j < i ==> !wanted(args, #[trigger] list[j]),
    decreases list.len(),
{
    if list.len() > 0 {
        let rest = list.drop_first();
        lemma_first_match_is_first(args, rest);
        if wanted(args, list[0]) {
            assert(list[0] == list[0]);
        } else {
            match first_wanted(args, rest) {
                Some(t) => {
                    let i = choose|i: int|
                        0 <= i < rest.len() && #[trigger] rest[i] == t && wanted(args, t)
                            && forall|j: int| 0 <= j < i ==> !wanted(args, #[trigger] rest[j]);
                    assert(list[i + 1] == t);
                    assert forall|j: int| 0 <= j < i + 1 implies !wanted(args, #[trigger] list[j]) by {
                        if j > 0 {
                            assert(rest[j - 1] == list[j]);
                        }
                    }
                },
                None => {},
            }
        }
    }
}

/// A wait ends with a task, or in vain after its time and not before. A query
/// is held open for as long as it may be: for twenty seconds, to the end of
/// the wait or to the next report, whichever comes first, and never past any
/// of these. A report goes out first, and again when its interval is over.
pub proof fn lemma_waiting(args: WaitArgs, elapsed_ms: u64, since_report_ms: Option<u64>)
    ensures
        match step_after(args, elapsed_ms, since_report_ms) {
            WaitStep::Timeout => elapsed_ms >= args.timeout * 1_000,
            WaitStep::Ask { report, hold_ms } => {
                &&& elapsed_ms < args.timeout * 1_000
                &&& since_report_ms is None ==> report
                &&& (since_report_ms matches Some(ms) ==> report == (ms >= args.heartbeat
                    * 1_000))
                &&& 0 < hold_ms <= 20_000
                &&& elapsed_ms + hold_ms <= args.timeout * 1_000
                &&& args.heartbeat > 0 && report ==> hold_ms <= args.heartbeat * 1_000
                &&& args.heartbeat > 0 && !report ==> since_report_ms->0 + hold_ms
                    <= args.heartbeat * 1_000
                &&& hold_ms == 20_000 || elapsed_ms + hold_ms == args.timeout * 1_000 || (
                args.heartbeat > 0 && hold_ms == args.heartbeat * 1_000 - if report {
                    0
                } else {
                    since_report_ms->0 as int
                })
            },
        },
{
}

/// An answer with a task that is waited for ends the wait, and nothing else
/// does. A waiter asks again at once only where the daemon held its query open
/// and had nothing to show; the fault of a failed query is passed on.
pub proof fn lemma_verdicts(args: WaitArgs, hold_ms: u64, answer: Result<JsonView, Seq<char>>)
    ensures
        match (answer, verdict(args, hold_ms, answer)) {
            (Ok(JsonView::Array(list)), VerdictView::Found(t)) => list.contains(t) && wanted(
                args,
                t,
            ),
            (Ok(JsonView::Array(list)), VerdictView::Again { pause }) => {
                &&& forall|i: int| 0 <= i < list.len() ==> !wanted(args, #[trigger] list[i])
                &&& !pause <==> hold_ms > 0 && list.len() == 0
            },
            (Ok(v), VerdictView::Again { pause }) => !(v is Array) && (!pause <==> hold_ms > 0),
            (Err(e), VerdictView::Failed(msg)) => text::occurs_in(e, msg),
            _ => false,
        },
{
    match answer {
        Ok(JsonView::Array(list)) => lemma_first_wanted(args, list),
        Ok(_) => {},
        Err(e) => {
            let msg = ("coord wait: list failed ("@ + e) + ") — retrying"@;
            text::lemma_occurs(e, msg);
        },
    }
}

} // verus!
