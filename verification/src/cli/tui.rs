//! The dashboard: its state, what keys do to it, and what a frame shows.
//!
//! A frame is worked out as data. Putting it on a terminal, reading keys and
//! calling the daemon are left to the program.

use vstd::prelude::*;

use crate::cli::printing;
use crate::json;
use crate::json::{Json, JsonView};
use crate::model;
use crate::text;

verus! {

// ---------------------------------------------------------------------
// Filters
// ---------------------------------------------------------------------

/// Which tasks the dashboard shows.
#[derive(Debug, Clone, Copy, PartialEq, Eq, Structural)]
pub enum Filter {
    /// Work that is pending or claimed, and announcements as context.
    Active,
    /// The same, and what has failed.
    Attention,
    /// Everything.
    All,
}

/// The name of a filter.
pub open spec fn filter_label(f: Filter) -> Seq<char> {
    match f {
        Filter::Active => "active"@,
        Filter::Attention => "attention"@,
        Filter::All => "all"@,
    }
}

/// The filter that comes after another one.
pub open spec fn next_filter(f: Filter) -> Filter {
    match f {
        Filter::Active => Filter::Attention,
        Filter::Attention => Filter::All,
        Filter::All => Filter::Active,
    }
}

/// Whether a filter shows a task with the given state and kind.
pub open spec fn shows(f: Filter, state: Seq<char>, kind: Seq<char>) -> bool {
    let announcement = model::is_announcement(kind);
    match f {
        Filter::All => true,
        Filter::Active => state == "pending"@ || state == "claimed"@ || announcement,
        Filter::Attention => state == "pending"@ || state == "claimed"@ || state == "failed"@
            || announcement,
    }
}

impl Default for Filter {
    fn default() -> (f: Filter)
        ensures
            f == Filter::Active,
    {
        Filter::Active
    }
}

impl Filter {
    /// The name of the filter.
    pub fn label(&self) -> (r: &'static str)
        ensures
            r@ == filter_label(*self),
    {
        match self {
            Filter::Active => "active",
            Filter::Attention => "attention",
            Filter::All => "all",
        }
    }

    /// The filter that comes after this one.
    pub fn cycle(self) -> (r: Filter)
        ensures
            r == next_filter(self),
    {
        match self {
            Filter::Active => Filter::Attention,
            Filter::Attention => Filter::All,
            Filter::All => Filter::Active,
        }
    }

    /// Whether the filter shows a task with the given state and kind.
    pub fn matches(&self, state: &str, kind: &str) -> (r: bool)
        ensures
            r == shows(*self, state@, kind@),
    {
        let announcement = text::same(kind, "ack") || text::same(kind, "knowledge") || text::same(
            kind,
            "decision",
        );
        match self {
            Filter::All => true,
            Filter::Active => text::same(state, "pending") || text::same(state, "claimed")
                || announcement,
            Filter::Attention => text::same(state, "pending") || text::same(state, "claimed")
                || text::same(state, "failed") || announcement,
        }
    }
}

/// Three steps lead back to the same filter, and no fewer.
pub proof fn lemma_filters_cycle(f: Filter)
    ensures
        next_filter(next_filter(next_filter(f))) == f,
        next_filter(f) != f,
        next_filter(next_filter(f)) != f,
{
}

/// Each filter shows at least what the one before it shows.
pub proof fn lemma_filters_widen(state: Seq<char>, kind: Seq<char>)
    ensures
        shows(Filter::Active, state, kind) ==> shows(Filter::Attention, state, kind),
        shows(Filter::Attention, state, kind) ==> shows(Filter::All, state, kind),
{
}

/// Whether a filter shows a task.
pub open spec fn shows_task(f: Filter, t: JsonView) -> bool {
    shows(f, json::member_text_or(t, "state"@, ""@), json::member_text_or(t, "kind"@, "task"@))
}

/// The tasks that a filter shows.
pub open spec fn shown_tasks(tasks: Seq<JsonView>, f: Filter) -> Seq<JsonView>
    decreases tasks.len(),
{
    if tasks.len() == 0 {
        Seq::empty()
    } else if shows_task(f, tasks.last()) {
        shown_tasks(tasks.drop_last(), f).push(tasks.last())
    } else {
        shown_tasks(tasks.drop_last(), f)
    }
}

/// The tasks that a filter shows.
pub fn filter_tasks(tasks: &Vec<Json>, filter: Filter) -> (r: Vec<Json>)
    ensures
        json::views(r@) == shown_tasks(json::views(tasks@), filter),
{
    let mut out: Vec<Json> = Vec::new();
    let mut i: usize = 0;
    let ghost all = json::views(tasks@);
    assert(json::views(out@) =~= shown_tasks(all.take(0), filter));
    while i < tasks.len()
        invariant
            i <= tasks.len(),
            all == json::views(tasks@),
            json::views(out@) == shown_tasks(all.take(i as int), filter),
        decreases tasks.len() - i,
    {
        let ghost seen = all.take(i + 1);
        let ghost before = out@;
        assert(seen.drop_last() =~= all.take(i as int));
        assert(seen.last() == tasks@[i as int]@);
        if filter.matches(tasks[i].get_str_or("state", ""), tasks[i].get_str_or("kind", "task")) {
            out.push(tasks[i].clone());
            assert(json::views(out@) =~= json::views(before).push(seen.last()));
        }
        i = i + 1;
    }
    assert(all.take(all.len() as int) =~= all);
    out
}

// ---------------------------------------------------------------------
// State
// ---------------------------------------------------------------------

/// What the dashboard knows and shows.
#[derive(Debug)]
pub struct TopState {
    pub agents: Vec<Json>,
    pub tasks: Vec<Json>,
    pub filter: Filter,
    /// Agents that are stale are not shown.
    pub hide_stale_agents: bool,
    pub show_detail: bool,
    pub paused: bool,
    /// The row that is marked, among the tasks that are shown.
    pub selected: usize,
    pub last_err: Option<String>,
    pub status: Option<String>,
    pub sent_test_count: u64,
}

/// What the state of a dashboard holds.
#[verifier::ext_equal]
pub struct TopView {
    pub agents: Seq<JsonView>,
    pub tasks: Seq<JsonView>,
    pub filter: Filter,
    pub hide_stale_agents: bool,
    pub show_detail: bool,
    pub paused: bool,
    pub selected: int,
    pub last_err: Option<Seq<char>>,
    pub status: Option<Seq<char>>,
    pub sent_test_count: int,
}

impl View for TopState {
    type V = TopView;

    open spec fn view(&self) -> TopView {
        TopView {
            agents: json::views(self.agents@),
            tasks: json::views(self.tasks@),
            filter: self.filter,
            hide_stale_agents: self.hide_stale_agents,
            show_detail: self.show_detail,
            paused: self.paused,
            selected: self.selected as int,
            last_err: text::opt_text(self.last_err),
            status: text::opt_text(self.status),
            sent_test_count: self.sent_test_count as int,
        }
    }
}

/// The state of a dashboard that has just been opened.
pub open spec fn opening() -> TopView {
    TopView {
        agents: Seq::empty(),
        tasks: Seq::empty(),
        filter: Filter::Active,
        hide_stale_agents: true,
        show_detail: true,
        paused: false,
        selected: 0,
        last_err: None,
        status: None,
        sent_test_count: 0,
    }
}

impl Default for TopState {
    fn default() -> (s: TopState)
        ensures
            s@ == opening(),
    {
        let s = TopState {
            agents: Vec::new(),
            tasks: Vec::new(),
            filter: Filter::default(),
            hide_stale_agents: true,
            show_detail: true,
            paused: false,
            selected: 0,
            last_err: None,
            status: None,
            sent_test_count: 0,
        };
        assert(s@ =~= opening());
        s
    }
}

/// How often the dashboard asks the daemon, in milliseconds.
pub const TICK_MS: u64 = 500;

/// How long a message stays on the status line, in milliseconds.
pub const STATUS_MS: u64 = 3_000;

/// How many tasks the dashboard asks for.
pub const TASK_LIMIT: u64 = 200;

/// The state after the daemon was asked: what could not be had stays as it
/// was, and the last failure is shown.
pub open spec fn refreshed(
    s: TopView,
    agents: Result<JsonView, Seq<char>>,
    tasks: Result<JsonView, Seq<char>>,
) -> TopView {
    TopView {
        agents: match agents {
            Ok(v) => printing::items_or_none(v),
            Err(_) => s.agents,
        },
        tasks: match tasks {
            Ok(v) => printing::items_or_none(v),
            Err(_) => s.tasks,
        },
        last_err: match (agents, tasks) {
            (_, Err(e)) => Some(e),
            (Err(e), Ok(_)) => Some(e),
            (Ok(_), Ok(_)) => None,
        },
        ..s
    }
}

/// What an answer of the daemon holds.
pub open spec fn answer(r: Result<Json, String>) -> Result<JsonView, Seq<char>> {
    match r {
        Ok(v) => Ok(v@),
        Err(e) => Err(e@),
    }
}

fn items_of(v: &Json) -> (r: Vec<Json>)
    ensures
        json::views(r@) == printing::items_or_none(v@),
{
    match v.as_array() {
        Some(items) => json::clone_all(items),
        None => {
            let none: Vec<Json> = Vec::new();
            assert(json::views(none@) =~= Seq::<JsonView>::empty());
            none
        },
    }
}

/// The marked row, no further down than the last row there is.
pub open spec fn in_reach(selected: int, rows: nat) -> int {
    if selected >= rows && rows > 0 {
        rows - 1
    } else {
        selected
    }
}

/// Whether the daemon is to be asked again.
pub open spec fn is_due(paused: bool, since_last_ms: u64) -> bool {
    !paused && since_last_ms >= TICK_MS
}

/// What is left of a message of the given age.
pub open spec fn status_left(status: Option<Seq<char>>, age_ms: u64) -> Option<Seq<char>> {
    if age_ms > STATUS_MS {
        None
    } else {
        status
    }
}

impl TopState {
    /// Whether the daemon is to be asked again.
    pub fn refresh_due(&self, since_last_ms: u64) -> (r: bool)
        ensures
            r == (!self@.paused && since_last_ms >= TICK_MS),
            r == is_due(self@.paused, since_last_ms),
    {
        !self.paused && since_last_ms >= TICK_MS
    }

    /// Takes in what the daemon answered. Returns whether all could be had.
    pub fn refresh(&mut self, agents: Result<Json, String>, tasks: Result<Json, String>) -> (ok:
        bool)
        ensures
            final(self)@ == refreshed(old(self)@, answer(agents), answer(tasks)),
            ok == (agents is Ok && tasks is Ok),
    {
        let mut new_err: Option<String> = None;
        match agents {
            Ok(v) => self.agents = items_of(&v),
            Err(e) => new_err = Some(e),
        }
        match tasks {
            Ok(v) => self.tasks = items_of(&v),
            Err(e) => new_err = Some(e),
        }
        let ok = new_err.is_none();
        self.last_err = new_err;
        ok
    }

    /// Takes the message off the status line once it has stood there long
    /// enough.
    pub fn expire_status(&mut self, age_ms: u64)
        ensures
            final(self)@ == (TopView {
                status: if age_ms > STATUS_MS {
                    None
                } else {
                    old(self)@.status
                },
                ..old(self)@
            }),
            final(self)@.status == status_left(old(self)@.status, age_ms),
    {
        if age_ms > STATUS_MS {
            self.status = None;
        }
    }

    /// Moves the mark up where there are fewer rows than before. Returns the
    /// marked row, `None` where there are no rows.
    pub fn settle(&mut self, rows: usize) -> (r: Option<usize>)
        ensures
            final(self)@ == (TopView {
                selected: in_reach(old(self)@.selected, rows as nat),
                ..old(self)@
            }),
            match r {
                Some(i) => rows > 0 && i < rows && i == final(self)@.selected,
                None => rows == 0,
            },
    {
        if self.selected >= rows && rows > 0 {
            self.selected = rows - 1;
        }
        if rows == 0 {
            None
        } else {
            Some(self.selected)
        }
    }
}

// ---------------------------------------------------------------------
// Keys
// ---------------------------------------------------------------------

/// A key that was pressed.
#[derive(Debug, Clone, Copy, PartialEq, Eq, Structural)]
pub enum Key {
    Char(char),
    Esc,
    Up,
    Down,
    Other,
}

/// What is to be done about a key.
#[derive(Debug, PartialEq, Eq)]
pub enum Action {
    /// Nothing more.
    Nothing,
    /// The dashboard closes.
    Quit,
    /// The daemon is asked again at once.
    Refresh,
    /// A task with this name is posted.
    Send(String),
    /// The task with this identifier is called off.
    Cancel(String),
}

/// What an action holds.
#[verifier::ext_equal]
pub enum ActionView {
    Nothing,
    Quit,
    Refresh,
    Send(Seq<char>),
    Cancel(Seq<char>),
}

impl View for Action {
    type V = ActionView;

    open spec fn view(&self) -> ActionView {
        match self {
            Action::Nothing => ActionView::Nothing,
            Action::Quit => ActionView::Quit,
            Action::Refresh => ActionView::Refresh,
            Action::Send(s) => ActionView::Send(s@),
            Action::Cancel(s) => ActionView::Cancel(s@),
        }
    }
}

/// The state with a message on the status line.
pub open spec fn with_status(s: TopView, msg: Seq<char>) -> TopView {
    TopView { status: Some(msg), ..s }
}

/// What a key makes of the state, and what else is to be done.
pub open spec fn pressed(s: TopView, key: Key, visible: Seq<JsonView>) -> (TopView, ActionView) {
    match key {
        Key::Char('q') | Key::Esc => (s, ActionView::Quit),
        Key::Char('j') | Key::Down => if visible.len() == 0 {
            (s, ActionView::Nothing)
        } else {
            (
                TopView {
                    selected: if s.selected + 1 < visible.len() {
                        s.selected + 1
                    } else {
                        visible.len() - 1
                    },
                    ..s
                },
                ActionView::Nothing,
            )
        },
        Key::Char('k') | Key::Up => (
            TopView {
                selected: if s.selected > 0 {
                    s.selected - 1
                } else {
                    0
                },
                ..s
            },
            ActionView::Nothing,
        ),
        Key::Char('g') => (TopView { selected: 0, ..s }, ActionView::Nothing),
        Key::Char('G') => if visible.len() == 0 {
            (s, ActionView::Nothing)
        } else {
            (TopView { selected: visible.len() - 1, ..s }, ActionView::Nothing)
        },
        Key::Char('f') => (TopView { filter: next_filter(s.filter), ..s }, ActionView::Nothing),
        Key::Char('A') => (
            with_status(
                TopView { hide_stale_agents: !s.hide_stale_agents, ..s },
                if s.hide_stale_agents {
                    "showing all agents"@
                } else {
                    "hiding agents idle > 60s"@
                },
            ),
            ActionView::Nothing,
        ),
        Key::Char('d') => (TopView { show_detail: !s.show_detail, ..s }, ActionView::Nothing),
        Key::Char('p') => (
            with_status(
                TopView { paused: !s.paused, ..s },
                if s.paused {
                    "resumed"@
                } else {
                    "paused"@
                },
            ),
            ActionView::Nothing,
        ),
        Key::Char('r') => (s, ActionView::Refresh),
        Key::Char('s') => (
            TopView { sent_test_count: s.sent_test_count + 1, ..s },
            ActionView::Send("top-test-"@ + text::decimal((s.sent_test_count + 1) as nat)),
        ),
        Key::Char('c') => if 0 <= s.selected < visible.len() {
            match json::member_text(visible[s.selected], "id"@) {
                Some(id) => (s, ActionView::Cancel(id)),
                None => (s, ActionView::Nothing),
            }
        } else {
            (s, ActionView::Nothing)
        },
        _ => (s, ActionView::Nothing),
    }
}

/// What is said of a posting.
pub open spec fn sent_text(r: Result<JsonView, Seq<char>>) -> Seq<char> {
    match r {
        Ok(t) => "sent "@ + text::first_chars(json::member_text_or(t, "id"@, "?"@), 8),
        Err(e) => "send failed: "@ + e,
    }
}

/// What is said of a cancellation.
pub open spec fn cancelled_text(id: Seq<char>, r: Result<JsonView, Seq<char>>) -> Seq<char> {
    match r {
        Ok(_) => "cancelled "@ + text::first_chars(id, 8),
        Err(e) => "cancel failed: "@ + e,
    }
}

impl TopState {
    fn set_status(&mut self, msg: &str)
        ensures
            final(self)@ == with_status(old(self)@, msg@),
    {
        self.status = Some(msg.to_owned());
    }

    /// Takes in a key.
    pub fn on_key(&mut self, key: Key, visible: &Vec<Json>) -> (r: Action)
        requires
            old(self)@.sent_test_count < u64::MAX,
        ensures
            (final(self)@, r@) == pressed(old(self)@, key, json::views(visible@)),
    {
        match key {
            Key::Char('q') | Key::Esc => return Action::Quit,
            Key::Char('j') | Key::Down => {
                if visible.len() > 0 {
                    if self.selected < visible.len() - 1 {
                        self.selected = self.selected + 1;
                    } else {
                        self.selected = visible.len() - 1;
                    }
                }
            },
            Key::Char('k') | Key::Up => {
                if self.selected > 0 {
                    self.selected = self.selected - 1;
                }
            },
            Key::Char('g') => self.selected = 0,
            Key::Char('G') => {
                if visible.len() > 0 {
                    self.selected = visible.len() - 1;
                }
            },
            Key::Char('f') => self.filter = self.filter.cycle(),
            Key::Char('A') => {
                self.hide_stale_agents = !self.hide_stale_agents;
                if self.hide_stale_agents {
                    self.set_status("hiding agents idle > 60s");
                } else {
                    self.set_status("showing all agents");
                }
            },
            Key::Char('d') => self.show_detail = !self.show_detail,
            Key::Char('p') => {
                self.paused = !self.paused;
                if self.paused {
                    self.set_status("paused");
                } else {
                    self.set_status("resumed");
                }
            },
            Key::Char('r') => return Action::Refresh,
            Key::Char('s') => {
                self.sent_test_count = self.sent_test_count + 1;
                let mut name = "top-test-".to_owned();
                name.append(text::decimal_text(self.sent_test_count).as_str());
                return Action::Send(name);
            },
            Key::Char('c') => {
                if self.selected < visible.len() {
                    assert(json::views(visible@)[self.selected as int]
                        == visible@[self.selected as int]@);
                    match visible[self.selected].get_str("id") {
                        Some(id) => return Action::Cancel(id.to_owned()),
                        None => {},
                    }
                }
            },
            _ => {},
        }
        Action::Nothing
    }

    /// Takes in that the daemon was asked at the user's wish.
    pub fn on_refreshed(&mut self)
        ensures
            final(self)@ == with_status(old(self)@, "refreshed"@),
    {
        self.set_status("refreshed");
    }

    /// Takes in what came of posting a task.
    pub fn on_sent(&mut self, r: &Result<Json, String>)
        ensures
            final(self)@ == with_status(
                old(self)@,
                match answer(*r) {
                    Ok(t) => "sent "@ + text::first_chars(
                        json::member_text_or(t, "id"@, "?"@),
                        8,
                    ),
                    Err(e) => "send failed: "@ + e,
                },
            ),
            final(self)@.status == Some(sent_text(answer(*r))),
    {
        let msg = match r {
            Ok(t) => {
                let mut msg = "sent ".to_owned();
                msg.append(text::take_chars(t.get_str_or("id", "?"), 8).as_str());
                msg
            },
            Err(e) => {
                let mut msg = "send failed: ".to_owned();
                msg.append(e.as_str());
                msg
            },
        };
        self.set_status(msg.as_str());
    }

    /// Takes in what came of calling a task off.
    pub fn on_cancelled(&mut self, id: &str, r: &Result<Json, String>)
        ensures
            final(self)@ == with_status(
                old(self)@,
                match answer(*r) {
                    Ok(_) => "cancelled "@ + text::first_chars(id@, 8),
                    Err(e) => "cancel failed: "@ + e,
                },
            ),
            final(self)@.status == Some(cancelled_text(id@, answer(*r))),
    {
        let msg = match r {
            Ok(_) => {
                let mut msg = "cancelled ".to_owned();
                msg.append(text::take_chars(id, 8).as_str());
                msg
            },
            Err(e) => {
                let mut msg = "cancel failed: ".to_owned();
                msg.append(e.as_str());
                msg
            },
        };
        self.set_status(msg.as_str());
    }
}

/// Whatever key is pressed, the mark stays on a row where it was on one.
pub proof fn lemma_mark_stays_on_a_row(s: TopView, key: Key, visible: Seq<JsonView>)
    requires
        0 <= s.selected < visible.len(),
    ensures
        0 <= pressed(s, key, visible).0.selected < visible.len(),
{
}

// ---------------------------------------------------------------------
// What the dashboard shows and does
// ---------------------------------------------------------------------

/// Work is shown by its state and announcements always: `ack`, `knowledge` and
/// `decision` and no other kinds are announcements. What has failed is shown
/// where attention is asked for, and everything where all is.
pub proof fn lemma_filters(state: Seq<char>, kind: Seq<char>)
    ensures
        shows(Filter::All, state, kind),
        shows(Filter::Active, state, kind) <==> state == "pending"@ || state == "claimed"@ || kind
            == "ack"@ || kind == "knowledge"@ || kind == "decision"@,
        shows(Filter::Attention, state, kind) <==> state == "failed"@ || shows(
            Filter::Active,
            state,
            kind,
        ),
{
}

/// Each task is shown or not by itself, and those that are shown keep their
/// order; a task without a kind is a plain one.
pub proof fn lemma_shown_tasks(a: Seq<JsonView>, b: Seq<JsonView>, f: Filter, t: JsonView)
    ensures
        shown_tasks(a + b, f) == shown_tasks(a, f) + shown_tasks(b, f),
        shown_tasks(seq![t], f) == if shows(
            f,
            json::member_text_or(t, "state"@, ""@),
            json::member_text_or(t, "kind"@, "task"@),
        ) {
            seq![t]
        } else {
            Seq::empty()
        },
        shown_tasks(a, Filter::All) == a,
    decreases a.len() + b.len(),
{
    let one = seq![t];
    assert(one.drop_last() =~= Seq::<JsonView>::empty());
    assert(shown_tasks(one.drop_last(), f) == Seq::<JsonView>::empty());
    assert(Seq::<JsonView>::empty().push(t) =~= one);
    if b.len() == 0 {
        assert(a + b =~= a);
        assert(shown_tasks(a, f) + shown_tasks(b, f) =~= shown_tasks(a, f));
    } else {
        lemma_shown_tasks(a, b.drop_last(), f, t);
        assert((a + b).drop_last() =~= a + b.drop_last());
        assert((a + b).last() == b.last());
        assert(shown_tasks(a + b, f) =~= shown_tasks(a, f) + shown_tasks(b, f));
    }
    if a.len() > 0 {
        lemma_shown_tasks(a.drop_last(), Seq::empty(), f, t);
        assert(a.drop_last().push(a.last()) =~= a);
    }
    assert(shown_tasks(a, Filter::All) =~= a);
}

/// What the daemon answered takes the place of what was there, as it is; what
/// it failed to answer stays, and its words are on show until it answers again.
/// Nothing else changes.
pub proof fn lemma_refreshing(
    s: TopView,
    agents: Result<JsonView, Seq<char>>,
    tasks: Result<JsonView, Seq<char>>,
)
    ensures
        ({
            let after = refreshed(s, agents, tasks);
            &&& (agents matches Ok(JsonView::Array(items)) ==> after.agents == items)
            &&& (tasks matches Ok(JsonView::Array(items)) ==> after.tasks == items)
            &&& agents is Err ==> after.agents == s.agents
            &&& tasks is Err ==> after.tasks == s.tasks
            &&& after.last_err is None <==> agents is Ok && tasks is Ok
            &&& (after.last_err matches Some(e) ==> agents == Err::<JsonView, Seq<char>>(e)
                || tasks == Err::<JsonView, Seq<char>>(e))
            &&& after.filter == s.filter && after.hide_stale_agents == s.hide_stale_agents
            &&& after.show_detail == s.show_detail && after.paused == s.paused
            &&& after.selected == s.selected && after.status == s.status
            &&& after.sent_test_count == s.sent_test_count
        }),
{
}

/// A dashboard that is not paused asks twice a second, a paused one never, and
/// a message stands for three seconds.
pub proof fn lemma_pace(since_last_ms: u64, status: Option<Seq<char>>, age_ms: u64)
    ensures
        is_due(false, since_last_ms) <==> since_last_ms >= 500,
        !is_due(true, since_last_ms),
        age_ms <= 3_000 ==> status_left(status, age_ms) == status,
        age_ms > 3_000 ==> status_left(status, age_ms) is None,
        TASK_LIMIT == 200,
{
}

/// A dashboard opens with nothing known, on what is active, at the top, with
/// details, without stale agents and running.
pub proof fn lemma_opening()
    ensures
        ({
            let s = opening();
            &&& s.agents.len() == 0 && s.tasks.len() == 0
            &&& s.filter == Filter::Active && s.selected == 0
            &&& s.hide_stale_agents && s.show_detail && !s.paused
            &&& s.last_err is None && s.status is None && s.sent_test_count == 0
        }),
{
}

/// The mark is moved only where it is below the last row, and then to the last
/// row.
pub proof fn lemma_mark_in_reach(selected: int, rows: nat)
    requires
        0 <= selected,
    ensures
        selected < rows ==> in_reach(selected, rows) == selected,
        rows > 0 && selected >= rows ==> in_reach(selected, rows) + 1 == rows,
        rows == 0 ==> in_reach(selected, rows) == selected,
{
}

/// No key but the one for it changes anything of what the dashboard knows or
/// how it shows it, and no key changes the agents and tasks that it knows.
pub proof fn lemma_keys_keep_to_their_own(s: TopView, key: Key, visible: Seq<JsonView>)
    ensures
        ({
            let (after, act) = pressed(s, key, visible);
            &&& after.agents == s.agents && after.tasks == s.tasks && after.last_err == s.last_err
            &&& key != Key::Char('f') ==> after.filter == s.filter
            &&& key != Key::Char('A') ==> after.hide_stale_agents == s.hide_stale_agents
            &&& key != Key::Char('d') ==> after.show_detail == s.show_detail
            &&& key != Key::Char('p') ==> after.paused == s.paused
            &&& key != Key::Char('s') ==> after.sent_test_count == s.sent_test_count
            &&& key != Key::Char('A') && key != Key::Char('p') ==> after.status == s.status
            &&& !(key == Key::Char('j') || key == Key::Down || key == Key::Char('k') || key
                == Key::Up || key == Key::Char('g') || key == Key::Char('G')) ==> after.selected
                == s.selected
            &&& act is Quit <==> key == Key::Char('q') || key == Key::Esc
            &&& act is Refresh <==> key == Key::Char('r')
            &&& act is Send <==> key == Key::Char('s')
            &&& act is Cancel ==> key == Key::Char('c')
        }),
{
}

/// Keys that switch something switch it back when they are pressed again, and
/// say what they have done.
pub proof fn lemma_switches(s: TopView, visible: Seq<JsonView>)
    ensures
        pressed(s, Key::Char('d'), visible).0.show_detail == !s.show_detail,
        pressed(s, Key::Char('p'), visible).0.paused == !s.paused,
        pressed(s, Key::Char('A'), visible).0.hide_stale_agents == !s.hide_stale_agents,
        pressed(s, Key::Char('p'), visible).0.status == if s.paused {
            Some("resumed"@)
        } else {
            Some("paused"@)
        },
        pressed(s, Key::Char('A'), visible).0.status == if s.hide_stale_agents {
            Some("showing all agents"@)
        } else {
            Some("hiding agents idle > 60s"@)
        },
        s.filter == Filter::Active ==> pressed(s, Key::Char('f'), visible).0.filter
            == Filter::Attention,
        s.filter == Filter::Attention ==> pressed(s, Key::Char('f'), visible).0.filter
            == Filter::All,
        s.filter == Filter::All ==> pressed(s, Key::Char('f'), visible).0.filter == Filter::Active,
{
}

/// The mark moves by one row, down and up again to where it was, and stops at
/// both ends; two keys lead to the ends at once.
pub proof fn lemma_mark_moves(s: TopView, visible: Seq<JsonView>)
    requires
        0 <= s.selected < visible.len(),
    ensures
        ({
            let down = pressed(s, Key::Down, visible).0;
            let up = pressed(s, Key::Up, visible).0;
            &&& s.selected + 1 < visible.len() ==> down.selected == s.selected + 1 && pressed(
                down,
                Key::Up,
                visible,
            ).0.selected == s.selected
            &&& s.selected + 1 == visible.len() ==> down.selected == s.selected
            &&& s.selected > 0 ==> up.selected == s.selected - 1
            &&& s.selected == 0 ==> up.selected == 0
            &&& pressed(s, Key::Char('g'), visible).0.selected == 0
            &&& pressed(s, Key::Char('G'), visible).0.selected + 1 == visible.len()
            &&& pressed(s, Key::Char('j'), visible) == pressed(s, Key::Down, visible)
            &&& pressed(s, Key::Char('k'), visible) == pressed(s, Key::Up, visible)
        }),
{
}

/// What is called off is the task under the mark, and what is posted has a
/// name with the next number.
pub proof fn lemma_keys_act(s: TopView, visible: Seq<JsonView>)
    requires
        0 <= s.selected,
        0 <= s.sent_test_count,
    ensures
        ({
            let (after, act) = pressed(s, Key::Char('c'), visible);
            match act {
                ActionView::Cancel(id) => s.selected < visible.len() && json::member(
                    visible[s.selected],
                    "id"@,
                ) == Some(JsonView::Text(id)),
                _ => s.selected < visible.len() ==> !(json::member(
                    visible[s.selected],
                    "id"@,
                ) matches Some(JsonView::Text(_))),
            }
        }),
        ({
            let (after, act) = pressed(s, Key::Char('s'), visible);
            &&& after.sent_test_count == s.sent_test_count + 1
            &&& act matches ActionView::Send(name) && text::has_prefix(name, "top-test-"@)
                && text::number_of(name.skip("top-test-"@.len() as int)) == s.sent_test_count + 1
        }),
{
    let n = text::decimal((s.sent_test_count + 1) as nat);
    let name = "top-test-"@ + n;
    text::lemma_decimals((s.sent_test_count + 1) as nat);
    assert(name.take("top-test-"@.len() as int) =~= "top-test-"@);
    assert(name.skip("top-test-"@.len() as int) =~= n);
}

/// What came of a posting or a cancellation is told with the beginning of the
/// task's identifier, or with the reason of the failure.
pub proof fn lemma_outcomes_are_told(t: JsonView, id: Seq<char>, e: Seq<char>)
    ensures
        json::member(t, "id"@) == Some(JsonView::Text(id)) && id.len() >= 8 ==> text::has_suffix(
            sent_text(Ok(t)),
            " "@ + id.take(8),
        ),
        id.len() >= 8 ==> text::has_suffix(cancelled_text(id, Ok(t)), " "@ + id.take(8)),
        text::has_prefix(sent_text(Ok(t)), "sent "@),
        text::has_prefix(cancelled_text(id, Ok(t)), "cancelled "@),
        text::has_suffix(sent_text(Err(e)), " failed: "@ + e),
        text::has_suffix(cancelled_text(id, Err(e)), " failed: "@ + e),
{
    reveal_strlit(" ");
    reveal_strlit("sent ");
    reveal_strlit("cancelled ");
    reveal_strlit(" failed: ");
    reveal_strlit("send failed: ");
    reveal_strlit("cancel failed: ");
    let a = sent_text(Ok(t));
    let b = cancelled_text(id, Ok(t));
    let c = sent_text(Err(e));
    let d = cancelled_text(id, Err(e));
    assert(a.take("sent "@.len() as int) =~= "sent "@);
    assert(b.take("cancelled "@.len() as int) =~= "cancelled "@);
    if id.len() >= 8 {
        if id.len() == 8 {
            assert(id.take(8) =~= id);
        }
        let tail = " "@ + id.take(8);
        assert(b.skip(b.len() - tail.len()) =~= tail);
        if json::member(t, "id"@) == Some(JsonView::Text(id)) {
            assert(a.skip(a.len() - tail.len()) =~= tail);
        }
    }
    let tail = " failed: "@ + e;
    assert(c.skip(c.len() - tail.len()) =~= tail);
    assert(d.skip(d.len() - tail.len()) =~= tail);
}

} // verus!
