//! One frame of the dashboard, as data: which texts stand where and how they
//! are styled.

use vstd::prelude::*;

use crate::cli::printing;
use crate::cli::printing::{Age, AgeView, IDLE_AGENT_AFTER_MS, STALE_AGENT_AFTER_MS};
use crate::cli::tui;
use crate::cli::tui::{TopState, TopView};
use crate::json;
use crate::json::{Json, JsonView};
use crate::laws;
use crate::text;
use crate::time::Timestamp;

verus! {

// ---------------------------------------------------------------------
// Text with style
// ---------------------------------------------------------------------

/// A colour of the terminal.
#[derive(Debug, Clone, Copy, PartialEq, Eq, Structural)]
pub enum Color {
    Magenta,
    Green,
    Yellow,
    DarkGray,
    Cyan,
    Red,
    White,
}

/// How a text is set.
#[derive(Debug, Clone, Copy, PartialEq, Eq, Structural)]
pub struct Style {
    pub fg: Option<Color>,
    pub bold: bool,
}

/// What a span says: a text, or an age.
#[derive(Debug, PartialEq, Eq)]
pub enum Content {
    Text(String),
    Age(Age),
}

/// What the content of a span holds.
#[verifier::ext_equal]
pub enum ContentView {
    Text(Seq<char>),
    Age(AgeView),
}

impl View for Content {
    type V = ContentView;

    open spec fn view(&self) -> ContentView {
        match self {
            Content::Text(s) => ContentView::Text(s@),
            Content::Age(a) => ContentView::Age(a@),
        }
    }
}

/// A run of text in one style.
#[derive(Debug, PartialEq, Eq)]
pub struct Span {
    pub content: Content,
    pub style: Style,
}

/// What a span holds.
#[verifier::ext_equal]
pub struct SpanView {
    pub content: ContentView,
    pub style: Style,
}

impl View for Span {
    type V = SpanView;

    open spec fn view(&self) -> SpanView {
        SpanView { content: self.content@, style: self.style }
    }
}

/// A line of text.
#[derive(Debug, PartialEq, Eq)]
pub struct Line {
    pub spans: Vec<Span>,
}

impl View for Line {
    type V = Seq<SpanView>;

    open spec fn view(&self) -> Seq<SpanView> {
        Seq::new(self.spans@.len(), |i: int| self.spans@[i]@)
    }
}

/// The views of a sequence of lines.
pub open spec fn line_views(lines: Seq<Line>) -> Seq<Seq<SpanView>> {
    Seq::new(lines.len(), |i: int| lines[i]@)
}

/// The style of the terminal itself.
pub open spec fn plain() -> Style {
    Style { fg: None, bold: false }
}

/// A colour.
pub open spec fn fg(c: Color) -> Style {
    Style { fg: Some(c), bold: false }
}

/// A colour, in bold.
pub open spec fn bold_fg(c: Color) -> Style {
    Style { fg: Some(c), bold: true }
}

/// Bold.
pub open spec fn bold() -> Style {
    Style { fg: None, bold: true }
}

/// A text in a style.
pub open spec fn styled(s: Seq<char>, style: Style) -> SpanView {
    SpanView { content: ContentView::Text(s), style }
}

/// A text in the style of the terminal.
pub open spec fn raw(s: Seq<char>) -> SpanView {
    styled(s, plain())
}

/// An age in a style.
pub open spec fn aged(a: AgeView, style: Style) -> SpanView {
    SpanView { content: ContentView::Age(a), style }
}

impl Line {
    fn new() -> (r: Line)
        ensures
            r@ == Seq::<SpanView>::empty(),
    {
        let r = Line { spans: Vec::new() };
        assert(r@ =~= Seq::<SpanView>::empty());
        r
    }

    fn add_span(&mut self, span: Span)
        ensures
            final(self)@ == old(self)@.push(span@),
    {
        let ghost before = self@;
        let ghost s = span@;
        self.spans.push(span);
        assert(self@ =~= before.push(s));
    }

    fn text(&mut self, s: &str, fg: Option<Color>, bold: bool)
        ensures
            final(self)@ == old(self)@.push(styled(s@, (Style { fg, bold }))),
    {
        self.add_span(Span { content: Content::Text(s.to_owned()), style: Style { fg, bold } });
    }

    fn raw(&mut self, s: &str)
        ensures
            final(self)@ == old(self)@.push(raw(s@)),
    {
        self.text(s, None, false);
    }

    fn age(&mut self, a: Age, fg: Option<Color>)
        ensures
            final(self)@ == old(self)@.push(aged(a@, (Style { fg, bold: false }))),
    {
        self.add_span(Span { content: Content::Age(a), style: Style { fg, bold: false } });
    }
}

fn number(n: usize) -> (r: String)
    ensures
        r@ == text::decimal(n as nat),
{
    text::decimal_text(n as u64)
}

// ---------------------------------------------------------------------
// Glyphs and colours
// ---------------------------------------------------------------------

/// How a priority is shown.
pub open spec fn priority_mark(p: Seq<char>) -> Seq<char> {
    if p == "urgent"@ {
        "‼ urgent"@
    } else if p == "high"@ {
        "▲ high"@
    } else if p == "low"@ {
        "▽ low"@
    } else {
        "  normal"@
    }
}

/// How a priority is shown.
pub fn priority_glyph(p: &str) -> (r: &'static str)
    ensures
        r@ == priority_mark(p@),
{
    if text::same(p, "urgent") {
        "‼ urgent"
    } else if text::same(p, "high") {
        "▲ high"
    } else if text::same(p, "low") {
        "▽ low"
    } else {
        "  normal"
    }
}

/// How a kind is shown.
pub open spec fn kind_mark(k: Seq<char>) -> Seq<char> {
    if k == "bug"@ {
        "[B] bug"@
    } else if k == "feature"@ {
        "[F] feature"@
    } else if k == "decision"@ {
        "[D] decision"@
    } else if k == "ack"@ {
        "[A] ack"@
    } else if k == "knowledge"@ {
        "[K] knowledge"@
    } else if k == "build"@ {
        "[X] build"@
    } else {
        "[ ] "@ + k
    }
}

/// How a kind is shown.
pub fn kind_glyph(k: &str) -> (r: String)
    ensures
        r@ == kind_mark(k@),
{
    if text::same(k, "bug") {
        "[B] bug".to_owned()
    } else if text::same(k, "feature") {
        "[F] feature".to_owned()
    } else if text::same(k, "decision") {
        "[D] decision".to_owned()
    } else if text::same(k, "ack") {
        "[A] ack".to_owned()
    } else if text::same(k, "knowledge") {
        "[K] knowledge".to_owned()
    } else if text::same(k, "build") {
        "[X] build".to_owned()
    } else {
        let mut s = "[ ] ".to_owned();
        s.append(k);
        s
    }
}

/// The style of a task's row.
pub open spec fn row_look(state: Seq<char>, priority: Seq<char>) -> Style {
    if state == "completed"@ {
        fg(Color::Green)
    } else if state == "cancelled"@ {
        fg(Color::DarkGray)
    } else if state == "failed"@ {
        bold_fg(Color::Red)
    } else if priority == "urgent"@ {
        bold_fg(Color::Red)
    } else if priority == "high"@ {
        bold_fg(Color::Magenta)
    } else if state == "pending"@ {
        fg(Color::Yellow)
    } else if state == "claimed"@ {
        fg(Color::Cyan)
    } else {
        plain()
    }
}

/// The style of a task's row.
pub fn row_style(state: &str, priority: &str) -> (r: Style)
    ensures
        r == row_look(state@, priority@),
{
    if text::same(state, "completed") {
        Style { fg: Some(Color::Green), bold: false }
    } else if text::same(state, "cancelled") {
        Style { fg: Some(Color::DarkGray), bold: false }
    } else if text::same(state, "failed") {
        Style { fg: Some(Color::Red), bold: true }
    } else if text::same(priority, "urgent") {
        Style { fg: Some(Color::Red), bold: true }
    } else if text::same(priority, "high") {
        Style { fg: Some(Color::Magenta), bold: true }
    } else if text::same(state, "pending") {
        Style { fg: Some(Color::Yellow), bold: false }
    } else if text::same(state, "claimed") {
        Style { fg: Some(Color::Cyan), bold: false }
    } else {
        Style { fg: None, bold: false }
    }
}

/// The colour of a state in the detail pane.
pub open spec fn state_color(state: Seq<char>) -> Color {
    if state == "pending"@ {
        Color::Yellow
    } else if state == "claimed"@ {
        Color::Cyan
    } else if state == "completed"@ {
        Color::Green
    } else if state == "failed"@ {
        Color::Red
    } else if state == "cancelled"@ {
        Color::DarkGray
    } else {
        Color::White
    }
}

fn color_of_state(state: &str) -> (r: Color)
    ensures
        r == state_color(state@),
{
    if text::same(state, "pending") {
        Color::Yellow
    } else if text::same(state, "claimed") {
        Color::Cyan
    } else if text::same(state, "completed") {
        Color::Green
    } else if text::same(state, "failed") {
        Color::Red
    } else if text::same(state, "cancelled") {
        Color::DarkGray
    } else {
        Color::White
    }
}

/// The colour of a priority in the detail pane.
pub open spec fn priority_color(priority: Seq<char>) -> Color {
    if priority == "urgent"@ {
        Color::Red
    } else if priority == "high"@ {
        Color::Magenta
    } else if priority == "low"@ {
        Color::DarkGray
    } else {
        Color::White
    }
}

fn color_of_priority(priority: &str) -> (r: Color)
    ensures
        r == priority_color(priority@),
{
    if text::same(priority, "urgent") {
        Color::Red
    } else if text::same(priority, "high") {
        Color::Magenta
    } else if text::same(priority, "low") {
        Color::DarkGray
    } else {
        Color::White
    }
}

// ---------------------------------------------------------------------
// Agents
// ---------------------------------------------------------------------

/// When an agent last reported, as it is spelled.
pub open spec fn last_seen_text(a: JsonView) -> Seq<char> {
    json::member_text_or(a, "last_seen"@, ""@)
}

/// How many agents are active, idle and stale.
pub open spec fn partition(agents: Seq<JsonView>, now: Timestamp) -> (nat, nat, nat)
    decreases agents.len(),
{
    if agents.len() == 0 {
        (0, 0, 0)
    } else {
        let (active, idle, stale) = partition(agents.drop_last(), now);
        match printing::age_of(last_seen_text(agents.last()), now) {
            Some(ms) => if ms <= IDLE_AGENT_AFTER_MS {
                (active + 1, idle, stale)
            } else if ms <= STALE_AGENT_AFTER_MS {
                (active, idle + 1, stale)
            } else {
                (active, idle, stale + 1)
            },
            None => (active, idle, stale + 1),
        }
    }
}

/// How many agents are active, idle and stale.
pub fn partition_agents(agents: &Vec<Json>, now: &Timestamp) -> (r: (usize, usize, usize))
    ensures
        (r.0 as nat, r.1 as nat, r.2 as nat) == partition(json::views(agents@), *now),
        r.0 + r.1 + r.2 == agents@.len(),
{
    let mut active: usize = 0;
    let mut idle: usize = 0;
    let mut stale: usize = 0;
    let mut i: usize = 0;
    let ghost all = json::views(agents@);
    while i < agents.len()
        invariant
            i <= agents.len(),
            all == json::views(agents@),
            active + idle + stale == i,
            (active as nat, idle as nat, stale as nat) == partition(all.take(i as int), *now),
        decreases agents.len() - i,
    {
        let ghost seen = all.take(i + 1);
        assert(seen.drop_last() =~= all.take(i as int));
        assert(seen.last() == agents@[i as int]@);
        match printing::parse_age(agents[i].get_str_or("last_seen", ""), now) {
            Some(ms) => if ms <= IDLE_AGENT_AFTER_MS {
                active = active + 1;
            } else if ms <= STALE_AGENT_AFTER_MS {
                idle = idle + 1;
            } else {
                stale = stale + 1;
            },
            None => stale = stale + 1,
        }
        i = i + 1;
    }
    assert(all.take(all.len() as int) =~= all);
    (active, idle, stale)
}

/// Whether an agent is shown: a stale one only where none are hidden.
pub open spec fn agent_shown(a: JsonView, hide_stale: bool, now: Timestamp) -> bool {
    !hide_stale || (printing::age_of(last_seen_text(a), now) matches Some(ms) ==> ms
        <= STALE_AGENT_AFTER_MS)
}

/// What the dashboard says an agent does: the task that it holds, or that it
/// waits.
pub open spec fn doing(agent: JsonView, tasks: Seq<JsonView>) -> Seq<char> {
    match json::member_text(agent, "current_task"@) {
        Some(id) => match task_with_id(tasks, id) {
            Some(t) => doing_mark(json::member_text_or(t, "kind"@, "task"@)) + " "@
                + json::member_text_or(t, "name"@, ""@),
            None => "→ "@ + text::first_chars(id, 8),
        },
        None => "waiting…"@,
    }
}

/// The first task whose identifier is spelled as given.
pub open spec fn task_with_id(tasks: Seq<JsonView>, id: Seq<char>) -> Option<JsonView>
    decreases tasks.len(),
{
    if tasks.len() == 0 {
        None
    } else if json::member_text(tasks[0], "id"@) == Some(id) {
        Some(tasks[0])
    } else {
        task_with_id(tasks.drop_first(), id)
    }
}

/// The mark of a kind of work in hand.
pub open spec fn doing_mark(kind: Seq<char>) -> Seq<char> {
    if kind == "bug"@ {
        "🐛"@
    } else if kind == "feature"@ {
        "✨"@
    } else {
        "→"@
    }
}

fn mark_of_doing(kind: &str) -> (r: &'static str)
    ensures
        r@ == doing_mark(kind@),
{
    if text::same(kind, "bug") {
        "🐛"
    } else if text::same(kind, "feature") {
        "✨"
    } else {
        "→"
    }
}

/// What the dashboard says an agent does.
pub fn describe_doing(agent: &Json, tasks: &Vec<Json>) -> (r: String)
    ensures
        r@ == doing(agent@, json::views(tasks@)),
{
    let id = match agent.get_str("current_task") {
        Some(id) => id,
        None => return "waiting…".to_owned(),
    };
    let mut i: usize = 0;
    let ghost all = json::views(tasks@);
    assert(all.skip(0) =~= all);
    while i < tasks.len()
        invariant
            i <= tasks.len(),
            all == json::views(tasks@),
            json::member_text(agent@, "current_task"@) == Some(id@),
            task_with_id(all, id@) == task_with_id(all.skip(i as int), id@),
        decreases tasks.len() - i,
    {
        let t = &tasks[i];
        assert(all.skip(i as int).drop_first() =~= all.skip(i + 1));
        assert(all.skip(i as int)[0] == t@);
        match t.get_str("id") {
            Some(other) => if text::same(other, id) {
                let mut s = mark_of_doing(t.get_str_or("kind", "task")).to_owned();
                s.append(" ");
                s.append(t.get_str_or("name", ""));
                return s;
            },
            None => {},
        }
        i = i + 1;
    }
    let mut s = "→ ".to_owned();
    s.append(text::take_chars(id, 8).as_str());
    s
}

/// A row of the agents pane.
#[derive(Debug, PartialEq, Eq)]
pub struct AgentCells {
    pub dot: &'static str,
    pub id: String,
    pub uptime: Age,
    pub doing: String,
    pub style: Style,
}

/// What a row of the agents pane holds.
#[verifier::ext_equal]
pub struct AgentCellsView {
    pub dot: Seq<char>,
    pub id: Seq<char>,
    pub uptime: AgeView,
    pub doing: Seq<char>,
    pub style: Style,
}

impl View for AgentCells {
    type V = AgentCellsView;

    open spec fn view(&self) -> AgentCellsView {
        AgentCellsView {
            dot: self.dot@,
            id: self.id@,
            uptime: self.uptime@,
            doing: self.doing@,
            style: self.style,
        }
    }
}

/// When an agent's uptime began: with its first report, where that is known.
pub open spec fn uptime_start(a: JsonView) -> Seq<char> {
    match json::member_text(a, "first_seen"@) {
        Some(s) => if s.len() > 0 && !text::has_prefix(s, "1970"@) {
            s
        } else {
            last_seen_text(a)
        },
        None => last_seen_text(a),
    }
}

/// The row of an agent.
pub open spec fn agent_cells(a: JsonView, tasks: Seq<JsonView>, now: Timestamp) -> AgentCellsView {
    let age = printing::age_of(last_seen_text(a), now);
    AgentCellsView {
        dot: match age {
            Some(ms) if ms <= STALE_AGENT_AFTER_MS => "●"@,
            _ => "○"@,
        },
        id: json::member_text_or(a, "id"@, ""@),
        uptime: printing::age_label(uptime_start(a), now),
        doing: doing(a, tasks),
        style: match age {
            Some(ms) if ms <= IDLE_AGENT_AFTER_MS => bold_fg(Color::Green),
            Some(ms) if ms <= STALE_AGENT_AFTER_MS => fg(Color::Yellow),
            _ => fg(Color::DarkGray),
        },
    }
}

/// The rows of the agents that are shown.
pub open spec fn agent_rows(
    agents: Seq<JsonView>,
    tasks: Seq<JsonView>,
    hide_stale: bool,
    now: Timestamp,
) -> Seq<AgentCellsView>
    decreases agents.len(),
{
    if agents.len() == 0 {
        Seq::empty()
    } else if agent_shown(agents.last(), hide_stale, now) {
        agent_rows(agents.drop_last(), tasks, hide_stale, now).push(
            agent_cells(agents.last(), tasks, now),
        )
    } else {
        agent_rows(agents.drop_last(), tasks, hide_stale, now)
    }
}

/// The views of a sequence of rows.
pub open spec fn agent_cell_views(rows: Seq<AgentCells>) -> Seq<AgentCellsView> {
    Seq::new(rows.len(), |i: int| rows[i]@)
}

fn uptime_since<'a>(a: &'a Json, last_seen: &'a str) -> (r: &'a str)
    requires
        last_seen@ == last_seen_text(a@),
    ensures
        r@ == uptime_start(a@),
{
    match a.get_str("first_seen") {
        Some(s) => if !s.is_empty() && !text::starts_with(s, "1970") {
            s
        } else {
            last_seen
        },
        None => last_seen,
    }
}

fn cells_of_agent(a: &Json, tasks: &Vec<Json>, now: &Timestamp) -> (r: AgentCells)
    ensures
        r@ == agent_cells(a@, json::views(tasks@), *now),
{
    let last_seen = a.get_str_or("last_seen", "");
    let (dot, color, strong) = match printing::parse_age(last_seen, now) {
        Some(ms) => if ms <= IDLE_AGENT_AFTER_MS {
            ("●", Color::Green, true)
        } else if ms <= STALE_AGENT_AFTER_MS {
            ("●", Color::Yellow, false)
        } else {
            ("○", Color::DarkGray, false)
        },
        None => ("○", Color::DarkGray, false),
    };
    AgentCells {
        dot,
        id: a.get_str_or("id", "").to_owned(),
        uptime: printing::label_age(uptime_since(a, last_seen), now),
        doing: describe_doing(a, tasks),
        style: Style { fg: Some(color), bold: strong },
    }
}

fn is_shown(a: &Json, hide_stale: bool, now: &Timestamp) -> (r: bool)
    ensures
        r == agent_shown(a@, hide_stale, *now),
{
    if !hide_stale {
        true
    } else {
        match printing::parse_age(a.get_str_or("last_seen", ""), now) {
            Some(ms) => ms <= STALE_AGENT_AFTER_MS,
            None => true,
        }
    }
}

fn rows_of_agents(
    agents: &Vec<Json>,
    tasks: &Vec<Json>,
    hide_stale: bool,
    now: &Timestamp,
) -> (r: Vec<AgentCells>)
    ensures
        agent_cell_views(r@) == agent_rows(
            json::views(agents@),
            json::views(tasks@),
            hide_stale,
            *now,
        ),
{
    let mut out: Vec<AgentCells> = Vec::new();
    let mut i: usize = 0;
    let ghost all = json::views(agents@);
    let ghost others = json::views(tasks@);
    assert(agent_cell_views(out@) =~= agent_rows(all.take(0), others, hide_stale, *now));
    while i < agents.len()
        invariant
            i <= agents.len(),
            all == json::views(agents@),
            others == json::views(tasks@),
            agent_cell_views(out@) == agent_rows(all.take(i as int), others, hide_stale, *now),
        decreases agents.len() - i,
    {
        let ghost seen = all.take(i + 1);
        let ghost before = out@;
        assert(seen.drop_last() =~= all.take(i as int));
        assert(seen.last() == agents@[i as int]@);
        if is_shown(&agents[i], hide_stale, now) {
            out.push(cells_of_agent(&agents[i], tasks, now));
            assert(agent_cell_views(out@) =~= agent_cell_views(before).push(
                agent_cells(seen.last(), others, *now),
            ));
        }
        i = i + 1;
    }
    assert(all.take(all.len() as int) =~= all);
    out
}

// ---------------------------------------------------------------------
// Tasks
// ---------------------------------------------------------------------

/// A row of the tasks pane.
#[derive(Debug, PartialEq, Eq)]
pub struct TaskCells {
    pub id: String,
    pub age: Age,
    pub priority: &'static str,
    pub kind: String,
    pub state: String,
    pub claimed_by: String,
    pub name: String,
    pub style: Style,
}

/// What a row of the tasks pane holds.
#[verifier::ext_equal]
pub struct TaskCellsView {
    pub id: Seq<char>,
    pub age: AgeView,
    pub priority: Seq<char>,
    pub kind: Seq<char>,
    pub state: Seq<char>,
    pub claimed_by: Seq<char>,
    pub name: Seq<char>,
    pub style: Style,
}

impl View for TaskCells {
    type V = TaskCellsView;

    open spec fn view(&self) -> TaskCellsView {
        TaskCellsView {
            id: self.id@,
            age: self.age@,
            priority: self.priority@,
            kind: self.kind@,
            state: self.state@,
            claimed_by: self.claimed_by@,
            name: self.name@,
            style: self.style,
        }
    }
}

/// The age of what the member of a document spells.
pub open spec fn member_age(t: JsonView, key: Seq<char>, now: Timestamp) -> AgeView {
    match json::member_text(t, key) {
        Some(ts) => printing::age_label(ts, now),
        None => printing::unknown_age(),
    }
}

/// The row of a task.
pub open spec fn task_cells(t: JsonView, now: Timestamp) -> TaskCellsView {
    let state = json::member_text_or(t, "state"@, ""@);
    let priority = json::member_text_or(t, "priority"@, "normal"@);
    TaskCellsView {
        id: text::first_chars(json::member_text_or(t, "id"@, Seq::empty()), 8),
        age: member_age(t, "created_at"@, now),
        priority: priority_mark(priority),
        kind: kind_mark(json::member_text_or(t, "kind"@, "task"@)),
        state,
        claimed_by: json::member_text_or(t, "claimed_by"@, "-"@),
        name: json::member_text_or(t, "name"@, ""@),
        style: row_look(state, priority),
    }
}

/// The views of a sequence of rows.
pub open spec fn task_cell_views(rows: Seq<TaskCells>) -> Seq<TaskCellsView> {
    Seq::new(rows.len(), |i: int| rows[i]@)
}

fn age_of_member(t: &Json, key: &str, now: &Timestamp) -> (r: Age)
    ensures
        r@ == member_age(t@, key@, *now),
{
    match t.get_str(key) {
        Some(ts) => printing::label_age(ts, now),
        None => Age::Text("-".to_owned()),
    }
}

fn cells_of_task(t: &Json, now: &Timestamp) -> (r: TaskCells)
    ensures
        r@ == task_cells(t@, *now),
{
    let state = t.get_str_or("state", "");
    let priority = t.get_str_or("priority", "normal");
    TaskCells {
        id: printing::short_id(t),
        age: age_of_member(t, "created_at", now),
        priority: priority_glyph(priority),
        kind: kind_glyph(t.get_str_or("kind", "task")),
        state: state.to_owned(),
        claimed_by: t.get_str_or("claimed_by", "-").to_owned(),
        name: t.get_str_or("name", "").to_owned(),
        style: row_style(state, priority),
    }
}

fn rows_of_tasks(tasks: &Vec<Json>, now: &Timestamp) -> (r: Vec<TaskCells>)
    ensures
        task_cell_views(r@) == Seq::new(
            tasks@.len(),
            |i: int| task_cells(json::views(tasks@)[i], *now),
        ),
{
    let mut out: Vec<TaskCells> = Vec::new();
    let mut i: usize = 0;
    while i < tasks.len()
        invariant
            i <= tasks.len(),
            out@.len() == i,
            forall|k: int| 0 <= k < i ==> (#[trigger] out@[k])@ == task_cells(tasks@[k]@, *now),
        decreases tasks.len() - i,
    {
        out.push(cells_of_task(&tasks[i], now));
        i = i + 1;
    }
    assert(task_cell_views(out@) =~= Seq::new(
        tasks@.len(),
        |i: int| task_cells(json::views(tasks@)[i], *now),
    ));
    out
}

// ---------------------------------------------------------------------
// Detail
// ---------------------------------------------------------------------

/// The first lines of a document, indented, and how many more there are.
pub open spec fn excerpt(v: JsonView, max: nat) -> Seq<Seq<char>> {
    let lines = text::lines_of(json::pretty_text(v));
    if lines.len() <= max {
        lines
    } else {
        lines.take(max as int).push(
            "… +"@ + text::decimal((lines.len() - max) as nat) + " more lines"@,
        )
    }
}

/// The first lines of a document, indented, and how many more there are.
pub fn pretty_json_lines(v: &Json, max_lines: usize) -> (r: Vec<String>)
    ensures
        text::texts(r@) == excerpt(v@, max_lines as nat),
{
    let pretty = json::to_pretty(v);
    let mut lines = text::split_lines(pretty.as_str());
    let total: usize = lines.len();
    if total > max_lines {
        let mut more = "… +".to_owned();
        more.append(number(total - max_lines).as_str());
        more.append(" more lines");
        lines.truncate(max_lines);
        lines.push(more);
        assert(text::texts(lines@) =~= excerpt(v@, max_lines as nat));
    }
    lines
}

/// A line of the detail pane: a label and a value in a colour.
pub open spec fn labelled(k: Seq<char>, v: Seq<char>, c: Color) -> Seq<SpanView> {
    seq![styled(text::padded(k, 10), fg(Color::DarkGray)), styled(v, fg(c))]
}

/// A section of the detail pane: an empty line, a heading, and the first
/// lines of a document. `null` and nothing have none.
pub open spec fn section(v: Option<JsonView>, heading: Seq<char>, max: nat) -> Seq<
    Seq<SpanView>,
> {
    match v {
        Some(v) => if v == JsonView::Null {
            Seq::empty()
        } else {
            seq![seq![raw(""@)], seq![styled(heading, bold_fg(Color::DarkGray))]] + Seq::new(
                excerpt(v, max).len(),
                |i: int| seq![raw(excerpt(v, max)[i])],
            )
        },
        None => Seq::empty(),
    }
}

/// What the detail pane shows of a task.
pub open spec fn detail(t: JsonView, now: Timestamp) -> Seq<Seq<SpanView>> {
    let priority = json::member_text_or(t, "priority"@, "normal"@);
    let state = json::member_text_or(t, "state"@, ""@);
    let gray = fg(Color::DarkGray);
    seq![
        seq![styled(json::member_text_or(t, "name"@, ""@), bold())],
        seq![raw(""@)],
        labelled("id"@, json::member_text_or(t, "id"@, "?"@), Color::White),
        labelled("kind"@, kind_mark(json::member_text_or(t, "kind"@, "task"@)), Color::White),
        labelled("priority"@, priority, priority_color(priority)),
        labelled("state"@, state, state_color(state)),
        labelled("claimed"@, json::member_text_or(t, "claimed_by"@, "-"@), Color::White),
        seq![
            styled(text::padded("age"@, 10), gray),
            aged(printing::age_label(json::member_text_or(t, "created_at"@, ""@), now), gray),
            styled(" (updated "@, gray),
            aged(printing::age_label(json::member_text_or(t, "updated_at"@, ""@), now), gray),
            styled(")"@, gray),
        ],
    ] + section(json::member(t, "payload"@), "payload"@, 12) + section(
        json::member(t, "result"@),
        "result"@,
        8,
    )
}

/// What the detail pane shows.
pub open spec fn detail_pane(task: Option<JsonView>, now: Timestamp) -> Seq<Seq<SpanView>> {
    match task {
        Some(t) => detail(t, now),
        None => seq![seq![styled("no task selected"@, fg(Color::DarkGray))]],
    }
}

fn one_span(s: &str, fg: Option<Color>, bold: bool) -> (r: Line)
    ensures
        r@ == seq![styled(s@, (Style { fg, bold }))],
{
    let mut line = Line::new();
    line.text(s, fg, bold);
    assert(line@ =~= seq![styled(s@, (Style { fg, bold }))]);
    line
}

fn key_value(k: &str, v: &str, color: Color) -> (r: Line)
    ensures
        r@ == labelled(k@, v@, color),
{
    let mut line = Line::new();
    line.text(text::pad_right(k, 10).as_str(), Some(Color::DarkGray), false);
    line.text(v, Some(color), false);
    assert(line@ =~= labelled(k@, v@, color));
    line
}

fn push_line(lines: &mut Vec<Line>, line: Line)
    ensures
        line_views(final(lines)@) == line_views(old(lines)@).push(line@),
{
    let ghost before = lines@;
    let ghost l = line@;
    lines.push(line);
    assert(line_views(lines@) =~= line_views(before).push(l));
}

fn push_section(lines: &mut Vec<Line>, v: Option<&Json>, heading: &str, max_lines: usize)
    ensures
        line_views(final(lines)@) == line_views(old(lines)@) + section(
            match v {
                Some(j) => Some(j@),
                None => None,
            },
            heading@,
            max_lines as nat,
        ),
{
    let ghost before = line_views(lines@);
    match v {
        Some(j) => if !j.is_null() {
            push_line(lines, one_span("", None, false));
            push_line(lines, one_span(heading, Some(Color::DarkGray), true));
            let texts = pretty_json_lines(j, max_lines);
            let ghost shown = excerpt(j@, max_lines as nat);
            let mut i: usize = 0;
            let ghost head = line_views(lines@);
            while i < texts.len()
                invariant
                    i <= texts.len(),
                    shown == text::texts(texts@),
                    line_views(lines@) =~= head + Seq::new(
                        i as nat,
                        |k: int| seq![raw(shown[k])],
                    ),
                decreases texts.len() - i,
            {
                assert(shown[i as int] == texts@[i as int]@);
                push_line(lines, one_span(texts[i].as_str(), None, false));
                i = i + 1;
            }
            assert(line_views(lines@) =~= before + section(
                Some(j@),
                heading@,
                max_lines as nat,
            ));
        } else {
            assert(line_views(lines@) =~= before + Seq::<Seq<SpanView>>::empty());
        },
        None => {
            assert(line_views(lines@) =~= before + Seq::<Seq<SpanView>>::empty());
        },
    }
}

/// What the detail pane shows.
pub fn build_detail(task: Option<&Json>, now: &Timestamp) -> (r: Vec<Line>)
    ensures
        line_views(r@) == detail_pane(
            match task {
                Some(t) => Some(t@),
                None => None,
            },
            *now,
        ),
{
    let mut lines: Vec<Line> = Vec::new();
    assert(line_views(lines@) =~= Seq::<Seq<SpanView>>::empty());
    let t = match task {
        Some(t) => t,
        None => {
            push_line(&mut lines, one_span("no task selected", Some(Color::DarkGray), false));
            assert(line_views(lines@) =~= detail_pane(None, *now));
            return lines;
        },
    };
    let priority = t.get_str_or("priority", "normal");
    let state = t.get_str_or("state", "");
    let kind = kind_glyph(t.get_str_or("kind", "task"));
    push_line(&mut lines, one_span(t.get_str_or("name", ""), None, true));
    push_line(&mut lines, one_span("", None, false));
    push_line(&mut lines, key_value("id", t.get_str_or("id", "?"), Color::White));
    push_line(&mut lines, key_value("kind", kind.as_str(), Color::White));
    push_line(&mut lines, key_value("priority", priority, color_of_priority(priority)));
    push_line(&mut lines, key_value("state", state, color_of_state(state)));
    push_line(&mut lines, key_value("claimed", t.get_str_or("claimed_by", "-"), Color::White));
    let mut ages = Line::new();
    ages.text(text::pad_right("age", 10).as_str(), Some(Color::DarkGray), false);
    ages.age(printing::label_age(t.get_str_or("created_at", ""), now), Some(Color::DarkGray));
    ages.text(" (updated ", Some(Color::DarkGray), false);
    ages.age(printing::label_age(t.get_str_or("updated_at", ""), now), Some(Color::DarkGray));
    ages.text(")", Some(Color::DarkGray), false);
    let ghost gray = fg(Color::DarkGray);
    assert(ages@ =~= seq![
        styled(text::padded("age"@, 10), gray),
        aged(printing::age_label(json::member_text_or(t@, "created_at"@, ""@), *now), gray),
        styled(" (updated "@, gray),
        aged(printing::age_label(json::member_text_or(t@, "updated_at"@, ""@), *now), gray),
        styled(")"@, gray),
    ]);
    push_line(&mut lines, ages);
    push_section(&mut lines, t.get("payload"), "payload", 12);
    push_section(&mut lines, t.get("result"), "result", 8);
    assert(line_views(lines@) =~= detail(t@, *now));
    lines
}

// ---------------------------------------------------------------------
// The frame
// ---------------------------------------------------------------------

/// What the agents pane shows: rows, or a hint where there are none.
#[derive(Debug, PartialEq, Eq)]
pub enum AgentsPane {
    Hint(String),
    Rows(Vec<AgentCells>),
}

/// What the agents pane holds.
#[verifier::ext_equal]
pub enum AgentsPaneView {
    Hint(Seq<char>),
    Rows(Seq<AgentCellsView>),
}

impl View for AgentsPane {
    type V = AgentsPaneView;

    open spec fn view(&self) -> AgentsPaneView {
        match self {
            AgentsPane::Hint(s) => AgentsPaneView::Hint(s@),
            AgentsPane::Rows(rows) => AgentsPaneView::Rows(agent_cell_views(rows@)),
        }
    }
}

/// One frame of the dashboard.
#[derive(Debug)]
pub struct Frame {
    pub title: &'static str,
    /// The three lines at the top.
    pub header: Vec<Line>,
    pub agents_title: String,
    /// The headings over the rows of the agents pane.
    pub agents_columns: Vec<&'static str>,
    pub agents: AgentsPane,
    pub tasks_title: String,
    /// The headings over the tasks.
    pub tasks_columns: Vec<&'static str>,
    pub tasks: Vec<TaskCells>,
    pub detail_title: &'static str,
    /// The detail pane, where it is shown.
    pub detail: Option<Vec<Line>>,
    pub status: Line,
    pub hints: Line,
}

/// What a frame holds.
#[verifier::ext_equal]
pub struct FrameView {
    pub title: Seq<char>,
    pub header: Seq<Seq<SpanView>>,
    pub agents_title: Seq<char>,
    pub agents_columns: Seq<Seq<char>>,
    pub agents: AgentsPaneView,
    pub tasks_title: Seq<char>,
    pub tasks_columns: Seq<Seq<char>>,
    pub tasks: Seq<TaskCellsView>,
    pub detail_title: Seq<char>,
    pub detail: Option<Seq<Seq<SpanView>>>,
    pub status: Seq<SpanView>,
    pub hints: Seq<SpanView>,
}

/// What headings say.
pub open spec fn headings(columns: Seq<&'static str>) -> Seq<Seq<char>> {
    Seq::new(columns.len(), |i: int| columns[i]@)
}

impl View for Frame {
    type V = FrameView;

    open spec fn view(&self) -> FrameView {
        FrameView {
            title: self.title@,
            header: line_views(self.header@),
            agents_title: self.agents_title@,
            agents_columns: headings(self.agents_columns@),
            agents: self.agents@,
            tasks_title: self.tasks_title@,
            tasks_columns: headings(self.tasks_columns@),
            tasks: task_cell_views(self.tasks@),
            detail_title: self.detail_title@,
            detail: match self.detail {
                Some(lines) => Some(line_views(lines@)),
                None => None,
            },
            status: self.status@,
            hints: self.hints@,
        }
    }
}

/// The narrowest terminal on which the detail pane is shown.
pub const DETAIL_MIN_WIDTH: u16 = 116;

/// The first line of the header: how many agents there are.
pub open spec fn agents_line(s: TopView, now: Timestamp) -> Seq<SpanView> {
    let (active, idle, stale) = partition(s.agents, now);
    seq![
        styled("coord top"@, bold_fg(Color::Magenta)),
        raw("  •  "@),
        styled(text::decimal(active), bold_fg(Color::Green)),
        raw(" active  "@),
        styled(text::decimal(idle), fg(Color::Yellow)),
        raw(" idle  "@),
        styled(text::decimal(stale), fg(Color::DarkGray)),
        raw(" stale  ("@ + text::decimal(s.agents.len()) + " agents total)"@),
    ]
}

/// A state with the number of tasks in it, gray where there are none.
pub open spec fn state_count(tasks: Seq<JsonView>, state: Seq<char>, c: Color) -> SpanView {
    let n = printing::count_in(tasks, state);
    styled(
        state + "="@ + text::decimal(n),
        if n > 0 {
            fg(c)
        } else {
            fg(Color::DarkGray)
        },
    )
}

/// The second line of the header: how many tasks there are.
pub open spec fn tasks_line(s: TopView, visible: nat) -> Seq<SpanView> {
    seq![
        raw("tasks: "@),
        styled(text::decimal(visible), bold_fg(Color::Cyan)),
        raw(" visible / "@ + text::decimal(s.tasks.len()) + " total  "@),
        state_count(s.tasks, "pending"@, Color::Yellow),
        raw(" "@),
        state_count(s.tasks, "claimed"@, Color::Cyan),
        raw(" "@),
        state_count(s.tasks, "completed"@, Color::Green),
        raw(" "@),
        state_count(s.tasks, "failed"@, Color::Red),
        raw(" "@),
        state_count(s.tasks, "cancelled"@, Color::DarkGray),
    ]
}

/// The third line of the header: how the dashboard is set.
pub open spec fn settings_line(s: TopView, refresh_age: Seq<char>) -> Seq<SpanView> {
    seq![
        raw("filter: "@ + tui::filter_label(s.filter) + "  •  "@),
        raw(
            "agents-hidden: "@ + (if s.hide_stale_agents {
                "stale"@
            } else {
                "off"@
            }) + "  •  detail: "@ + (if s.show_detail {
                "on"@
            } else {
                "off"@
            }) + "  •  refreshed "@ + refresh_age,
        ),
        if s.paused {
            styled("  PAUSED"@, bold_fg(Color::Yellow))
        } else {
            raw(""@)
        },
    ]
}

/// The title of the agents pane.
pub open spec fn agents_heading(s: TopView, now: Timestamp) -> Seq<char> {
    let stale = partition(s.agents, now).2;
    "agents ("@ + text::decimal(
        agent_rows(s.agents, s.tasks, s.hide_stale_agents, now).len(),
    ) + (if s.hide_stale_agents && stale > 0 {
        " • +"@ + text::decimal(stale) + " hidden"@
    } else {
        Seq::empty()
    }) + ")"@
}

/// What the agents pane shows.
pub open spec fn agents_body(s: TopView, now: Timestamp) -> AgentsPaneView {
    let rows = agent_rows(s.agents, s.tasks, s.hide_stale_agents, now);
    let stale = partition(s.agents, now).2;
    if rows.len() > 0 {
        AgentsPaneView::Rows(rows)
    } else if s.hide_stale_agents && stale > 0 {
        AgentsPaneView::Hint(
            "all "@ + text::decimal(stale) + " agents are stale\npress A to show them"@,
        )
    } else {
        AgentsPaneView::Hint("no agents have heartbeated yet"@)
    }
}

/// The status line: an error, else a message, else that all is ready.
pub open spec fn status_line(s: TopView) -> Seq<SpanView> {
    match (s.last_err, s.status) {
        (Some(e), _) => seq![styled("[error] "@, bold_fg(Color::Red)), raw(e)],
        (None, Some(msg)) => seq![styled("[ok] "@, bold_fg(Color::Green)), raw(msg)],
        (None, None) => seq![styled("ready"@, fg(Color::DarkGray))],
    }
}

/// A key and what it does.
pub open spec fn hint(key: Seq<char>, label: Seq<char>) -> SpanView {
    raw("["@ + key + "] "@ + label + "  "@)
}

/// The line that names the keys.
pub open spec fn hints_line() -> Seq<SpanView> {
    seq![
        hint("q"@, "quit"@),
        hint("↑↓"@, "select"@),
        hint("d"@, "detail"@),
        hint("A"@, "stale"@),
        hint("p"@, "pause"@),
        hint("r"@, "refresh"@),
        hint("f"@, "filter"@),
        hint("s"@, "send"@),
        hint("c"@, "cancel"@),
    ]
}

/// One frame of the dashboard on a terminal of the given width.
pub open spec fn frame(
    s: TopView,
    visible: Seq<JsonView>,
    now: Timestamp,
    refresh_age: Seq<char>,
    width: u16,
) -> FrameView {
    FrameView {
        title: "coord"@,
        header: seq![
            agents_line(s, now),
            tasks_line(s, visible.len()),
            settings_line(s, refresh_age),
        ],
        agents_title: agents_heading(s, now),
        agents_columns: seq![" "@, "ID"@, "UPTIME"@, "DOING"@],
        agents: agents_body(s, now),
        tasks_title: "tasks ("@ + text::decimal(visible.len()) + "/"@ + text::decimal(s.tasks.len())
            + ")"@,
        tasks_columns: seq![
            "ID"@,
            "AGE"@,
            "PRIO"@,
            "KIND"@,
            "STATE"@,
            "CLAIMED_BY"@,
            "NAME"@,
        ],
        tasks: Seq::new(visible.len(), |i: int| task_cells(visible[i], now)),
        detail_title: "detail"@,
        detail: if s.show_detail && width >= DETAIL_MIN_WIDTH {
            Some(
                detail_pane(
                    if 0 <= s.selected < visible.len() {
                        Some(visible[s.selected])
                    } else {
                        None
                    },
                    now,
                ),
            )
        } else {
            None
        },
        status: status_line(s),
        hints: hints_line(),
    }
}

fn header_agents(state: &TopState, counts: (usize, usize, usize), now: &Timestamp) -> (r: Line)
    requires
        (counts.0 as nat, counts.1 as nat, counts.2 as nat) == partition(state@.agents, *now),
    ensures
        r@ == agents_line(state@, *now),
{
    let mut line = Line::new();
    line.text("coord top", Some(Color::Magenta), true);
    line.raw("  •  ");
    line.text(number(counts.0).as_str(), Some(Color::Green), true);
    line.raw(" active  ");
    line.text(number(counts.1).as_str(), Some(Color::Yellow), false);
    line.raw(" idle  ");
    line.text(number(counts.2).as_str(), Some(Color::DarkGray), false);
    let mut last = " stale  (".to_owned();
    last.append(number(state.agents.len()).as_str());
    last.append(" agents total)");
    line.raw(last.as_str());
    assert(line@ =~= agents_line(state@, *now));
    line
}

/// Adds a state with the number of tasks in it.
fn bracket_count(line: &mut Line, tasks: &Vec<Json>, state: &str, color: Color)
    ensures
        final(line)@ == old(line)@.push(state_count(json::views(tasks@), state@, color)),
{
    let n: usize = printing::count_state(tasks, state);
    let mut s = state.to_owned();
    s.append("=");
    s.append(number(n).as_str());
    if n > 0 {
        line.text(s.as_str(), Some(color), false);
    } else {
        line.text(s.as_str(), Some(Color::DarkGray), false);
    }
}

fn header_tasks(state: &TopState, visible: usize) -> (r: Line)
    ensures
        r@ == tasks_line(state@, visible as nat),
{
    let mut line = Line::new();
    line.raw("tasks: ");
    line.text(number(visible).as_str(), Some(Color::Cyan), true);
    let mut total = " visible / ".to_owned();
    total.append(number(state.tasks.len()).as_str());
    total.append(" total  ");
    line.raw(total.as_str());
    bracket_count(&mut line, &state.tasks, "pending", Color::Yellow);
    line.raw(" ");
    bracket_count(&mut line, &state.tasks, "claimed", Color::Cyan);
    line.raw(" ");
    bracket_count(&mut line, &state.tasks, "completed", Color::Green);
    line.raw(" ");
    bracket_count(&mut line, &state.tasks, "failed", Color::Red);
    line.raw(" ");
    bracket_count(&mut line, &state.tasks, "cancelled", Color::DarkGray);
    assert(line@ =~= tasks_line(state@, visible as nat));
    line
}

fn header_settings(state: &TopState, refresh_age: &str) -> (r: Line)
    ensures
        r@ == settings_line(state@, refresh_age@),
{
    let mut line = Line::new();
    let mut filter = "filter: ".to_owned();
    filter.append(state.filter.label());
    filter.append("  •  ");
    line.raw(filter.as_str());
    let mut rest = "agents-hidden: ".to_owned();
    if state.hide_stale_agents {
        rest.append("stale");
    } else {
        rest.append("off");
    }
    rest.append("  •  detail: ");
    if state.show_detail {
        rest.append("on");
    } else {
        rest.append("off");
    }
    rest.append("  •  refreshed ");
    rest.append(refresh_age);
    line.raw(rest.as_str());
    if state.paused {
        line.text("  PAUSED", Some(Color::Yellow), true);
    } else {
        line.raw("");
    }
    assert(line@ =~= settings_line(state@, refresh_age@));
    line
}

fn agents_part(state: &TopState, stale: usize, now: &Timestamp) -> (r: (String, AgentsPane))
    requires
        stale == partition(state@.agents, *now).2,
    ensures
        r.0@ == agents_heading(state@, *now),
        r.1@ == agents_body(state@, *now),
{
    let rows = rows_of_agents(&state.agents, &state.tasks, state.hide_stale_agents, now);
    let ghost shown = agent_rows(state@.agents, state@.tasks, state@.hide_stale_agents, *now);
    assert(rows@.len() == shown.len());
    let hidden = state.hide_stale_agents && stale > 0;
    let mut title = "agents (".to_owned();
    title.append(number(rows.len()).as_str());
    let ghost head = title@;
    if hidden {
        let mut more = " • +".to_owned();
        more.append(number(stale).as_str());
        more.append(" hidden");
        title.append(more.as_str());
    }
    assert(title@ =~= head + (if hidden {
        " • +"@ + text::decimal(stale as nat) + " hidden"@
    } else {
        Seq::empty()
    }));
    title.append(")");
    let pane = if rows.len() > 0 {
        AgentsPane::Rows(rows)
    } else if hidden {
        let mut hint = "all ".to_owned();
        hint.append(number(stale).as_str());
        hint.append(" agents are stale\npress A to show them");
        AgentsPane::Hint(hint)
    } else {
        AgentsPane::Hint("no agents have heartbeated yet".to_owned())
    };
    (title, pane)
}

fn footer_status(state: &TopState) -> (r: Line)
    ensures
        r@ == status_line(state@),
{
    let mut line = Line::new();
    match (&state.last_err, &state.status) {
        (Some(e), _) => {
            line.text("[error] ", Some(Color::Red), true);
            line.raw(e.as_str());
        },
        (None, Some(msg)) => {
            line.text("[ok] ", Some(Color::Green), true);
            line.raw(msg.as_str());
        },
        (None, None) => {
            line.text("ready", Some(Color::DarkGray), false);
        },
    }
    assert(line@ =~= status_line(state@));
    line
}

fn key_hint(line: &mut Line, key: &str, label: &str)
    ensures
        final(line)@ == old(line)@.push(hint(key@, label@)),
{
    let mut s = "[".to_owned();
    s.append(key);
    s.append("] ");
    s.append(label);
    s.append("  ");
    line.raw(s.as_str());
}

fn footer_hints() -> (r: Line)
    ensures
        r@ == hints_line(),
{
    let mut line = Line::new();
    key_hint(&mut line, "q", "quit");
    key_hint(&mut line, "↑↓", "select");
    key_hint(&mut line, "d", "detail");
    key_hint(&mut line, "A", "stale");
    key_hint(&mut line, "p", "pause");
    key_hint(&mut line, "r", "refresh");
    key_hint(&mut line, "f", "filter");
    key_hint(&mut line, "s", "send");
    key_hint(&mut line, "c", "cancel");
    assert(line@ =~= hints_line());
    line
}

/// Works out one frame of the dashboard on a terminal of the given width.
/// `visible` are the tasks that the filter shows, and `refresh_age` says how
/// long ago the daemon was asked.
pub fn draw(
    state: &TopState,
    visible: &Vec<Json>,
    now: &Timestamp,
    refresh_age: &str,
    width: u16,
) -> (r: Frame)
    ensures
        r@ == frame(state@, json::views(visible@), *now, refresh_age@, width),
{
    let counts = partition_agents(&state.agents, now);
    let mut header: Vec<Line> = Vec::new();
    header.push(header_agents(state, counts, now));
    header.push(header_tasks(state, visible.len()));
    header.push(header_settings(state, refresh_age));
    let (agents_title, agents) = agents_part(state, counts.2, now);
    let mut tasks_title = "tasks (".to_owned();
    tasks_title.append(number(visible.len()).as_str());
    tasks_title.append("/");
    tasks_title.append(number(state.tasks.len()).as_str());
    tasks_title.append(")");
    let tasks = rows_of_tasks(visible, now);
    let detail = if state.show_detail && width >= DETAIL_MIN_WIDTH {
        if state.selected < visible.len() {
            assert(json::views(visible@)[state.selected as int] == visible@[state.selected as int]@);
            Some(build_detail(Some(&visible[state.selected]), now))
        } else {
            Some(build_detail(None, now))
        }
    } else {
        None
    };
    let agents_columns: Vec<&'static str> = vec![" ", "ID", "UPTIME", "DOING"];
    let tasks_columns: Vec<&'static str> = vec![
        "ID",
        "AGE",
        "PRIO",
        "KIND",
        "STATE",
        "CLAIMED_BY",
        "NAME",
    ];
    let r = Frame {
        title: "coord",
        header,
        agents_title,
        agents_columns,
        agents,
        tasks_title,
        tasks_columns,
        tasks,
        detail_title: "detail",
        detail,
        status: footer_status(state),
        hints: footer_hints(),
    };
    assert(r@.agents_columns =~= seq![" "@, "ID"@, "UPTIME"@, "DOING"@]);
    assert(r@.tasks_columns =~= seq![
        "ID"@,
        "AGE"@,
        "PRIO"@,
        "KIND"@,
        "STATE"@,
        "CLAIMED_BY"@,
        "NAME"@,
    ]);
    assert(r@.header =~= frame(
        state@,
        json::views(visible@),
        *now,
        refresh_age@,
        width,
    ).header);
    assert(r@.tasks =~= frame(state@, json::views(visible@), *now, refresh_age@, width).tasks);
    r
}

// ---------------------------------------------------------------------
// What a frame says
// ---------------------------------------------------------------------

/// Agents are counted one by one: as active up to fifteen seconds after their
/// last report, as idle up to a minute, and as stale after that or where the
/// report cannot be read.
pub proof fn lemma_partition(agents: Seq<JsonView>, a: JsonView, now: Timestamp)
    ensures
        partition(Seq::empty(), now) == (0nat, 0nat, 0nat),
        ({
            let before = partition(agents, now);
            let after = partition(agents.push(a), now);
            match printing::age_of(json::member_text_or(a, "last_seen"@, ""@), now) {
                Some(ms) => {
                    &&& ms <= 15_000 ==> after == (before.0 + 1, before.1, before.2)
                    &&& 15_000 < ms <= 60_000 ==> after == (before.0, before.1 + 1, before.2)
                    &&& ms > 60_000 ==> after == (before.0, before.1, before.2 + 1)
                },
                None => after == (before.0, before.1, before.2 + 1),
            }
        }),
{
    assert(agents.push(a).drop_last() =~= agents);
}

/// Each agent is shown or not by itself, in their order. One is left out only
/// where stale ones are hidden and its last report is over a minute old.
pub proof fn lemma_agents_shown(
    a: Seq<JsonView>,
    b: Seq<JsonView>,
    one: JsonView,
    tasks: Seq<JsonView>,
    hide: bool,
    now: Timestamp,
)
    ensures
        agent_rows(a + b, tasks, hide, now) == agent_rows(a, tasks, hide, now) + agent_rows(
            b,
            tasks,
            hide,
            now,
        ),
        agent_rows(seq![one], tasks, hide, now) == if hide && (printing::age_of(
            json::member_text_or(one, "last_seen"@, ""@),
            now,
        ) matches Some(ms) && ms > 60_000) {
            Seq::empty()
        } else {
            seq![agent_cells(one, tasks, now)]
        },
    decreases b.len(),
{
    let single = seq![one];
    assert(single.drop_last() =~= Seq::<JsonView>::empty());
    assert(agent_rows(single.drop_last(), tasks, hide, now) == Seq::<AgentCellsView>::empty());
    assert(Seq::<AgentCellsView>::empty().push(agent_cells(one, tasks, now)) =~= seq![
        agent_cells(one, tasks, now),
    ]);
    if b.len() == 0 {
        assert(a + b =~= a);
        assert(agent_rows(a, tasks, hide, now) + agent_rows(b, tasks, hide, now) =~= agent_rows(
            a,
            tasks,
            hide,
            now,
        ));
    } else {
        lemma_agents_shown(a, b.drop_last(), one, tasks, hide, now);
        assert((a + b).drop_last() =~= a + b.drop_last());
        assert(agent_rows(a + b, tasks, hide, now) =~= agent_rows(a, tasks, hide, now)
            + agent_rows(b, tasks, hide, now));
    }
}

/// The row of an agent names it. A full dot and a bold green row stand for a
/// report within fifteen seconds, a full dot and a yellow row for one within a
/// minute, and an empty dot and a gray row for anything else. Its uptime is
/// the time since its first report, or since its last one where the first is
/// not known.
pub proof fn lemma_agent_cells(a: JsonView, tasks: Seq<JsonView>, now: Timestamp, ms: int)
    ensures
        ({
            let row = agent_cells(a, tasks, now);
            let last = json::member_text_or(a, "last_seen"@, ""@);
            &&& row.id == json::member_text_or(a, "id"@, ""@)
            &&& row.doing == doing(a, tasks)
            &&& printing::age_of(last, now) == Some(ms) && ms <= 15_000 ==> row.dot == "●"@
                && row.style == (Style { fg: Some(Color::Green), bold: true })
            &&& printing::age_of(last, now) == Some(ms) && 15_000 < ms <= 60_000 ==> row.dot
                == "●"@ && row.style == (Style { fg: Some(Color::Yellow), bold: false })
            &&& printing::age_of(last, now) == Some(ms) && ms > 60_000 ==> row.dot == "○"@
                && row.style == (Style { fg: Some(Color::DarkGray), bold: false })
            &&& printing::age_of(last, now) is None ==> row.dot == "○"@ && row.style == (Style {
                fg: Some(Color::DarkGray),
                bold: false,
            })
            &&& match json::member_text(a, "first_seen"@) {
                Some(first) => {
                    &&& text::has_prefix(first, "1970"@) || first.len() == 0 ==> row.uptime
                        == printing::age_label(last, now)
                    &&& !text::has_prefix(first, "1970"@) && first.len() > 0 ==> row.uptime
                        == printing::age_label(first, now)
                },
                None => row.uptime == printing::age_label(last, now),
            }
        }),
{
}

/// What an agent does is told by the name of the task that it holds, or by the
/// beginning of its identifier where the task is not among those known. One
/// that holds none is waiting.
pub proof fn lemma_doing(agent: JsonView, tasks: Seq<JsonView>, id: Seq<char>, k: int)
    ensures
        !(json::member(agent, "current_task"@) matches Some(JsonView::Text(_))) ==> doing(
            agent,
            tasks,
        ) == "waiting…"@,
        json::member(agent, "current_task"@) == Some(JsonView::Text(id)) && 0 <= k < tasks.len()
            && json::member(tasks[k], "id"@) == Some(JsonView::Text(id)) && (forall|j: int|
            0 <= j < k ==> json::member(#[trigger] tasks[j], "id"@) != Some(JsonView::Text(id)))
            ==> text::has_suffix(
            doing(agent, tasks),
            " "@ + json::member_text_or(tasks[k], "name"@, ""@),
        ),
        json::member(agent, "current_task"@) == Some(JsonView::Text(id)) && (forall|j: int|
            0 <= j < tasks.len() ==> json::member(#[trigger] tasks[j], "id"@) != Some(
                JsonView::Text(id),
            )) ==> text::has_suffix(doing(agent, tasks), text::first_chars(id, 8)),
{
    if json::member(agent, "current_task"@) == Some(JsonView::Text(id)) {
        if 0 <= k < tasks.len() && json::member(tasks[k], "id"@) == Some(JsonView::Text(id)) && (
        forall|j: int|
            0 <= j < k ==> json::member(#[trigger] tasks[j], "id"@) != Some(JsonView::Text(id))) {
            lemma_task_found(tasks, id, k);
            let t = tasks[k];
            let tail = " "@ + json::member_text_or(t, "name"@, ""@);
            let s = doing(agent, tasks);
            assert(s.skip(s.len() - tail.len()) =~= tail);
        }
        if forall|j: int|
            0 <= j < tasks.len() ==> json::member(#[trigger] tasks[j], "id"@) != Some(
                JsonView::Text(id),
            ) {
            lemma_task_not_found(tasks, id);
            let tail = text::first_chars(id, 8);
            let s = doing(agent, tasks);
            assert(s.skip(s.len() - tail.len()) =~= tail);
        }
    }
}

proof fn lemma_task_found(tasks: Seq<JsonView>, id: Seq<char>, k: int)
    requires
        0 <= k < tasks.len(),
        json::member(tasks[k], "id"@) == Some(JsonView::Text(id)),
        forall|j: int|
            0 <= j < k ==> json::member(#[trigger] tasks[j], "id"@) != Some(JsonView::Text(id)),
    ensures
        task_with_id(tasks, id) == Some(tasks[k]),
    decreases tasks.len(),
{
    if k > 0 {
        let rest = tasks.drop_first();
        assert(json::member(tasks[0], "id"@) != Some(JsonView::Text(id)));
        assert forall|j: int| 0 <= j < k - 1 implies json::member(#[trigger] rest[j], "id"@)
            != Some(JsonView::Text(id)) by {
            assert(rest[j] == tasks[j + 1]);
        }
        lemma_task_found(rest, id, k - 1);
    }
}

proof fn lemma_task_not_found(tasks: Seq<JsonView>, id: Seq<char>)
    requires
        forall|j: int|
            0 <= j < tasks.len() ==> json::member(#[trigger] tasks[j], "id"@) != Some(
                JsonView::Text(id),
            ),
    ensures
        task_with_id(tasks, id) is None,
    decreases tasks.len(),
{
    if tasks.len() > 0 {
        let rest = tasks.drop_first();
        assert(json::member(tasks[0], "id"@) != Some(JsonView::Text(id)));
        assert forall|j: int| 0 <= j < rest.len() implies json::member(#[trigger] rest[j], "id"@)
            != Some(JsonView::Text(id)) by {
            assert(rest[j] == tasks[j + 1]);
        }
        lemma_task_not_found(rest, id);
    }
}

/// A priority is shown by its name, one that is not known as normal, and a
/// kind by its name whatever it is.
pub proof fn lemma_marks(p: Seq<char>, k: Seq<char>)
    ensures
        p == "urgent"@ || p == "high"@ || p == "low"@ || p == "normal"@ ==> text::has_suffix(
            priority_mark(p),
            " "@ + p,
        ),
        !(p == "urgent"@ || p == "high"@ || p == "low"@) ==> priority_mark(p) == priority_mark(
            "normal"@,
        ),
        text::has_suffix(kind_mark(k), "] "@ + k),
{
    reveal_strlit("urgent");
    reveal_strlit("high");
    reveal_strlit("low");
    reveal_strlit("normal");
    reveal_strlit("‼ urgent");
    reveal_strlit("▲ high");
    reveal_strlit("▽ low");
    reveal_strlit("  normal");
    reveal_strlit(" ");
    reveal_strlit("] ");
    reveal_strlit("[ ] ");
    reveal_strlit("bug");
    reveal_strlit("feature");
    reveal_strlit("decision");
    reveal_strlit("ack");
    reveal_strlit("knowledge");
    reveal_strlit("build");
    reveal_strlit("[B] bug");
    reveal_strlit("[F] feature");
    reveal_strlit("[D] decision");
    reveal_strlit("[A] ack");
    reveal_strlit("[K] knowledge");
    reveal_strlit("[X] build");
    assert("normal"@.len() == 6 && "urgent"@.len() == 6 && "normal"@[0] != "urgent"@[0]);
    assert("high"@.len() == 4 && "low"@.len() == 3);
    let m = priority_mark(p);
    let tail = " "@ + p;
    if p == "urgent"@ || p == "high"@ || p == "low"@ || p == "normal"@ {
        assert(m.skip(m.len() - tail.len()) =~= tail);
    }
    let m = kind_mark(k);
    let tail = "] "@ + k;
    assert(m.skip(m.len() - tail.len()) =~= tail);
}

/// What has ended looks the same whatever its priority: green where it was
/// completed, gray where it was called off, red where it failed. Of the rest,
/// urgent and high ones stand out, then the state decides.
pub proof fn lemma_row_look(state: Seq<char>, priority: Seq<char>)
    ensures
        row_look("completed"@, priority) == (Style { fg: Some(Color::Green), bold: false }),
        row_look("cancelled"@, priority) == (Style { fg: Some(Color::DarkGray), bold: false }),
        row_look("failed"@, priority) == (Style { fg: Some(Color::Red), bold: true }),
        state == "pending"@ || state == "claimed"@ ==> {
            &&& row_look(state, "urgent"@) == (Style { fg: Some(Color::Red), bold: true })
            &&& row_look(state, "high"@) == (Style { fg: Some(Color::Magenta), bold: true })
            &&& priority != "urgent"@ && priority != "high"@ ==> row_look(state, priority) == (
            Style {
                fg: Some(
                    if state == "pending"@ {
                        Color::Yellow
                    } else {
                        Color::Cyan
                    },
                ),
                bold: false,
            })
        },
{
    laws::lemma_state_names_differ();
    reveal_strlit("failed");
    reveal_strlit("completed");
    reveal_strlit("cancelled");
    reveal_strlit("urgent");
    reveal_strlit("high");
    assert("failed"@.len() == 6 && "completed"@.len() == 9 && "cancelled"@.len() == 9);
    assert("urgent"@.len() == 6 && "high"@.len() == 4);
}

/// The row of a task begins with its identifier and shows its state, claimer
/// and name as they are, and the time since it was posted.
pub proof fn lemma_task_cells(t: JsonView, now: Timestamp, s: Seq<char>)
    ensures
        json::member(t, "id"@) == Some(JsonView::Text(s)) ==> task_cells(t, now).id
            == text::first_chars(s, 8),
        json::member(t, "state"@) == Some(JsonView::Text(s)) ==> task_cells(t, now).state == s,
        json::member(t, "name"@) == Some(JsonView::Text(s)) ==> task_cells(t, now).name == s,
        json::member(t, "claimed_by"@) == Some(JsonView::Text(s)) ==> task_cells(t, now).claimed_by
            == s,
        !(json::member(t, "claimed_by"@) matches Some(JsonView::Text(_))) ==> task_cells(
            t,
            now,
        ).claimed_by == "-"@,
        json::member(t, "created_at"@) == Some(JsonView::Text(s)) ==> task_cells(t, now).age
            == printing::age_label(s, now),
        json::member(t, "priority"@) == Some(JsonView::Text(s)) ==> task_cells(t, now).priority
            == priority_mark(s),
        json::member(t, "kind"@) == Some(JsonView::Text(s)) ==> text::has_suffix(
            task_cells(t, now).kind,
            "] "@ + s,
        ),
{
    lemma_marks(s, s);
}

/// An excerpt is the whole where that is short enough, and otherwise its first
/// lines and one that says how many more there are.
pub proof fn lemma_excerpt(v: JsonView, max: nat)
    ensures
        ({
            let lines = text::lines_of(json::pretty_text(v));
            let shown = excerpt(v, max);
            &&& lines.len() <= max ==> shown == lines
            &&& lines.len() > max ==> shown.len() == max + 1 && shown.drop_last() == lines.take(
                max as int,
            ) && shown.last() == "… +"@ + text::decimal((lines.len() - max) as nat)
                + " more lines"@
        }),
{
    let lines = text::lines_of(json::pretty_text(v));
    if lines.len() > max {
        assert(excerpt(v, max).drop_last() =~= lines.take(max as int));
    }
}

/// The detail pane shows name, identifier, kind, priority, state and claimer
/// of a task, then up to twelve lines of its payload and up to eight of its
/// result; a payload or a result that is `null` or not there is not shown.
pub proof fn lemma_detail(t: JsonView, now: Timestamp)
    ensures
        ({
            let lines = detail(t, now);
            let payload = json::member(t, "payload"@);
            let result = json::member(t, "result"@);
            let p: int = if payload is None || payload == Some(JsonView::Null) {
                0
            } else {
                2 + excerpt(payload->0, 12).len() as int
            };
            let r: int = if result is None || result == Some(JsonView::Null) {
                0
            } else {
                2 + excerpt(result->0, 8).len() as int
            };
            &&& lines.len() == 8 + p + r
            &&& lines[0][0].content == ContentView::Text(json::member_text_or(t, "name"@, ""@))
            &&& lines[2][1].content == ContentView::Text(json::member_text_or(t, "id"@, "?"@))
            &&& lines[3][1].content == ContentView::Text(
                kind_mark(json::member_text_or(t, "kind"@, "task"@)),
            )
            &&& lines[4][1].content == ContentView::Text(
                json::member_text_or(t, "priority"@, "normal"@),
            )
            &&& lines[5][1].content == ContentView::Text(json::member_text_or(t, "state"@, ""@))
            &&& lines[6][1].content == ContentView::Text(
                json::member_text_or(t, "claimed_by"@, "-"@),
            )
            &&& lines[7][1].content == ContentView::Age(
                printing::age_label(json::member_text_or(t, "created_at"@, ""@), now),
            )
            &&& lines[7][3].content == ContentView::Age(
                printing::age_label(json::member_text_or(t, "updated_at"@, ""@), now),
            )
            &&& p > 0 ==> lines[9][0].content == ContentView::Text("payload"@) && forall|i: int|
                #![trigger excerpt(payload->0, 12)[i]]
                0 <= i < excerpt(payload->0, 12).len() ==> lines[10 + i][0].content
                    == ContentView::Text(excerpt(payload->0, 12)[i])
            &&& r > 0 ==> lines[9 + p][0].content == ContentView::Text("result"@) && forall|i: int|
                #![trigger excerpt(result->0, 8)[i]]
                0 <= i < excerpt(result->0, 8).len() ==> lines[10 + p + i][0].content
                    == ContentView::Text(excerpt(result->0, 8)[i])
        }),
{
}

/// The header tells how many agents are active, idle, stale and there at all,
/// how many tasks are shown and there at all, and how many are in each state.
pub proof fn lemma_header(s: TopView, visible: nat, now: Timestamp)
    ensures
        ({
            let counts = partition(s.agents, now);
            let a = agents_line(s, now);
            let t = tasks_line(s, visible);
            &&& a[2].content == ContentView::Text(text::decimal(counts.0))
            &&& a[3].content == ContentView::Text(" active  "@)
            &&& a[4].content == ContentView::Text(text::decimal(counts.1))
            &&& a[5].content == ContentView::Text(" idle  "@)
            &&& a[6].content == ContentView::Text(text::decimal(counts.2))
            &&& a[7].content == ContentView::Text(
                " stale  ("@ + text::decimal(s.agents.len()) + " agents total)"@,
            )
            &&& t[1].content == ContentView::Text(text::decimal(visible))
            &&& t[2].content == ContentView::Text(
                " visible / "@ + text::decimal(s.tasks.len()) + " total  "@,
            )
            &&& t[3].content == ContentView::Text(
                "pending"@ + "="@ + text::decimal(printing::count_in(s.tasks, "pending"@)),
            )
            &&& t[5].content == ContentView::Text(
                "claimed"@ + "="@ + text::decimal(printing::count_in(s.tasks, "claimed"@)),
            )
            &&& t[7].content == ContentView::Text(
                "completed"@ + "="@ + text::decimal(printing::count_in(s.tasks, "completed"@)),
            )
            &&& t[9].content == ContentView::Text(
                "failed"@ + "="@ + text::decimal(printing::count_in(s.tasks, "failed"@)),
            )
            &&& t[11].content == ContentView::Text(
                "cancelled"@ + "="@ + text::decimal(printing::count_in(s.tasks, "cancelled"@)),
            )
        }),
{
}

/// A frame has a row for each task that is shown, in their order, and says
/// what went wrong before it says anything else. The details are those of the
/// marked task; they are there where they are wanted and the terminal has at
/// least 116 columns.
pub proof fn lemma_frame(
    s: TopView,
    visible: Seq<JsonView>,
    now: Timestamp,
    refresh_age: Seq<char>,
    width: u16,
)
    ensures
        ({
            let f = frame(s, visible, now, refresh_age, width);
            &&& f.tasks.len() == visible.len()
            &&& forall|i: int|
                0 <= i < visible.len() ==> (#[trigger] f.tasks[i]) == task_cells(visible[i], now)
            &&& f.detail is Some <==> s.show_detail && width >= 116
            &&& (f.detail matches Some(lines) ==> {
                &&& 0 <= s.selected < visible.len() ==> lines == detail(visible[s.selected], now)
                &&& !(0 <= s.selected < visible.len()) ==> lines.len() == 1 && lines[0].len() == 1
                    && lines[0][0].content == ContentView::Text("no task selected"@)
            })
            &&& (s.last_err matches Some(e) ==> f.status.len() == 2 && f.status[1].content
                == ContentView::Text(e) && f.status[0].content == ContentView::Text("[error] "@))
            &&& s.last_err is None ==> (s.status matches Some(msg) ==> f.status.len() == 2
                && f.status[1].content == ContentView::Text(msg))
            &&& s.last_err is None && s.status is None ==> f.status.len() == 1
                && f.status[0].content == ContentView::Text("ready"@)
            &&& (f.agents matches AgentsPaneView::Rows(rows) ==> rows.len() > 0 && rows
                == agent_rows(s.agents, s.tasks, s.hide_stale_agents, now))
            &&& f.agents is Hint ==> agent_rows(s.agents, s.tasks, s.hide_stale_agents, now).len()
                == 0
            &&& f.header.len() == 3
            &&& f.header[0] == agents_line(s, now)
            &&& f.header[1] == tasks_line(s, visible.len())
            &&& f.header[2][2].content == ContentView::Text(
                if s.paused {
                    "  PAUSED"@
                } else {
                    ""@
                },
            )
        }),
{
}

/// The header tells the filter, and the title of the agents pane how many are
/// shown and, where stale ones are hidden, how many of those there are.
pub proof fn lemma_titles(s: TopView, now: Timestamp, refresh_age: Seq<char>)
    ensures
        settings_line(s, refresh_age)[0].content == ContentView::Text(
            "filter: "@ + (match s.filter {
                tui::Filter::Active => "active"@,
                tui::Filter::Attention => "attention"@,
                tui::Filter::All => "all"@,
            }) + "  •  "@,
        ),
        ({
            let stale = partition(s.agents, now).2;
            let shown = agent_rows(s.agents, s.tasks, s.hide_stale_agents, now).len();
            &&& s.hide_stale_agents && stale > 0 ==> agents_heading(s, now) == "agents ("@
                + text::decimal(shown) + (" • +"@ + text::decimal(stale) + " hidden"@) + ")"@
            &&& !(s.hide_stale_agents && stale > 0) ==> agents_heading(s, now) == "agents ("@
                + text::decimal(shown) + ")"@
        }),
        (agents_body(s, now) matches AgentsPaneView::Hint(h) ==> {
            let stale = partition(s.agents, now).2;
            &&& s.hide_stale_agents && stale > 0 ==> text::has_prefix(
                h,
                "all "@ + text::decimal(stale) + " agents"@,
            )
            &&& !(s.hide_stale_agents && stale > 0) ==> h == "no agents have heartbeated yet"@
        }),
{
    let stale = partition(s.agents, now).2;
    let shown = agent_rows(s.agents, s.tasks, s.hide_stale_agents, now).len();
    assert("agents ("@ + text::decimal(shown) + Seq::<char>::empty() + ")"@ =~= "agents ("@
        + text::decimal(shown) + ")"@);
    let head = "all "@ + text::decimal(stale) + " agents"@;
    let h = "all "@ + text::decimal(stale) + " agents are stale\npress A to show them"@;
    reveal_strlit(" agents");
    reveal_strlit(" agents are stale\npress A to show them");
    assert(h.take(head.len() as int) =~= head);
}

/// A state and a priority have colours of their own in the details.
pub proof fn lemma_colors(s: Seq<char>)
    ensures
        state_color("pending"@) == Color::Yellow,
        state_color("claimed"@) == Color::Cyan,
        state_color("completed"@) == Color::Green,
        state_color("failed"@) == Color::Red,
        state_color("cancelled"@) == Color::DarkGray,
        !(s == "pending"@ || s == "claimed"@ || s == "completed"@ || s == "failed"@ || s
            == "cancelled"@) ==> state_color(s) == Color::White,
        priority_color("urgent"@) == Color::Red,
        priority_color("high"@) == Color::Magenta,
        priority_color("low"@) == Color::DarkGray,
        !(s == "urgent"@ || s == "high"@ || s == "low"@) ==> priority_color(s) == Color::White,
{
    laws::lemma_state_names_differ();
    reveal_strlit("failed");
    reveal_strlit("completed");
    reveal_strlit("cancelled");
    reveal_strlit("urgent");
    reveal_strlit("high");
    reveal_strlit("low");
    assert("failed"@.len() == 6 && "completed"@.len() == 9 && "cancelled"@.len() == 9);
    assert("urgent"@.len() == 6 && "high"@.len() == 4 && "low"@.len() == 3);
}

} // verus!
