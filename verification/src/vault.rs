//! The markdown vault: a readable audit trail of tasks and agents.
//!
//! Every change of state yields notes, which say what is to stand in which
//! file under the vault directory. Whoever owns the directory carries them
//! out in order. Tasks are kept under `tasks/`, decisions a second time under
//! `decisions/`, and each agent has a log under `agents/`. A file is named by
//! a slug, followed by the identifier of the task or agent where the plain
//! name belongs to another. Links between notes are written `[[...]]`.

use vstd::prelude::*;

use crate::json;
use crate::json::{Json, JsonView};
use crate::slug;
use crate::text;
use crate::time;
use crate::time::Timestamp;
use crate::types;
use crate::types::{Task, TaskView};

verus! {

/// What is to be done to one file, named relative to the vault directory.
#[derive(Debug, PartialEq, Eq)]
pub enum Note {
    /// The file holds exactly `body`, whatever it held before.
    Write { path: String, body: String },
    /// The file is made with `body`, unless it is there already.
    Create { path: String, body: String },
    /// The file, which is there, gets `line` at its end.
    Append { path: String, line: String },
}

/// What a note holds.
#[verifier::ext_equal]
pub enum NoteView {
    Write { path: Seq<char>, body: Seq<char> },
    Create { path: Seq<char>, body: Seq<char> },
    Append { path: Seq<char>, line: Seq<char> },
}

impl View for Note {
    type V = NoteView;

    open spec fn view(&self) -> NoteView {
        match self {
            Note::Write { path, body } => NoteView::Write { path: path@, body: body@ },
            Note::Create { path, body } => NoteView::Create { path: path@, body: body@ },
            Note::Append { path, line } => NoteView::Append { path: path@, line: line@ },
        }
    }
}

/// The views of a sequence of notes.
pub open spec fn note_views(notes: Seq<Note>) -> Seq<NoteView> {
    Seq::new(notes.len(), |i: int| notes[i]@)
}

/// A task that another one refers to: the name of the payload field that
/// does so, and the name of the task's note.
#[derive(Debug, PartialEq, Eq)]
pub struct Relation {
    pub label: String,
    pub target: String,
}

/// What a relation holds.
pub open spec fn relation_views(relations: Seq<Relation>) -> Seq<(Seq<char>, Seq<char>)> {
    Seq::new(relations.len(), |i: int| (relations[i].label@, relations[i].target@))
}

/// A file of the vault and whose it is: the identifier of a task or of an
/// agent.
#[derive(Debug, PartialEq, Eq)]
pub struct Owner {
    pub path: String,
    pub id: String,
}

/// What a sequence of owners holds: paths and identifiers.
pub open spec fn owner_views(owners: Seq<Owner>) -> Seq<(Seq<char>, Seq<char>)> {
    Seq::new(owners.len(), |i: int| (owners[i].path@, owners[i].id@))
}

/// What the vault's front page says.
pub const README: &'static str = "# agentd vault

Auto-generated audit trail of every task and agent in this project.

- **`tasks/`** — one note per task, frontmatter + payload + result
- **`agents/`** — one note per agent, with their activity log
- **`decisions/`** — mirrors of every `kind=decision` task for easy browsing

Open this directory in Obsidian (no plugins needed) and hit `Cmd+G` for
the graph view to see who's working on what across all sessions.

Wikilinks (`[[...]]`) cross-reference agents and tasks. Backlinks pane
shows everywhere a task or agent is mentioned.
";

// ---------------------------------------------------------------------
// Names
// ---------------------------------------------------------------------

/// The file of a note in one of the vault's directories.
pub open spec fn note_path(dir: Seq<char>, name: Seq<char>) -> Seq<char> {
    dir + name + ".md"@
}

/// Whose a file is.
pub open spec fn owner_of(owners: Seq<(Seq<char>, Seq<char>)>, path: Seq<char>) -> Option<Seq<char>>
    decreases owners.len(),
{
    if owners.len() == 0 {
        None
    } else if owners[0].0 == path {
        Some(owners[0].1)
    } else {
        owner_of(owners.drop_first(), path)
    }
}

/// The name of a note: the slug, or the slug and the identifier where the
/// file of the slug belongs to another.
pub open spec fn name_in(
    owners: Seq<(Seq<char>, Seq<char>)>,
    dir: Seq<char>,
    slug: Seq<char>,
    id: Seq<char>,
) -> Seq<char> {
    match owner_of(owners, note_path(dir, slug)) {
        Some(owner) if owner != id => slug + " ("@ + slug::escaped(id) + ")"@,
        _ => slug,
    }
}

/// The owners once a note with the slug is written: the file of the slug
/// belongs to the first who uses it.
pub open spec fn taken(
    owners: Seq<(Seq<char>, Seq<char>)>,
    dir: Seq<char>,
    slug: Seq<char>,
    id: Seq<char>,
) -> Seq<(Seq<char>, Seq<char>)> {
    if owner_of(owners, note_path(dir, slug)) is None {
        owners.push((note_path(dir, slug), id))
    } else {
        owners
    }
}

/// The name of a task's note, by which others link to it.
pub open spec fn task_name(owners: Seq<(Seq<char>, Seq<char>)>, t: TaskView) -> Seq<char> {
    name_in(owners, "tasks/"@, slug::slug_of(t), types::uuid_text(t.id))
}

/// The file of a task.
pub open spec fn task_path(owners: Seq<(Seq<char>, Seq<char>)>, t: TaskView) -> Seq<char> {
    note_path("tasks/"@, task_name(owners, t))
}

/// The second file of a decision.
pub open spec fn decision_path(owners: Seq<(Seq<char>, Seq<char>)>, t: TaskView) -> Seq<char> {
    note_path(
        "decisions/"@,
        name_in(owners, "decisions/"@, slug::dated_slug(t), types::uuid_text(t.id)),
    )
}

/// The name of an agent's log, by which notes link to it.
pub open spec fn log_name(owners: Seq<(Seq<char>, Seq<char>)>, id: Seq<char>) -> Seq<char> {
    name_in(owners, "agents/"@, slug::agent_slug(id), id)
}

/// The file of an agent's log.
pub open spec fn log_path(owners: Seq<(Seq<char>, Seq<char>)>, id: Seq<char>) -> Seq<char> {
    note_path("agents/"@, log_name(owners, id))
}

fn file_path(dir: &str, name: &str) -> (r: String)
    ensures
        r@ == note_path(dir@, name@),
{
    let mut path = dir.to_owned();
    path.append(name);
    path.append(".md");
    path
}

fn find_owner(owners: &Vec<Owner>, path: &str) -> (r: Option<usize>)
    ensures
        match r {
            Some(i) => i < owners@.len() && owner_of(owner_views(owners@), path@) == Some(
                owners@[i as int].id@,
            ),
            None => owner_of(owner_views(owners@), path@) is None,
        },
{
    let ghost all = owner_views(owners@);
    let mut i: usize = 0;
    assert(all.skip(0) =~= all);
    while i < owners.len()
        invariant
            i <= owners.len(),
            all == owner_views(owners@),
            owner_of(all, path@) == owner_of(all.skip(i as int), path@),
        decreases owners.len() - i,
    {
        assert(all.skip(i as int).drop_first() =~= all.skip(i + 1));
        assert(all.skip(i as int)[0] == (owners@[i as int].path@, owners@[i as int].id@));
        if text::same(owners[i].path.as_str(), path) {
            return Some(i);
        }
        i = i + 1;
    }
    None
}

fn pick_name(owners: &Vec<Owner>, dir: &str, slug: &str, id: &str) -> (r: String)
    ensures
        r@ == name_in(owner_views(owners@), dir@, slug@, id@),
{
    let mut name = slug.to_owned();
    match find_owner(owners, file_path(dir, slug).as_str()) {
        Some(i) => if !text::same(owners[i].id.as_str(), id) {
            name.append(" (");
            name.append(slug::escape(id).as_str());
            name.append(")");
        },
        None => {},
    }
    name
}

/// The name of a task's note.
pub fn name_of_task(owners: &Vec<Owner>, task: &Task) -> (r: String)
    ensures
        r@ == task_name(owner_views(owners@), task@),
{
    let slug = slug::task_slug(task);
    pick_name(owners, "tasks/", slug.as_str(), types::id_text(task.id).as_str())
}

/// The name of an agent's log.
pub fn name_of_log(owners: &Vec<Owner>, id: &str) -> (r: String)
    ensures
        r@ == log_name(owner_views(owners@), id@),
{
    let slug = slug::slugify_agent(id);
    pick_name(owners, "agents/", slug.as_str(), id)
}

/// The identifier in the front matter of a note.
pub open spec fn front_id(lines: Seq<Seq<char>>) -> Option<Seq<char>> {
    if lines.len() >= 2 && lines[0] == "---"@ && text::has_prefix(lines[1], "id: "@) {
        Some(lines[1].skip(4))
    } else {
        None
    }
}

/// Whose a file is that holds the given text: `None` for one that is not the
/// note of a task or of an agent.
pub fn owner_in_file(path: &str, body: &str) -> (r: Option<Owner>)
    ensures
        match r {
            Some(o) => o.path@ == path@ && front_id(text::lines_of(body@)) == Some(o.id@),
            None => front_id(text::lines_of(body@)) is None,
        },
{
    let lines = text::split_lines(body);
    assert(text::texts(lines@) == text::lines_of(body@));
    if lines.len() < 2 {
        return None;
    }
    assert(text::texts(lines@)[0] == lines@[0]@);
    assert(text::texts(lines@)[1] == lines@[1]@);
    if !text::same(lines[0].as_str(), "---") || !text::starts_with(lines[1].as_str(), "id: ") {
        return None;
    }
    proof {
        reveal_strlit("id: ");
    }
    let id = text::drop_chars(lines[1].as_str(), 4);
    Some(Owner { path: path.to_owned(), id })
}

// ---------------------------------------------------------------------
// The note of a task
// ---------------------------------------------------------------------

/// A line with a label and a value.
pub open spec fn field(label: Seq<char>, value: Seq<char>) -> Seq<char> {
    label + value + "\n"@
}

/// The texts among the elements of an array.
pub open spec fn text_items(items: Seq<JsonView>) -> Seq<Seq<char>>
    decreases items.len(),
{
    if items.len() == 0 {
        Seq::empty()
    } else {
        match json::as_text(items.last()) {
            Some(s) => text_items(items.drop_last()).push(s),
            None => text_items(items.drop_last()),
        }
    }
}

/// The files that a payload names.
pub open spec fn file_refs(payload: JsonView) -> Seq<Seq<char>> {
    match json::member(payload, "file_refs"@) {
        Some(JsonView::Array(items)) => text_items(items),
        _ => Seq::empty(),
    }
}

/// The line of the front matter that names the claimer.
pub open spec fn claimer_field(by: Option<Seq<char>>) -> Seq<char> {
    match by {
        Some(by) => field("claimed_by: "@, by),
        None => Seq::empty(),
    }
}

/// The line of the front matter that names files.
pub open spec fn refs_field(payload: JsonView) -> Seq<char> {
    if file_refs(payload).len() == 0 {
        Seq::empty()
    } else {
        "file_refs: ["@ + text::join(file_refs(payload), ", "@) + "]\n"@
    }
}

/// A line for each relation.
pub open spec fn relation_lines(relations: Seq<(Seq<char>, Seq<char>)>) -> Seq<char>
    decreases relations.len(),
{
    if relations.len() == 0 {
        Seq::empty()
    } else {
        relation_lines(relations.drop_last()) + "- `"@ + relations.last().0 + "` → [["@
            + relations.last().1 + "]]\n"@
    }
}

/// The section that links to related tasks.
pub open spec fn related_section(relations: Seq<(Seq<char>, Seq<char>)>) -> Seq<char> {
    if relations.len() == 0 {
        Seq::empty()
    } else {
        "## Related\n\n"@ + relation_lines(relations) + "\n"@
    }
}

/// The section that shows the payload.
pub open spec fn payload_section(payload: JsonView) -> Seq<char> {
    if payload == JsonView::Null {
        Seq::empty()
    } else {
        "## Payload\n\n```json\n"@ + json::pretty_text(payload) + "\n```\n\n"@
    }
}

/// The section that links to the claimer's log.
pub open spec fn claimer_section(
    owners: Seq<(Seq<char>, Seq<char>)>,
    by: Option<Seq<char>>,
) -> Seq<char> {
    match by {
        Some(by) => "## Claimed by\n[["@ + log_name(owners, by) + "]]\n\n"@,
        None => Seq::empty(),
    }
}

/// The section that shows the result.
pub open spec fn result_section(result: Option<JsonView>) -> Seq<char> {
    match result {
        Some(r) => "## Result\n\n```json\n"@ + json::pretty_text(r) + "\n```\n"@,
        None => Seq::empty(),
    }
}

/// The text of a task's note: front matter, heading, then a section each for
/// relations, payload, claimer and result, where there are any. The claimer's
/// log is linked under the name that it has among `owners`.
pub open spec fn task_md(
    t: TaskView,
    relations: Seq<(Seq<char>, Seq<char>)>,
    owners: Seq<(Seq<char>, Seq<char>)>,
) -> Seq<char> {
    "---\n"@ + field("id: "@, types::uuid_text(t.id)) + below_id(t, relations, owners)
}

/// What stands below the identifier in a task's note.
pub open spec fn below_id(
    t: TaskView,
    relations: Seq<(Seq<char>, Seq<char>)>,
    owners: Seq<(Seq<char>, Seq<char>)>,
) -> Seq<char> {
    field("kind: "@, t.kind) + field(
        "priority: "@,
        t.priority,
    ) + field("state: "@, types::state_name(t.state)) + claimer_field(t.claimed_by) + field(
        "created: "@,
        time::stamp(t.created_at),
    ) + field("updated: "@, time::stamp(t.updated_at)) + refs_field(t.payload) + "---\n\n"@ + "# "@
        + t.kind + ": "@ + t.name + "\n\n"@ + related_section(relations) + payload_section(
        t.payload,
    ) + claimer_section(owners, t.claimed_by) + result_section(t.result)
}

fn push_field(out: &mut String, label: &str, value: &str)
    ensures
        final(out)@ == old(out)@ + field(label@, value@),
{
    let mut line = label.to_owned();
    line.append(value);
    line.append("\n");
    out.append(line.as_str());
}

/// The texts among the elements of an array.
fn texts_among(items: &Vec<Json>) -> (r: Vec<String>)
    ensures
        text::texts(r@) == text_items(json::views(items@)),
{
    let mut out: Vec<String> = Vec::new();
    let mut i: usize = 0;
    let ghost all = json::views(items@);
    assert(text::texts(out@) =~= text_items(all.take(0)));
    while i < items.len()
        invariant
            i <= items.len(),
            all == json::views(items@),
            text::texts(out@) == text_items(all.take(i as int)),
        decreases items.len() - i,
    {
        let ghost before = out@;
        let ghost seen = all.take(i + 1);
        assert(seen.drop_last() =~= all.take(i as int));
        assert(seen.last() == items@[i as int]@);
        match items[i].as_str() {
            Some(s) => {
                out.push(s.to_owned());
                assert(text::texts(out@) =~= text::texts(before).push(s@));
            },
            None => {},
        }
        i = i + 1;
    }
    assert(all.take(all.len() as int) =~= all);
    out
}

fn refs_line(payload: &Json) -> (r: String)
    ensures
        r@ == refs_field(payload@),
{
    let out = String::new();
    match payload.get("file_refs") {
        Some(v) => match v.as_array() {
            Some(items) => {
                let names = texts_among(items);
                assert(text::texts(names@).len() == names@.len());
                if names.len() > 0 {
                    let mut line = "file_refs: [".to_owned();
                    line.append(text::join_texts(&names, ", ").as_str());
                    line.append("]\n");
                    return line;
                }
            },
            None => {},
        },
        None => {},
    }
    assert(out@ =~= Seq::<char>::empty());
    out
}

fn related_text(relations: &Vec<Relation>) -> (r: String)
    ensures
        r@ == related_section(relation_views(relations@)),
{
    let out = String::new();
    if relations.len() == 0 {
        assert(out@ =~= Seq::<char>::empty());
        return out;
    }
    let mut lines = String::new();
    let mut i: usize = 0;
    let ghost all = relation_views(relations@);
    assert(lines@ =~= relation_lines(all.take(0)));
    while i < relations.len()
        invariant
            i <= relations.len(),
            all == relation_views(relations@),
            lines@ == relation_lines(all.take(i as int)),
        decreases relations.len() - i,
    {
        let ghost seen = all.take(i + 1);
        assert(seen.drop_last() =~= all.take(i as int));
        lines.append("- `");
        lines.append(relations[i].label.as_str());
        lines.append("` → [[");
        lines.append(relations[i].target.as_str());
        lines.append("]]\n");
        i = i + 1;
    }
    assert(all.take(all.len() as int) =~= all);
    let mut section = "## Related\n\n".to_owned();
    section.append(lines.as_str());
    section.append("\n");
    section
}

/// The text of a task's note.
pub fn render_task_md(task: &Task, relations: &Vec<Relation>, owners: &Vec<Owner>) -> (r: String)
    ensures
        r@ == task_md(task@, relation_views(relations@), owner_views(owners@)),
{
    let mut s = "---\n".to_owned();
    push_field(&mut s, "id: ", types::id_text(task.id).as_str());
    s.append(render_below_id(task, relations, owners).as_str());
    s
}

fn render_below_id(task: &Task, relations: &Vec<Relation>, owners: &Vec<Owner>) -> (r: String)
    ensures
        r@ == below_id(task@, relation_views(relations@), owner_views(owners@)),
{
    let mut s = String::new();
    push_field(&mut s, "kind: ", task.kind.as_str());
    assert(s@ =~= field("kind: "@, task@.kind));
    push_field(&mut s, "priority: ", task.priority.as_str());
    push_field(&mut s, "state: ", task.state.as_str());
    let ghost here = s@;
    match &task.claimed_by {
        Some(by) => push_field(&mut s, "claimed_by: ", by.as_str()),
        None => {},
    }
    assert(s@ =~= here + claimer_field(task@.claimed_by));
    push_field(&mut s, "created: ", time::stamp_text(&task.created_at).as_str());
    push_field(&mut s, "updated: ", time::stamp_text(&task.updated_at).as_str());
    s.append(refs_line(&task.payload).as_str());
    s.append("---\n\n");
    s.append("# ");
    s.append(task.kind.as_str());
    s.append(": ");
    s.append(task.name.as_str());
    s.append("\n\n");
    s.append(related_text(relations).as_str());
    let ghost here = s@;
    if !task.payload.is_null() {
        let mut section = "## Payload\n\n```json\n".to_owned();
        section.append(json::to_pretty(&task.payload).as_str());
        section.append("\n```\n\n");
        s.append(section.as_str());
    }
    assert(s@ =~= here + payload_section(task@.payload));
    let ghost here = s@;
    match &task.claimed_by {
        Some(by) => {
            let mut section = "## Claimed by\n[[".to_owned();
            section.append(name_of_log(owners, by.as_str()).as_str());
            section.append("]]\n\n");
            s.append(section.as_str());
        },
        None => {},
    }
    assert(s@ =~= here + claimer_section(owner_views(owners@), task@.claimed_by));
    let ghost here = s@;
    match &task.result {
        Some(result) => {
            let mut section = "## Result\n\n```json\n".to_owned();
            section.append(json::to_pretty(result).as_str());
            section.append("\n```\n");
            s.append(section.as_str());
        },
        None => {},
    }
    assert(s@ =~= here + result_section(task@.result));
    s
}

// ---------------------------------------------------------------------
// The vault
// ---------------------------------------------------------------------

/// What a vault holds: the notes that have yet to be carried out, and whose
/// its files are.
#[verifier::ext_equal]
pub struct VaultView {
    pub notes: Seq<NoteView>,
    pub owners: Seq<(Seq<char>, Seq<char>)>,
}

/// The vault once the present state of a task is noted.
pub open spec fn task_written(
    v: VaultView,
    t: TaskView,
    relations: Seq<(Seq<char>, Seq<char>)>,
) -> VaultView {
    let id = types::uuid_text(t.id);
    let body = task_md(t, relations, v.owners);
    let notes = v.notes.push(NoteView::Write { path: task_path(v.owners, t), body });
    let owners = taken(v.owners, "tasks/"@, slug::slug_of(t), id);
    if t.kind == "decision"@ {
        VaultView {
            notes: notes.push(NoteView::Write { path: decision_path(owners, t), body }),
            owners: taken(owners, "decisions/"@, slug::dated_slug(t), id),
        }
    } else {
        VaultView { notes, owners }
    }
}

/// The beginning of an agent's log.
pub open spec fn agent_stub(id: Seq<char>, name: Seq<char>, now: Timestamp) -> Seq<char> {
    "---\nid: "@ + id + "\nname: "@ + name + "\nfirst_seen: "@ + time::stamp(now) + "\n---\n\n# "@
        + id + "\n\n## Activity\n"@
}

/// The vault once an agent's log is begun, unless it has one.
pub open spec fn log_begun(v: VaultView, id: Seq<char>, name: Seq<char>, now: Timestamp) -> VaultView {
    VaultView {
        notes: v.notes.push(
            NoteView::Create { path: log_path(v.owners, id), body: agent_stub(id, name, now) },
        ),
        owners: taken(v.owners, "agents/"@, slug::agent_slug(id), id),
    }
}

/// One line of an agent's log.
pub open spec fn event_line(event: Seq<char>, now: Timestamp) -> Seq<char> {
    "- `"@ + time::strftime_text(now.secs(), now.nanos(), time::EVENT_FORMAT@) + "` "@ + event
        + "\n"@
}

/// The vault once an event is noted in an agent's log, which is begun where
/// there is none yet.
pub open spec fn event_logged(
    v: VaultView,
    id: Seq<char>,
    event: Seq<char>,
    now: Timestamp,
) -> VaultView {
    let v1 = log_begun(v, id, id, now);
    VaultView {
        notes: v1.notes.push(
            NoteView::Append { path: log_path(v1.owners, id), line: event_line(event, now) },
        ),
        owners: v1.owners,
    }
}

/// The notes that have yet to be carried out, and whose the files are.
#[derive(Debug)]
pub struct Vault {
    notes: Vec<Note>,
    owners: Vec<Owner>,
}

impl View for Vault {
    type V = VaultView;

    closed spec fn view(&self) -> VaultView {
        VaultView { notes: note_views(self.notes@), owners: owner_views(self.owners@) }
    }
}

/// A vault that has nothing to do but to put up its front page.
pub open spec fn front_page(owners: Seq<(Seq<char>, Seq<char>)>) -> VaultView {
    VaultView {
        notes: seq![NoteView::Create { path: "README.md"@, body: README@ }],
        owners,
    }
}

impl Vault {
    /// A vault over the files that are there, which has nothing to do but to
    /// put up its front page.
    pub fn open(owners: Vec<Owner>) -> (v: Vault)
        ensures
            v@ == front_page(owner_views(owners@)),
    {
        let mut v = Vault { notes: Vec::new(), owners };
        v.push(Note::Create { path: "README.md".to_owned(), body: README.to_owned() });
        assert(v@ =~= front_page(owner_views(owners@)));
        v
    }

    fn push(&mut self, note: Note)
        ensures
            final(self)@ == (VaultView { notes: old(self)@.notes.push(note@), ..old(self)@ }),
    {
        let ghost before = self.notes@;
        let ghost n = note@;
        self.notes.push(note);
        assert(note_views(self.notes@) =~= note_views(before).push(n));
    }

    fn take_name(&mut self, dir: &str, slug: &str, id: &str)
        ensures
            final(self)@ == (VaultView {
                owners: taken(old(self)@.owners, dir@, slug@, id@),
                ..old(self)@
            }),
    {
        let path = file_path(dir, slug);
        if find_owner(&self.owners, path.as_str()).is_none() {
            let ghost before = self.owners@;
            self.owners.push(Owner { path, id: id.to_owned() });
            assert(owner_views(self.owners@) =~= owner_views(before).push(
                (note_path(dir@, slug@), id@),
            ));
        }
    }

    /// Hands over the notes that have yet to be carried out, in order.
    pub fn take_notes(&mut self) -> (r: Vec<Note>)
        ensures
            note_views(r@) == old(self)@.notes,
            final(self)@ == (VaultView { notes: Seq::empty(), ..old(self)@ }),
    {
        let mut out: Vec<Note> = Vec::new();
        std::mem::swap(&mut out, &mut self.notes);
        assert(note_views(self.notes@) =~= Seq::<NoteView>::empty());
        out
    }

    /// Whose the files are.
    pub fn owners(&self) -> (r: &Vec<Owner>)
        ensures
            owner_views(r@) == self@.owners,
    {
        &self.owners
    }

    /// Notes the present state of a task, with links to related ones.
    pub fn write_task(&mut self, task: &Task, relations: &Vec<Relation>)
        ensures
            final(self)@ == task_written(old(self)@, task@, relation_views(relations@)),
    {
        let ghost before = self@;
        let id = types::id_text(task.id);
        let slug = slug::task_slug(task);
        let body = render_task_md(task, relations, &self.owners);
        let name = pick_name(&self.owners, "tasks/", slug.as_str(), id.as_str());
        let mirrored = text::same(task.kind.as_str(), "decision");
        let copy = body.clone();
        self.push(Note::Write { path: file_path("tasks/", name.as_str()), body });
        self.take_name("tasks/", slug.as_str(), id.as_str());
        if mirrored {
            let slug = slug::decision_slug(task);
            let name = pick_name(&self.owners, "decisions/", slug.as_str(), id.as_str());
            self.push(Note::Write { path: file_path("decisions/", name.as_str()), body: copy });
            self.take_name("decisions/", slug.as_str(), id.as_str());
        }
        assert(self@ =~= task_written(before, task@, relation_views(relations@)));
    }

    /// Begins an agent's log, unless it has one.
    pub fn touch_agent(&mut self, id: &str, name: &str, now: &Timestamp)
        ensures
            final(self)@ == log_begun(old(self)@, id@, name@, *now),
    {
        let ghost before = self@;
        let mut body = "---\nid: ".to_owned();
        body.append(id);
        body.append("\nname: ");
        body.append(name);
        body.append("\nfirst_seen: ");
        body.append(time::stamp_text(now).as_str());
        body.append("\n---\n\n# ");
        body.append(id);
        body.append("\n\n## Activity\n");
        let log = name_of_log(&self.owners, id);
        self.push(Note::Create { path: file_path("agents/", log.as_str()), body });
        self.take_name("agents/", slug::slugify_agent(id).as_str(), id);
        assert(self@ =~= log_begun(before, id@, name@, *now));
    }

    /// Adds a line to an agent's log.
    pub fn append_agent_event(&mut self, id: &str, event: &str, now: &Timestamp)
        ensures
            final(self)@ == event_logged(old(self)@, id@, event@, *now),
    {
        let ghost before = self@;
        self.touch_agent(id, id, now);
        let mut line = "- `".to_owned();
        line.append(time::strftime(now, time::EVENT_FORMAT).as_str());
        line.append("` ");
        line.append(event);
        line.append("\n");
        let log = name_of_log(&self.owners, id);
        self.push(Note::Append { path: file_path("agents/", log.as_str()), line });
        assert(self@ =~= event_logged(before, id@, event@, *now));
    }
}

// ---------------------------------------------------------------------
// Whose the files are
// ---------------------------------------------------------------------

/// A file that belongs to someone goes on belonging to them.
pub proof fn lemma_owner_stays(
    owners: Seq<(Seq<char>, Seq<char>)>,
    dir: Seq<char>,
    slug: Seq<char>,
    id: Seq<char>,
    path: Seq<char>,
)
    ensures
        owner_of(owners, path) is Some ==> owner_of(taken(owners, dir, slug, id), path) == owner_of(
            owners,
            path,
        ),
        owner_of(taken(owners, dir, slug, id), note_path(dir, slug)) is Some,
        owner_of(owners, note_path(dir, slug)) is None ==> owner_of(
            taken(owners, dir, slug, id),
            note_path(dir, slug),
        ) == Some(id),
        path != note_path(dir, slug) ==> owner_of(taken(owners, dir, slug, id), path) == owner_of(
            owners,
            path,
        ),
{
    lemma_owner_pushed(owners, (note_path(dir, slug), id), path);
    lemma_owner_pushed(owners, (note_path(dir, slug), id), note_path(dir, slug));
}

proof fn lemma_owner_pushed(
    owners: Seq<(Seq<char>, Seq<char>)>,
    one: (Seq<char>, Seq<char>),
    path: Seq<char>,
)
    ensures
        owner_of(owners.push(one), path) == match owner_of(owners, path) {
            Some(id) => Some(id),
            None => if one.0 == path {
                Some(one.1)
            } else {
                None
            },
        },
    decreases owners.len(),
{
    if owners.len() > 0 {
        lemma_owner_pushed(owners.drop_first(), one, path);
        assert(owners.push(one).drop_first() =~= owners.drop_first().push(one));
    } else {
        assert(owners.push(one).drop_first() =~= owners);
    }
}

/// Whoever uses a name keeps it, whatever names others take.
pub proof fn lemma_name_stays(
    owners: Seq<(Seq<char>, Seq<char>)>,
    after: Seq<(Seq<char>, Seq<char>)>,
    dir: Seq<char>,
    slug: Seq<char>,
    id: Seq<char>,
)
    requires
        keeps_owners(owners, after),
        owner_of(owners, note_path(dir, slug)) is Some,
    ensures
        name_in(after, dir, slug, id) == name_in(owners, dir, slug, id),
{
    assert(owner_of(after, note_path(dir, slug)) == owner_of(owners, note_path(dir, slug)));
}

/// Files that belong to someone in `before` belong to the same in `after`.
pub open spec fn keeps_owners(
    before: Seq<(Seq<char>, Seq<char>)>,
    after: Seq<(Seq<char>, Seq<char>)>,
) -> bool {
    forall|path: Seq<char>|
        #![trigger owner_of(before, path)]
        #![trigger owner_of(after, path)]
        owner_of(before, path) is Some ==> owner_of(after, path) == owner_of(before, path)
}

/// A slug that does not end in a bracket.
pub open spec fn ends_plainly(slug: Seq<char>) -> bool {
    slug.len() > 0 && slug.last() != ')'
}

/// Two who use names in one directory have different ones, as soon as one of
/// them has used theirs: the file of a slug belongs to one of them at most,
/// and the other has the identifier in the name.
pub proof fn lemma_names_differ(
    owners: Seq<(Seq<char>, Seq<char>)>,
    dir: Seq<char>,
    slug: Seq<char>,
    id: Seq<char>,
    other_slug: Seq<char>,
    other: Seq<char>,
)
    requires
        id != other,
        ends_plainly(slug),
        ends_plainly(other_slug),
        owner_of(owners, note_path(dir, slug)) is Some,
    ensures
        name_in(owners, dir, slug, id) != name_in(owners, dir, other_slug, other),
{
    let a = name_in(owners, dir, slug, id);
    let b = name_in(owners, dir, other_slug, other);
    reveal_strlit(")");
    reveal_strlit(" (");
    let ea = slug::escaped(id);
    let eb = slug::escaped(other);
    let long_a = slug + " ("@ + ea + ")"@;
    let long_b = other_slug + " ("@ + eb + ")"@;
    assert(long_a.last() == ')' && long_b.last() == ')');
    if a == b && a == long_a && b == long_b && !ends_plainly(a) {
        slug::lemma_escaped_plain(id);
        slug::lemma_escaped_plain(other);
        lemma_bracketed(slug, ea, other_slug, eb);
        slug::lemma_escaped_unique(id, other);
    }
}

/// What stands in brackets at the end can be told from what stands before.
proof fn lemma_bracketed(a: Seq<char>, x: Seq<char>, b: Seq<char>, y: Seq<char>)
    requires
        a + " ("@ + x + ")"@ == b + " ("@ + y + ")"@,
        !x.contains('('),
        !y.contains('('),
    ensures
        x == y,
{
    reveal_strlit(")");
    reveal_strlit(" (");
    let s = a + " ("@ + x + ")"@;
    let t = b + " ("@ + y + ")"@;
    let m: int = a.len() as int;
    let n: int = b.len() as int;
    assert(s[m + 1] == '(');
    assert(t[n + 1] == '(');
    assert(s[s.len() - 1] == ')');
    if m < n {
        assert(s[n + 1] == x[n - m - 1]);
        assert(x.contains('('));
    } else if n < m {
        assert(t[m + 1] == y[m - n - 1]);
        assert(y.contains('('));
    }
    assert(s.subrange(m + 2, s.len() - 1) =~= x);
    assert(t.subrange(n + 2, t.len() - 1) =~= y);
}

proof fn lemma_slugs_end_plainly(t: TaskView, id: Seq<char>)
    ensures
        ends_plainly(slug::slug_of(t)),
        ends_plainly(slug::dated_slug(t)),
        ends_plainly(slug::agent_slug(id)),
{
    slug::lemma_slug_shape(t.name);
    slug::lemma_agent_slug_shape(id);
    assert(slug::slug_of(t).last() == slug::slug(t.name).last());
    assert(slug::dated_slug(t).last() == slug::slug(t.name).last());
}

/// Whether a task has had its name: its slug belongs to someone.
pub open spec fn task_named(owners: Seq<(Seq<char>, Seq<char>)>, t: TaskView) -> bool {
    owner_of(owners, note_path("tasks/"@, slug::slug_of(t))) is Some
}

/// Whether an agent has had its name.
pub open spec fn agent_named(owners: Seq<(Seq<char>, Seq<char>)>, id: Seq<char>) -> bool {
    owner_of(owners, note_path("agents/"@, slug::agent_slug(id))) is Some
}

/// Once a task has its file, no other task has the same one.
pub proof fn lemma_task_files_differ(
    owners: Seq<(Seq<char>, Seq<char>)>,
    t: TaskView,
    u: TaskView,
)
    requires
        t.id != u.id,
        task_named(owners, t),
    ensures
        task_path(owners, t) != task_path(owners, u),
{
    lemma_slugs_end_plainly(t, Seq::empty());
    lemma_slugs_end_plainly(u, Seq::empty());
    if types::uuid_text(t.id) == types::uuid_text(u.id) {
        types::lemma_uuid_text_unique(t.id, u.id);
    }
    lemma_names_differ(
        owners,
        "tasks/"@,
        slug::slug_of(t),
        types::uuid_text(t.id),
        slug::slug_of(u),
        types::uuid_text(u.id),
    );
    lemma_paths_differ(task_name(owners, t), task_name(owners, u));
}

/// Once a decision has its second file, no other decision has the same one.
pub proof fn lemma_decision_files_differ(
    owners: Seq<(Seq<char>, Seq<char>)>,
    t: TaskView,
    u: TaskView,
)
    requires
        t.id != u.id,
        owner_of(owners, note_path("decisions/"@, slug::dated_slug(t))) is Some,
    ensures
        decision_path(owners, t) != decision_path(owners, u),
{
    lemma_slugs_end_plainly(t, Seq::empty());
    lemma_slugs_end_plainly(u, Seq::empty());
    let a = types::uuid_text(t.id);
    let b = types::uuid_text(u.id);
    if a == b {
        types::lemma_uuid_text_unique(t.id, u.id);
    }
    lemma_names_differ(owners, "decisions/"@, slug::dated_slug(t), a, slug::dated_slug(u), b);
    lemma_same_ends(
        "decisions/"@,
        name_in(owners, "decisions/"@, slug::dated_slug(t), a),
        name_in(owners, "decisions/"@, slug::dated_slug(u), b),
    );
}

/// One log for each agent: once an agent has its log, no other agent has the
/// same one.
pub proof fn lemma_logs_differ(owners: Seq<(Seq<char>, Seq<char>)>, id: Seq<char>, other: Seq<char>)
    requires
        id != other,
        agent_named(owners, id),
    ensures
        log_path(owners, id) != log_path(owners, other),
{
    lemma_slugs_end_plainly(arbitrary(), id);
    lemma_slugs_end_plainly(arbitrary(), other);
    lemma_names_differ(
        owners,
        "agents/"@,
        slug::agent_slug(id),
        id,
        slug::agent_slug(other),
        other,
    );
    lemma_same_ends("agents/"@, log_name(owners, id), log_name(owners, other));
}

proof fn lemma_same_ends(dir: Seq<char>, a: Seq<char>, b: Seq<char>)
    ensures
        a != b ==> note_path(dir, a) != note_path(dir, b),
{
    reveal_strlit(".md");
    let p = note_path(dir, a);
    let q = note_path(dir, b);
    assert(p.subrange(dir.len() as int, p.len() - 3) =~= a);
    assert(q.subrange(dir.len() as int, q.len() - 3) =~= b);
}

/// Notes of different names, or in different directories, are different
/// files.
pub proof fn lemma_paths_differ(a: Seq<char>, b: Seq<char>)
    ensures
        a != b ==> note_path("tasks/"@, a) != note_path("tasks/"@, b),
        note_path("tasks/"@, a) != note_path("decisions/"@, b),
        note_path("tasks/"@, a) != note_path("agents/"@, b),
        note_path("agents/"@, a) != note_path("decisions/"@, b),
{
    reveal_strlit("tasks/");
    reveal_strlit("decisions/");
    reveal_strlit("agents/");
    lemma_same_ends("tasks/"@, a, b);
    assert(note_path("tasks/"@, a)[0] == 't');
    assert(note_path("decisions/"@, b)[0] == 'd');
    assert(note_path("agents/"@, b)[0] == 'a');
    assert(note_path("agents/"@, a)[0] == 'a');
}

/// Everything that is done to a vault leaves files with their owners, and
/// gives a name to the task or agent that it is about.
pub proof fn lemma_vault_steps(
    v: VaultView,
    t: TaskView,
    relations: Seq<(Seq<char>, Seq<char>)>,
    id: Seq<char>,
    name: Seq<char>,
    now: Timestamp,
)
    ensures
        keeps_owners(v.owners, task_written(v, t, relations).owners),
        task_named(task_written(v, t, relations).owners, t),
        task_path(task_written(v, t, relations).owners, t) == task_path(v.owners, t),
        keeps_owners(v.owners, log_begun(v, id, name, now).owners),
        agent_named(log_begun(v, id, name, now).owners, id),
        log_path(log_begun(v, id, name, now).owners, id) == log_path(v.owners, id),
{
    let uuid = types::uuid_text(t.id);
    let o1 = taken(v.owners, "tasks/"@, slug::slug_of(t), uuid);
    let o2 = taken(o1, "decisions/"@, slug::dated_slug(t), uuid);
    assert forall|path: Seq<char>| owner_of(v.owners, path) is Some implies owner_of(o1, path)
        == owner_of(v.owners, path) && owner_of(o2, path) == owner_of(v.owners, path) by {
        lemma_owner_stays(v.owners, "tasks/"@, slug::slug_of(t), uuid, path);
        lemma_owner_stays(o1, "decisions/"@, slug::dated_slug(t), uuid, path);
    }
    let plain = note_path("tasks/"@, slug::slug_of(t));
    lemma_owner_stays(v.owners, "tasks/"@, slug::slug_of(t), uuid, plain);
    lemma_owner_stays(o1, "decisions/"@, slug::dated_slug(t), uuid, plain);
    let o3 = taken(v.owners, "agents/"@, slug::agent_slug(id), id);
    assert forall|path: Seq<char>| owner_of(v.owners, path) is Some implies owner_of(o3, path)
        == owner_of(v.owners, path) by {
        lemma_owner_stays(v.owners, "agents/"@, slug::agent_slug(id), id, path);
    }
    lemma_owner_stays(
        v.owners,
        "agents/"@,
        slug::agent_slug(id),
        id,
        note_path("agents/"@, slug::agent_slug(id)),
    );
}

/// The note of a task says whose it is, so its file is known again.
pub proof fn lemma_task_file_names_its_owner(
    t: TaskView,
    relations: Seq<(Seq<char>, Seq<char>)>,
    owners: Seq<(Seq<char>, Seq<char>)>,
)
    ensures
        front_id(text::lines_of(task_md(t, relations, owners))) == Some(types::uuid_text(t.id)),
{
    let md = task_md(t, relations, owners);
    let id = types::uuid_text(t.id);
    reveal_strlit("---\n");
    reveal_strlit("---");
    reveal_strlit("id: ");
    reveal_strlit("\n");
    let rest = below_id(t, relations, owners);
    assert(md =~= "---"@ + seq!['\n'] + ("id: "@ + id + seq!['\n'] + rest));
    assert forall|i: int| 0 <= i < id.len() implies id[i] != '\n' && id[i] != '\r' by {}
    lemma_front_lines(id, rest);
}

proof fn lemma_front_lines(id: Seq<char>, rest: Seq<char>)
    requires
        !id.contains('\n'),
        id.len() > 0 ==> id.last() != '\r',
    ensures
        front_id(text::lines_of("---"@ + seq!['\n'] + ("id: "@ + id + seq!['\n'] + rest))) == Some(
            id,
        ),
{
    reveal_strlit("---");
    reveal_strlit("id: ");
    let second = "id: "@ + id;
    assert(!"---"@.contains('\n'));
    assert(!second.contains('\n')) by {
        if second.contains('\n') {
            let k = choose|k: int| 0 <= k < second.len() && second[k] == '\n';
            assert(id[k - 4] == '\n');
        }
    }
    assert("id: "@ + id + seq!['\n'] + rest =~= second + seq!['\n'] + rest);
    text::lemma_lines_of_step("---"@, second + seq!['\n'] + rest);
    text::lemma_lines_of_step(second, rest);
    let lines = text::lines_of("---"@ + seq!['\n'] + (second + seq!['\n'] + rest));
    assert(lines[0] == "---"@);
    assert(lines[1] == second);
    assert(second.take(4) =~= "id: "@);
    assert(second.skip(4) =~= id);
}

/// A log says whose it is, so it is known again. (An identifier of more than
/// one line is not.)
pub proof fn lemma_log_names_its_owner(id: Seq<char>, name: Seq<char>, now: Timestamp, more: Seq<char>)
    requires
        !id.contains('\n'),
        id.len() > 0 ==> id.last() != '\r',
    ensures
        front_id(text::lines_of(agent_stub(id, name, now) + more)) == Some(id),
{
    let body = agent_stub(id, name, now) + more;
    reveal_strlit("---\nid: ");
    reveal_strlit("---");
    reveal_strlit("id: ");
    reveal_strlit("\nname: ");
    let rest = body.skip(8 + id.len() as int + 1);
    assert(body =~= "---"@ + seq!['\n'] + ("id: "@ + id + seq!['\n'] + rest));
    lemma_front_lines(id, rest);
}

// ---------------------------------------------------------------------
// The files
// ---------------------------------------------------------------------

/// What the files of the vault hold once a note is carried out. A line for a
/// file that is not there goes nowhere.
pub open spec fn carried_out(files: Map<Seq<char>, Seq<char>>, note: NoteView) -> Map<
    Seq<char>,
    Seq<char>,
> {
    match note {
        NoteView::Write { path, body } => files.insert(path, body),
        NoteView::Create { path, body } => if files.contains_key(path) {
            files
        } else {
            files.insert(path, body)
        },
        NoteView::Append { path, line } => if files.contains_key(path) {
            files.insert(path, files[path] + line)
        } else {
            files
        },
    }
}

/// What the files of the vault hold once notes are carried out in order.
pub open spec fn all_carried_out(files: Map<Seq<char>, Seq<char>>, notes: Seq<NoteView>) -> Map<
    Seq<char>,
    Seq<char>,
>
    decreases notes.len(),
{
    if notes.len() == 0 {
        files
    } else {
        carried_out(all_carried_out(files, notes.drop_last()), notes.last())
    }
}

/// One more note is carried out after the others.
pub proof fn lemma_one_more(files: Map<Seq<char>, Seq<char>>, notes: Seq<NoteView>, note: NoteView)
    ensures
        all_carried_out(files, notes.push(note)) == carried_out(all_carried_out(files, notes), note),
{
    assert(notes.push(note).drop_last() =~= notes);
}

/// A file that is there stays there.
pub proof fn lemma_files_stay(
    files: Map<Seq<char>, Seq<char>>,
    notes: Seq<NoteView>,
    path: Seq<char>,
)
    requires
        files.contains_key(path),
    ensures
        all_carried_out(files, notes).contains_key(path),
    decreases notes.len(),
{
    if notes.len() > 0 {
        lemma_files_stay(files, notes.drop_last(), path);
    }
}

/// What the files hold once the notes of a vault are carried out.
pub open spec fn filed(files: Map<Seq<char>, Seq<char>>, v: VaultView) -> Map<
    Seq<char>,
    Seq<char>,
> {
    all_carried_out(files, v.notes)
}

/// Whether a file holds exactly a text.
pub open spec fn holds_text(
    files: Map<Seq<char>, Seq<char>>,
    path: Seq<char>,
    body: Seq<char>,
) -> bool {
    files.contains_key(path) && files[path] == body
}

/// Whether a file, where it is there, is as it was.
pub open spec fn untouched(
    before: Map<Seq<char>, Seq<char>>,
    after: Map<Seq<char>, Seq<char>>,
    path: Seq<char>,
) -> bool {
    before.contains_key(path) ==> after.contains_key(path) && after[path] == before[path]
}

/// The note of a task is what then stands in its file, and it stands in no
/// file of another task or of an agent.
pub proof fn lemma_task_is_written(
    files: Map<Seq<char>, Seq<char>>,
    v: VaultView,
    t: TaskView,
    relations: Seq<(Seq<char>, Seq<char>)>,
    u: TaskView,
    id: Seq<char>,
)
    ensures
        holds_text(
            filed(files, task_written(v, t, relations)),
            task_path(v.owners, t),
            task_md(t, relations, v.owners),
        ),
        u.id != t.id && task_named(v.owners, u) ==> untouched(
            filed(files, v),
            filed(files, task_written(v, t, relations)),
            task_path(v.owners, u),
        ),
        untouched(
            filed(files, v),
            filed(files, task_written(v, t, relations)),
            log_path(v.owners, id),
        ),
{
    let body = task_md(t, relations, v.owners);
    let first = NoteView::Write { path: task_path(v.owners, t), body };
    lemma_one_more(files, v.notes, first);
    let owners = taken(v.owners, "tasks/"@, slug::slug_of(t), types::uuid_text(t.id));
    let second = NoteView::Write { path: decision_path(owners, t), body };
    lemma_one_more(files, v.notes.push(first), second);
    let mirror = name_in(owners, "decisions/"@, slug::dated_slug(t), types::uuid_text(t.id));
    lemma_paths_differ(task_name(v.owners, t), mirror);
    lemma_paths_differ(task_name(v.owners, u), mirror);
    lemma_paths_differ(log_name(v.owners, id), mirror);
    lemma_paths_differ(task_name(v.owners, t), log_name(v.owners, id));
    if u.id != t.id && task_named(v.owners, u) {
        lemma_task_files_differ(v.owners, u, t);
    }
}

/// A decision is mirrored: its second file holds the same note.
pub proof fn lemma_decisions_are_mirrored(
    files: Map<Seq<char>, Seq<char>>,
    v: VaultView,
    t: TaskView,
    relations: Seq<(Seq<char>, Seq<char>)>,
)
    requires
        t.kind == "decision"@,
    ensures
        ({
            let w = task_written(v, t, relations);
            &&& owner_of(w.owners, note_path("decisions/"@, slug::dated_slug(t))) is Some
            &&& holds_text(
                filed(files, w),
                decision_path(w.owners, t),
                task_md(t, relations, v.owners),
            )
        }),
{
    let id = types::uuid_text(t.id);
    let body = task_md(t, relations, v.owners);
    let first = NoteView::Write { path: task_path(v.owners, t), body };
    let owners = taken(v.owners, "tasks/"@, slug::slug_of(t), id);
    lemma_one_more(
        files,
        v.notes.push(first),
        NoteView::Write { path: decision_path(owners, t), body },
    );
    lemma_owner_stays(
        owners,
        "decisions/"@,
        slug::dated_slug(t),
        id,
        note_path("decisions/"@, slug::dated_slug(t)),
    );
}

/// One note per task: of two tasks that are written one after the other each
/// has a file that holds its own note, whatever they are called and whenever
/// they were posted.
pub proof fn lemma_one_note_per_task(
    files: Map<Seq<char>, Seq<char>>,
    v: VaultView,
    t: TaskView,
    relations: Seq<(Seq<char>, Seq<char>)>,
    u: TaskView,
    others: Seq<(Seq<char>, Seq<char>)>,
)
    requires
        t.id != u.id,
    ensures
        ({
            let v1 = task_written(v, t, relations);
            let v2 = task_written(v1, u, others);
            &&& task_path(v2.owners, t) != task_path(v2.owners, u)
            &&& holds_text(
                filed(files, v2),
                task_path(v2.owners, t),
                task_md(t, relations, v.owners),
            )
            &&& holds_text(
                filed(files, v2),
                task_path(v2.owners, u),
                task_md(u, others, v1.owners),
            )
        }),
{
    let v1 = task_written(v, t, relations);
    let v2 = task_written(v1, u, others);
    lemma_vault_steps(v, t, relations, Seq::empty(), Seq::empty(), arbitrary());
    lemma_vault_steps(v1, u, others, Seq::empty(), Seq::empty(), arbitrary());
    lemma_task_is_written(files, v, t, relations, t, Seq::empty());
    lemma_task_is_written(files, v1, u, others, t, Seq::empty());
    lemma_name_stays(
        v1.owners,
        v2.owners,
        "tasks/"@,
        slug::slug_of(t),
        types::uuid_text(t.id),
    );
    lemma_task_files_differ(v1.owners, t, u);
}

/// Where the log of an agent is there, a further report leaves every file as
/// it is, also where the agent reports under another name.
pub proof fn lemma_log_is_begun_once(
    files: Map<Seq<char>, Seq<char>>,
    v: VaultView,
    id: Seq<char>,
    name: Seq<char>,
    now: Timestamp,
)
    ensures
        filed(files, v).contains_key(log_path(v.owners, id)) ==> filed(
            files,
            log_begun(v, id, name, now),
        ) == filed(files, v),
        !filed(files, v).contains_key(log_path(v.owners, id)) ==> filed(
            files,
            log_begun(v, id, name, now),
        ) == filed(files, v).insert(log_path(v.owners, id), agent_stub(id, name, now)),
        filed(files, log_begun(v, id, name, now)).contains_key(log_path(v.owners, id)),
{
    lemma_one_more(
        files,
        v.notes,
        NoteView::Create { path: log_path(v.owners, id), body: agent_stub(id, name, now) },
    );
}

/// An event adds its line to the end of the agent's log, which is begun where
/// there is none, and touches no other file.
pub proof fn lemma_event_extends_the_log(
    files: Map<Seq<char>, Seq<char>>,
    v: VaultView,
    id: Seq<char>,
    event: Seq<char>,
    now: Timestamp,
)
    ensures
        filed(files, event_logged(v, id, event, now)) == filed(files, v).insert(
            log_path(v.owners, id),
            (if filed(files, v).contains_key(log_path(v.owners, id)) {
                filed(files, v)[log_path(v.owners, id)]
            } else {
                agent_stub(id, id, now)
            }) + event_line(event, now),
        ),
{
    let v1 = log_begun(v, id, id, now);
    lemma_vault_steps(v, arbitrary(), Seq::empty(), id, id, now);
    lemma_log_is_begun_once(files, v, id, id, now);
    lemma_one_more(
        files,
        v1.notes,
        NoteView::Append { path: log_path(v1.owners, id), line: event_line(event, now) },
    );
    assert(filed(files, event_logged(v, id, event, now)) =~= filed(files, v).insert(
        log_path(v.owners, id),
        (if filed(files, v).contains_key(log_path(v.owners, id)) {
            filed(files, v)[log_path(v.owners, id)]
        } else {
            agent_stub(id, id, now)
        }) + event_line(event, now),
    ));
}

/// One note per agent: an event in the life of one agent leaves the log of
/// another as it is.
pub proof fn lemma_one_log_per_agent(
    files: Map<Seq<char>, Seq<char>>,
    v: VaultView,
    id: Seq<char>,
    event: Seq<char>,
    now: Timestamp,
    other: Seq<char>,
)
    requires
        id != other,
        agent_named(v.owners, other),
    ensures
        untouched(
            filed(files, v),
            filed(files, event_logged(v, id, event, now)),
            log_path(v.owners, other),
        ),
        log_path(event_logged(v, id, event, now).owners, other) == log_path(v.owners, other),
{
    lemma_event_extends_the_log(files, v, id, event, now);
    lemma_logs_differ(v.owners, other, id);
    lemma_vault_steps(v, arbitrary(), Seq::empty(), id, id, now);
    lemma_name_stays(
        v.owners,
        event_logged(v, id, event, now).owners,
        "agents/"@,
        slug::agent_slug(other),
        other,
    );
}

} // verus!
