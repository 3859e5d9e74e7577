//! What the vault's files say: what a reader finds in the note of a task and
//! in the log of an agent.

use vstd::prelude::*;

use crate::json;
use crate::json::JsonView;
use crate::laws;
use crate::model;
use crate::model::StoreView;
use crate::rows::{RowError, TaskRowView};
use crate::slug;
use crate::text;
use crate::time;
use crate::time::Timestamp;
use crate::types;
use crate::types::{TaskId, TaskState, TaskView};
use crate::vault;
use crate::vault::{NoteView, VaultView};

verus! {

// ---------------------------------------------------------------------
// Notes of tasks
// ---------------------------------------------------------------------

/// A line of a note stands in it.
pub open spec fn says(md: Seq<char>, label: Seq<char>, value: Seq<char>) -> bool {
    text::occurs_in(label + value + "\n"@, md)
}

/// What occurs in a text occurs in it with more behind it, and so does what is
/// behind it.
proof fn lemma_longer(a: Seq<char>, b: Seq<char>)
    ensures
        forall|n: Seq<char>| text::occurs_in(n, a) ==> #[trigger] text::occurs_in(n, a + b),
        text::occurs_in(b, a + b),
{
    let none = Seq::<char>::empty();
    assert forall|n: Seq<char>| text::occurs_in(n, a) implies #[trigger] text::occurs_in(
        n,
        a + b,
    ) by {
        text::lemma_occurs_within(n, none, a, b);
        assert(none + a + b =~= a + b);
    }
    let whole = a + b;
    let k = a.len() as int;
    assert(whole.subrange(k, k + b.len()) =~= b);
}

proof fn lemma_itself(a: Seq<char>)
    ensures
        text::occurs_in(a, a),
{
    let k: int = 0;
    assert(a.subrange(k, k + a.len()) =~= a);
}

proof fn lemma_fields(
    t: TaskView,
    relations: Seq<(Seq<char>, Seq<char>)>,
    owners: Seq<(Seq<char>, Seq<char>)>,
)
    ensures
        ({
            let md = vault::below_id(t, relations, owners);
            &&& says(md, "kind: "@, t.kind)
            &&& says(md, "priority: "@, t.priority)
            &&& says(md, "state: "@, types::state_name(t.state))
            &&& text::occurs_in(vault::claimer_field(t.claimed_by), md)
            &&& says(md, "created: "@, time::stamp(t.created_at))
            &&& says(md, "updated: "@, time::stamp(t.updated_at))
            &&& text::occurs_in(vault::refs_field(t.payload), md)
            &&& text::occurs_in("# "@ + t.kind + ": "@ + t.name + "\n\n"@, md)
            &&& text::occurs_in(vault::related_section(relations), md)
            &&& text::occurs_in(vault::payload_section(t.payload), md)
            &&& text::occurs_in(vault::claimer_section(owners, t.claimed_by), md)
        }),
{
    let c1 = vault::field("kind: "@, t.kind);
    lemma_itself(c1);
    let p2 = vault::field("priority: "@, t.priority);
    let c2 = c1 + p2;
    lemma_longer(c1, p2);
    let p3 = vault::field("state: "@, types::state_name(t.state));
    let c3 = c2 + p3;
    lemma_longer(c2, p3);
    let p4 = vault::claimer_field(t.claimed_by);
    let c4 = c3 + p4;
    lemma_longer(c3, p4);
    let p5 = vault::field("created: "@, time::stamp(t.created_at));
    let c5 = c4 + p5;
    lemma_longer(c4, p5);
    let p6 = vault::field("updated: "@, time::stamp(t.updated_at));
    let c6 = c5 + p6;
    lemma_longer(c5, p6);
    let p7 = vault::refs_field(t.payload);
    let c7 = c6 + p7;
    lemma_longer(c6, p7);
    let p8 = "---\n\n"@;
    let c8 = c7 + p8;
    lemma_longer(c7, p8);
    let p9 = "# "@;
    let c9 = c8 + p9;
    lemma_longer(c8, p9);
    let p10 = t.kind;
    let c10 = c9 + p10;
    lemma_longer(c9, p10);
    let p11 = ": "@;
    let c11 = c10 + p11;
    lemma_longer(c10, p11);
    let p12 = t.name;
    let c12 = c11 + p12;
    lemma_longer(c11, p12);
    let p13 = "\n\n"@;
    let c13 = c12 + p13;
    lemma_longer(c12, p13);
    let p14 = vault::related_section(relations);
    let c14 = c13 + p14;
    lemma_longer(c13, p14);
    let p15 = vault::payload_section(t.payload);
    let c15 = c14 + p15;
    lemma_longer(c14, p15);
    let p16 = vault::claimer_section(owners, t.claimed_by);
    let c16 = c15 + p16;
    lemma_longer(c15, p16);
    let p17 = vault::result_section(t.result);
    let c17 = c16 + p17;
    lemma_longer(c16, p17);
    assert(c17 == vault::below_id(t, relations, owners));
    let heading = "# "@ + t.kind + ": "@ + t.name + "\n\n"@;
    assert(c13 =~= c8 + heading);
    lemma_longer(c8, heading);
}

proof fn lemma_end(
    t: TaskView,
    relations: Seq<(Seq<char>, Seq<char>)>,
    owners: Seq<(Seq<char>, Seq<char>)>,
)
    ensures
        text::has_suffix(vault::below_id(t, relations, owners), vault::result_section(t.result)),
{
    let md = vault::below_id(t, relations, owners);
    let tail = vault::result_section(t.result);
    assert(md.skip(md.len() - tail.len()) =~= tail);
}

/// The front matter of a note says all there is to say of the task: its
/// identifier, kind, priority, state, claimer and the times of its creation and
/// of its last change. Its heading has the kind and the name.
pub proof fn lemma_front_matter(
    t: TaskView,
    relations: Seq<(Seq<char>, Seq<char>)>,
    owners: Seq<(Seq<char>, Seq<char>)>,
)
    ensures
        ({
            let md = vault::task_md(t, relations, owners);
            &&& text::has_prefix(md, "---\nid: "@ + types::uuid_text(t.id) + "\n"@)
            &&& says(md, "kind: "@, t.kind)
            &&& says(md, "priority: "@, t.priority)
            &&& says(
                md,
                "state: "@,
                match t.state {
                    TaskState::Pending => "pending"@,
                    TaskState::Claimed => "claimed"@,
                    TaskState::Completed => "completed"@,
                    TaskState::Failed => "failed"@,
                    TaskState::Cancelled => "cancelled"@,
                },
            )
            &&& (t.claimed_by matches Some(by) ==> says(md, "claimed_by: "@, by))
            &&& says(md, "created: "@, time::stamp(t.created_at))
            &&& says(md, "updated: "@, time::stamp(t.updated_at))
            &&& text::occurs_in("# "@ + t.kind + ": "@ + t.name + "\n\n"@, md)
        }),
{
    let md = vault::task_md(t, relations, owners);
    let below = vault::below_id(t, relations, owners);
    let top = "---\n"@ + vault::field("id: "@, types::uuid_text(t.id));
    let e = Seq::<char>::empty();
    assert(md =~= top + below + e);
    lemma_fields(t, relations, owners);
    text::lemma_occurs_within("kind: "@ + t.kind + "\n"@, top, below, e);
    text::lemma_occurs_within("priority: "@ + t.priority + "\n"@, top, below, e);
    text::lemma_occurs_within("state: "@ + types::state_name(t.state) + "\n"@, top, below, e);
    match t.claimed_by {
        Some(by) => text::lemma_occurs_within("claimed_by: "@ + by + "\n"@, top, below, e),
        None => {},
    }
    text::lemma_occurs_within("created: "@ + time::stamp(t.created_at) + "\n"@, top, below, e);
    text::lemma_occurs_within("updated: "@ + time::stamp(t.updated_at) + "\n"@, top, below, e);
    text::lemma_occurs_within("# "@ + t.kind + ": "@ + t.name + "\n\n"@, top, below, e);
    reveal_strlit("---\n");
    reveal_strlit("id: ");
    reveal_strlit("---\nid: ");
    assert(top =~= "---\nid: "@ + types::uuid_text(t.id) + "\n"@);
    assert(md.take(top.len() as int) =~= top);
}

/// A note shows the payload and the result of its task, links to the log of
/// the agent that claimed it, and links to each related task under the name of
/// the field that refers to it.
pub proof fn lemma_note_body(
    t: TaskView,
    relations: Seq<(Seq<char>, Seq<char>)>,
    owners: Seq<(Seq<char>, Seq<char>)>,
    i: int,
)
    ensures
        ({
            let md = vault::task_md(t, relations, owners);
            &&& t.payload != JsonView::Null ==> text::occurs_in(
                "## Payload\n\n```json\n"@ + json::pretty_text(t.payload) + "\n```\n\n"@,
                md,
            )
            &&& (t.result matches Some(v) ==> text::has_suffix(
                md,
                "## Result\n\n```json\n"@ + json::pretty_text(v) + "\n```\n"@,
            ))
            &&& (t.claimed_by matches Some(by) ==> text::occurs_in(
                "## Claimed by\n[["@ + vault::log_name(owners, by) + "]]\n\n"@,
                md,
            ))
            &&& 0 <= i < relations.len() ==> text::occurs_in(
                "- `"@ + relations[i].0 + "` → [["@ + relations[i].1 + "]]\n"@,
                md,
            )
        }),
{
    let md = vault::task_md(t, relations, owners);
    let below = vault::below_id(t, relations, owners);
    let top = "---\n"@ + vault::field("id: "@, types::uuid_text(t.id));
    let e = Seq::<char>::empty();
    assert(md =~= top + below + e);
    lemma_fields(t, relations, owners);
    lemma_end(t, relations, owners);
    text::lemma_occurs_within(vault::payload_section(t.payload), top, below, e);
    text::lemma_occurs_within(vault::claimer_section(owners, t.claimed_by), top, below, e);
    let tail = vault::result_section(t.result);
    assert(md.skip(md.len() - tail.len()) =~= below.skip(below.len() - tail.len()));
    if 0 <= i < relations.len() {
        let line = "- `"@ + relations[i].0 + "` → [["@ + relations[i].1 + "]]\n"@;
        let lines = vault::relation_lines(relations);
        lemma_relation_line(relations, i);
        let section = vault::related_section(relations);
        text::lemma_occurs_within(line, "## Related\n\n"@, lines, "\n"@);
        lemma_occurs_twice(line, section, below);
        text::lemma_occurs_within(line, top, below, e);
    }
}

proof fn lemma_occurs_twice(a: Seq<char>, b: Seq<char>, c: Seq<char>)
    requires
        text::occurs_in(a, b),
        text::occurs_in(b, c),
    ensures
        text::occurs_in(a, c),
{
    let k = choose|k: int|
        0 <= k && k + b.len() <= c.len() && #[trigger] c.subrange(k, k + b.len()) == b;
    assert(c =~= c.take(k) + b + c.skip(k + b.len()));
    text::lemma_occurs_within(a, c.take(k), b, c.skip(k + b.len()));
}

proof fn lemma_relation_line(relations: Seq<(Seq<char>, Seq<char>)>, i: int)
    requires
        0 <= i < relations.len(),
    ensures
        text::occurs_in(
            "- `"@ + relations[i].0 + "` → [["@ + relations[i].1 + "]]\n"@,
            vault::relation_lines(relations),
        ),
    decreases relations.len(),
{
    let line = "- `"@ + relations[i].0 + "` → [["@ + relations[i].1 + "]]\n"@;
    let all = vault::relation_lines(relations);
    let before = vault::relation_lines(relations.drop_last());
    let last = "- `"@ + relations.last().0 + "` → [["@ + relations.last().1 + "]]\n"@;
    let e = Seq::<char>::empty();
    if i == relations.len() - 1 {
        assert(all =~= before + line);
        lemma_longer(before, line);
    } else {
        lemma_relation_line(relations.drop_last(), i);
        assert(all =~= e + before + last);
        text::lemma_occurs_within(line, e, before, last);
    }
}

/// A note has no section for what is not there: without relations, payload,
/// claimer and result it ends with its heading.
pub proof fn lemma_bare_note(t: TaskView, owners: Seq<(Seq<char>, Seq<char>)>)
    requires
        t.payload == JsonView::Null,
        t.claimed_by is None,
        t.result is None,
    ensures
        vault::task_md(t, Seq::empty(), owners) == "---\n"@ + ("id: "@ + types::uuid_text(t.id)
            + "\n"@) + ("kind: "@ + t.kind + "\n"@) + ("priority: "@ + t.priority + "\n"@) + (
        "state: "@ + types::state_name(t.state) + "\n"@) + ("created: "@ + time::stamp(
            t.created_at,
        ) + "\n"@) + ("updated: "@ + time::stamp(t.updated_at) + "\n"@) + "---\n\n"@ + "# "@
            + t.kind + ": "@ + t.name + "\n\n"@,
{
    let md = vault::task_md(t, Seq::empty(), owners);
    assert(vault::file_refs(t.payload) == Seq::<Seq<char>>::empty());
    assert(md =~= "---\n"@ + ("id: "@ + types::uuid_text(t.id) + "\n"@) + ("kind: "@ + t.kind
        + "\n"@) + ("priority: "@ + t.priority + "\n"@) + ("state: "@ + types::state_name(t.state)
        + "\n"@) + ("created: "@ + time::stamp(t.created_at) + "\n"@) + ("updated: "@
        + time::stamp(t.updated_at) + "\n"@) + "---\n\n"@ + "# "@ + t.kind + ": "@ + t.name
        + "\n\n"@);
}

/// The names of the fields by which a payload refers to another task.
pub open spec fn refers(key: Seq<char>) -> bool {
    ||| key == "fixed_bug_id"@
    ||| key == "related_ack"@
    ||| key == "related_bug"@
    ||| key == "bug_id"@
    ||| key == "ack_id"@
    ||| key == "blocked_by"@
    ||| key == "follows_up"@
}

/// Whether a relation comes from a field of a payload that refers to a task
/// that is there, and leads to the note of that task.
pub open spec fn leads_to_a_task(
    relation: (Seq<char>, Seq<char>),
    tasks: Seq<TaskRowView>,
    owners: Seq<(Seq<char>, Seq<char>)>,
    payload: JsonView,
) -> bool {
    &&& refers(relation.0)
    &&& json::member_text(payload, relation.0) matches Some(named) && (types::uuid_parse(
        named,
    ) matches Some(id) && (model::task_at(tasks, id) matches Ok(Some(t)) && relation.1
        == vault::task_name(owners, t)))
}

/// Whether all relations lead to tasks that the payload refers to.
pub open spec fn all_lead_to_tasks(
    relations: Seq<(Seq<char>, Seq<char>)>,
    tasks: Seq<TaskRowView>,
    owners: Seq<(Seq<char>, Seq<char>)>,
    payload: JsonView,
) -> bool {
    forall|i: int|
        0 <= i < relations.len() ==> leads_to_a_task(
            #[trigger] relations[i],
            tasks,
            owners,
            payload,
        )
}

proof fn lemma_more_relations(
    a: Seq<(Seq<char>, Seq<char>)>,
    b: Seq<(Seq<char>, Seq<char>)>,
    tasks: Seq<TaskRowView>,
    owners: Seq<(Seq<char>, Seq<char>)>,
    payload: JsonView,
)
    ensures
        forall|x: (Seq<char>, Seq<char>)|
            a.contains(x) || b.contains(x) ==> #[trigger] (a + b).contains(x),
        all_lead_to_tasks(a, tasks, owners, payload) && all_lead_to_tasks(
            b,
            tasks,
            owners,
            payload,
        ) ==> all_lead_to_tasks(a + b, tasks, owners, payload),
{
    assert forall|x: (Seq<char>, Seq<char>)| a.contains(x) || b.contains(x) implies #[trigger] (a
        + b).contains(x) by {
        if a.contains(x) {
            let i = choose|i: int| 0 <= i < a.len() && a[i] == x;
            assert((a + b)[i] == x);
        } else {
            let i = choose|i: int| 0 <= i < b.len() && b[i] == x;
            assert((a + b)[a.len() + i] == x);
        }
    }
}

/// A payload that refers to a task by one of seven fields is related to it,
/// under the name of the task's note; and it is related to nothing else.
pub proof fn lemma_relations(
    tasks: Seq<TaskRowView>,
    owners: Seq<(Seq<char>, Seq<char>)>,
    payload: JsonView,
    key: Seq<char>,
    named: Seq<char>,
    id: TaskId,
    t: TaskView,
)
    ensures
        refers(key) && json::member(payload, key) == Some(JsonView::Text(named))
            && types::uuid_parse(named) == Some(id) && model::task_at(tasks, id) == Ok::<
            Option<TaskView>,
            RowError,
        >(Some(t)) ==> model::relations(tasks, owners, payload).contains(
            (key, vault::task_name(owners, t)),
        ),
        all_lead_to_tasks(model::relations(tasks, owners, payload), tasks, owners, payload),
{
    let c1 = model::relation(tasks, owners, payload, "fixed_bug_id"@);
    let r2 = model::relation(tasks, owners, payload, "related_ack"@);
    let c2 = c1 + r2;
    lemma_more_relations(c1, r2, tasks, owners, payload);
    let r3 = model::relation(tasks, owners, payload, "related_bug"@);
    let c3 = c2 + r3;
    lemma_more_relations(c2, r3, tasks, owners, payload);
    let r4 = model::relation(tasks, owners, payload, "bug_id"@);
    let c4 = c3 + r4;
    lemma_more_relations(c3, r4, tasks, owners, payload);
    let r5 = model::relation(tasks, owners, payload, "ack_id"@);
    let c5 = c4 + r5;
    lemma_more_relations(c4, r5, tasks, owners, payload);
    let r6 = model::relation(tasks, owners, payload, "blocked_by"@);
    let c6 = c5 + r6;
    lemma_more_relations(c5, r6, tasks, owners, payload);
    let r7 = model::relation(tasks, owners, payload, "follows_up"@);
    let c7 = c6 + r7;
    lemma_more_relations(c6, r7, tasks, owners, payload);
    assert(c7 == model::relations(tasks, owners, payload));
    if refers(key) && json::member(payload, key) == Some(JsonView::Text(named))
        && types::uuid_parse(named) == Some(id) && model::task_at(tasks, id) == Ok::<
        Option<TaskView>,
        RowError,
    >(Some(t)) {
        let pair = (key, vault::task_name(owners, t));
        let one = model::relation(tasks, owners, payload, key);
        assert(one == seq![pair]);
        assert(one[0] == pair);
        assert(one.contains(pair));
    }
}

/// The files that a payload names are named in the note: all of its texts, in
/// their order, and nothing else of it.
pub proof fn lemma_file_refs(items: Seq<JsonView>, s: Seq<char>, v: JsonView)
    ensures
        vault::text_items(Seq::empty()) == Seq::<Seq<char>>::empty(),
        vault::text_items(items.push(JsonView::Text(s))) == vault::text_items(items).push(s),
        !(v is Text) ==> vault::text_items(items.push(v)) == vault::text_items(items),
{
    assert(items.push(JsonView::Text(s)).drop_last() =~= items);
    assert(items.push(v).drop_last() =~= items);
}

/// The line for the files of a payload stands in the note.
pub proof fn lemma_files_are_named(
    t: TaskView,
    relations: Seq<(Seq<char>, Seq<char>)>,
    owners: Seq<(Seq<char>, Seq<char>)>,
    items: Seq<JsonView>,
)
    requires
        json::member(t.payload, "file_refs"@) == Some(JsonView::Array(items)),
        vault::text_items(items).len() > 0,
    ensures
        text::occurs_in(
            "file_refs: ["@ + text::join(vault::text_items(items), ", "@) + "]\n"@,
            vault::task_md(t, relations, owners),
        ),
{
    let below = vault::below_id(t, relations, owners);
    let top = "---\n"@ + vault::field("id: "@, types::uuid_text(t.id));
    let e = Seq::<char>::empty();
    lemma_fields(t, relations, owners);
    text::lemma_occurs_within(vault::refs_field(t.payload), top, below, e);
    assert(vault::task_md(t, relations, owners) =~= top + below + e);
}

// ---------------------------------------------------------------------
// Files
// ---------------------------------------------------------------------

/// A task's note lies in `tasks/`, under the minute of its creation and its
/// name; where another has that file already, under its identifier too. A
/// decision lies in `decisions/` as well, under its date and name.
pub proof fn lemma_where_notes_lie(owners: Seq<(Seq<char>, Seq<char>)>, t: TaskView)
    ensures
        ({
            let at = t.created_at;
            let minute = time::strftime_text(at.secs(), at.nanos(), "%Y-%m-%d-%H%M"@);
            let day = time::strftime_text(at.secs(), at.nanos(), "%Y-%m-%d"@);
            let plain = "tasks/"@ + (minute + "-"@ + slug::slug(t.name)) + ".md"@;
            let dated = "decisions/"@ + (day + "-"@ + slug::slug(t.name)) + ".md"@;
            &&& vault::owner_of(owners, plain) is None ==> vault::task_path(owners, t) == plain
            &&& vault::owner_of(owners, plain) == Some(types::uuid_text(t.id)) ==> vault::task_path(
                owners,
                t,
            ) == plain
            &&& vault::owner_of(owners, dated) is None ==> vault::decision_path(owners, t) == dated
            &&& vault::owner_of(owners, dated) == Some(types::uuid_text(t.id))
                ==> vault::decision_path(owners, t) == dated
            &&& (vault::owner_of(owners, plain) matches Some(other) && other != types::uuid_text(
                t.id,
            )) ==> vault::task_path(owners, t) == "tasks/"@ + (minute + "-"@ + slug::slug(t.name)
                + " ("@ + slug::escaped(types::uuid_text(t.id)) + ")"@) + ".md"@
        }),
{
}

/// A task is written to its own file, and to a second one where it is a
/// decision and only then; both say the same.
pub proof fn lemma_what_is_written(
    v: VaultView,
    t: TaskView,
    relations: Seq<(Seq<char>, Seq<char>)>,
)
    ensures
        ({
            let w = vault::task_written(v, t, relations);
            let n = v.notes.len() as int;
            let body = vault::task_md(t, relations, v.owners);
            &&& w.notes.len() == n + if t.kind == "decision"@ {
                2int
            } else {
                1int
            }
            &&& w.notes.take(n) == v.notes
            &&& w.notes[n] == (NoteView::Write { path: vault::task_path(v.owners, t), body })
            &&& t.kind == "decision"@ ==> (w.notes[n + 1] matches NoteView::Write {
                path,
                body: second,
            } && second == body && text::has_prefix(path, "decisions/"@))
        }),
{
    let w = vault::task_written(v, t, relations);
    let n = v.notes.len() as int;
    assert(w.notes.take(n) =~= v.notes);
    if t.kind == "decision"@ {
        let path = w.notes[n + 1]->Write_path;
        assert(path.take("decisions/"@.len() as int) =~= "decisions/"@);
    }
}

/// An agent's log lies in `agents/` under its slug, where no other agent has
/// that file.
pub proof fn lemma_where_logs_lie(owners: Seq<(Seq<char>, Seq<char>)>, id: Seq<char>)
    ensures
        ({
            let plain = "agents/"@ + slug::agent_slug(id) + ".md"@;
            vault::owner_of(owners, plain) is None || vault::owner_of(owners, plain) == Some(id)
                ==> vault::log_path(owners, id) == plain
        }),
{
}

// ---------------------------------------------------------------------
// Logs of agents
// ---------------------------------------------------------------------

/// A log begins with the identifier, the name and the first report of its
/// agent.
pub proof fn lemma_log_begins(id: Seq<char>, name: Seq<char>, now: Timestamp)
    ensures
        ({
            let stub = vault::agent_stub(id, name, now);
            &&& text::has_prefix(stub, "---\nid: "@ + id + "\nname: "@ + name + "\nfirst_seen: "@
                + time::stamp(now) + "\n"@)
            &&& text::has_suffix(stub, "## Activity\n"@)
        }),
{
    let stub = vault::agent_stub(id, name, now);
    let head = "---\nid: "@ + id + "\nname: "@ + name + "\nfirst_seen: "@ + time::stamp(now)
        + "\n"@;
    reveal_strlit("\n---\n\n# ");
    reveal_strlit("\n");
    reveal_strlit("\n\n## Activity\n");
    reveal_strlit("## Activity\n");
    assert(stub.take(head.len() as int) =~= head);
    let tail = "## Activity\n"@;
    assert(stub.skip(stub.len() - tail.len()) =~= tail);
}

/// A line of a log tells the event, after the time of it.
pub proof fn lemma_log_line(event: Seq<char>, now: Timestamp)
    ensures
        ({
            let line = vault::event_line(event, now);
            let at = time::strftime_text(now.secs(), now.nanos(), "%Y-%m-%d %H:%M:%S"@);
            &&& text::has_prefix(line, "- `"@ + at + "` "@)
            &&& text::has_suffix(line, "` "@ + event + "\n"@)
        }),
{
    let line = vault::event_line(event, now);
    let at = time::strftime_text(now.secs(), now.nanos(), "%Y-%m-%d %H:%M:%S"@);
    let head = "- `"@ + at + "` "@;
    let tail = "` "@ + event + "\n"@;
    assert(line.take(head.len() as int) =~= head);
    assert(line.skip(line.len() - tail.len()) =~= tail);
}

/// Whether a note adds a line on an event to the log of an agent.
pub open spec fn logs(
    note: NoteView,
    owners: Seq<(Seq<char>, Seq<char>)>,
    agent: Seq<char>,
    event: Seq<char>,
    now: Timestamp,
) -> bool {
    note == (NoteView::Append {
        path: vault::log_path(owners, agent),
        line: vault::event_line(event, now),
    })
}

proof fn lemma_told(s: StoreView, agent: Seq<char>, event: Seq<char>, now: Timestamp, t: TaskView)
    requires
        s.vault is Some,
    ensures
        ({
            let after = model::told(s, agent, event, now);
            &&& after.vault is Some
            &&& logs(after.vault->0.notes.last(), after.vault->0.owners, agent, event, now)
            &&& vault::agent_named(after.vault->0.owners, agent)
            &&& vault::task_named(s.vault->0.owners, t) ==> vault::task_name(
                after.vault->0.owners,
                t,
            ) == vault::task_name(s.vault->0.owners, t)
        }),
{
    vault::lemma_vault_steps(s.vault->0, t, Seq::empty(), agent, agent, now);
}

/// A claim that is won is told in the log of the agent, with a link to the
/// task.
pub proof fn lemma_claim_is_logged(
    s: StoreView,
    id: TaskId,
    agent: Seq<char>,
    now: Timestamp,
    until: Timestamp,
    t: TaskView,
)
    requires
        s.vault is Some,
        model::claim(s, id, agent, now, until).1 == Ok::<Option<TaskView>, RowError>(Some(t)),
    ensures
        ({
            let after = model::claim(s, id, agent, now, until).0;
            after.vault matches Some(w) && logs(
                w.notes.last(),
                w.owners,
                agent,
                "claimed [["@ + vault::task_name(w.owners, t) + "]]"@,
                now,
            )
        }),
{
    let r = model::task_row(s.tasks, id)->0;
    let s1 = model::saved(s, model::granted(r, agent, now, until));
    let s2 = model::noted(s1, t);
    let v = s.vault->0;
    vault::lemma_vault_steps(v, t, model::relations(s1.tasks, v.owners, t.payload), agent, agent, now);
    lemma_told(s2, agent, model::link_event(s2, "claimed"@, t), now, t);
    assert("claimed"@ + " [["@ =~= "claimed [["@) by {
        reveal_strlit("claimed");
        reveal_strlit(" [[");
        reveal_strlit("claimed [[");
    }
}

proof fn lemma_completed_row(s: StoreView, id: TaskId, result: JsonView, now: Timestamp)
    requires
        model::complete(s, id, result, now).1 == Ok::<bool, RowError>(true),
    ensures
        model::task_row(s.tasks, id) matches Some(r) && model::task_row(
            model::complete(s, id, result, now).0.tasks,
            id,
        ) == Some(model::completed(r, result, now)),
{
    laws::lemma_step_row(s, laws::Op::Complete { id, result, now }, id);
}

/// A completion is told in the log of the agent that had claimed the task,
/// with a link to the task.
pub proof fn lemma_completion_is_logged(
    s: StoreView,
    id: TaskId,
    result: JsonView,
    now: Timestamp,
    agent: Seq<char>,
    t: TaskView,
)
    requires
        s.vault is Some,
        model::complete(s, id, result, now).1 == Ok::<bool, RowError>(true),
        model::task_at(model::complete(s, id, result, now).0.tasks, id) == Ok::<
            Option<TaskView>,
            RowError,
        >(Some(t)),
        t.claimed_by == Some(agent),
    ensures
        ({
            let after = model::complete(s, id, result, now).0;
            after.vault matches Some(w) && logs(
                w.notes.last(),
                w.owners,
                agent,
                "completed [["@ + vault::task_name(w.owners, t) + "]]"@,
                now,
            )
        }),
{
    let r = model::task_row(s.tasks, id)->0;
    lemma_completed_row(s, id, result, now);
    let s1 = model::saved(s, model::completed(r, result, now));
    let s2 = model::noted(s1, t);
    let v = s.vault->0;
    vault::lemma_vault_steps(v, t, model::relations(s1.tasks, v.owners, t.payload), agent, agent, now);
    lemma_told(s2, agent, model::link_event(s2, "completed"@, t), now, t);
    assert("completed"@ + " [["@ =~= "completed [["@) by {
        reveal_strlit("completed");
        reveal_strlit(" [[");
        reveal_strlit("completed [[");
    }
}

/// Whether a note tells in the log of an agent that it abandoned a task whose
/// lease ended then.
pub open spec fn tells_of_abandonment(
    note: NoteView,
    owners: Seq<(Seq<char>, Seq<char>)>,
    agent: Seq<char>,
    end: Timestamp,
    now: Timestamp,
) -> bool {
    exists|link: Seq<char>| #[trigger]
        logs(
            note,
            owners,
            agent,
            "abandoned [["@ + link + "]] (lease expired at "@ + time::stamp(end) + ")"@,
            now,
        )
}

proof fn lemma_abandonment_told(
    s: StoreView,
    b: TaskView,
    after: TaskView,
    agent: Seq<char>,
    end: Timestamp,
    now: Timestamp,
) -> (n: int)
    requires
        s.vault is Some,
        b.claimed_by == Some(agent),
        b.lease_until == Some(end),
    ensures
        ({
            let w = model::abandonment_noted(s, Some(b), after, now).vault;
            &&& w is Some
            &&& 0 <= n < w->0.notes.len()
            &&& tells_of_abandonment(w->0.notes[n], w->0.owners, agent, end, now)
            &&& vault::agent_named(w->0.owners, agent)
        }),
{
    let event = model::abandoned_event(s, b);
    let s1 = model::told(s, agent, event, now);
    let s2 = model::noted(s1, after);
    lemma_told(s, agent, event, now, b);
    laws::lemma_noted_grows(s1, after);
    let v1 = s1.vault->0;
    let v2 = s2.vault->0;
    let n = v1.notes.len() - 1;
    assert(v2.notes[n] == v2.notes.take(v1.notes.len() as int)[n]);
    let link = vault::task_name(model::owners_of(s), b);
    assert(event =~= "abandoned [["@ + link + "]] (lease expired at "@ + time::stamp(end) + ")"@)
        by {
        reveal_strlit("abandoned");
        reveal_strlit(" [[");
        reveal_strlit("abandoned [[");
        reveal_strlit("]]");
        reveal_strlit(" (lease expired at ");
        reveal_strlit("]] (lease expired at ");
    }
    assert(vault::log_path(v2.owners, agent) == vault::log_path(v1.owners, agent));
    assert(logs(
        v2.notes[n],
        v2.owners,
        agent,
        "abandoned [["@ + link + "]] (lease expired at "@ + time::stamp(end) + ")"@,
        now,
    ));
    n
}

proof fn lemma_abandonments_told(
    s: StoreView,
    before: Seq<TaskView>,
    after: Seq<TaskView>,
    now: Timestamp,
    k: nat,
    i: int,
    agent: Seq<char>,
    end: Timestamp,
) -> (n: int)
    requires
        s.vault is Some,
        laws::distinct(before),
        k <= before.len(),
        0 <= i < k,
        before[i].claimed_by == Some(agent),
        before[i].lease_until == Some(end),
    ensures
        ({
            let w = model::abandonments_noted(s, before, after, now, k).vault;
            &&& w is Some
            &&& 0 <= n < w->0.notes.len()
            &&& tells_of_abandonment(w->0.notes[n], w->0.owners, agent, end, now)
            &&& vault::agent_named(w->0.owners, agent)
        }),
    decreases k,
{
    let j = k - 1;
    let s1 = model::abandonments_noted(s, before, after, now, j as nat);
    let b = model::first_with(before, before[j].id);
    let s2 = model::abandonment_noted(s1, b, after[j], now);
    laws::lemma_abandonments_grow(s, before, after, now, j as nat);
    if i == j {
        lemma_first_with(before, j);
        lemma_abandonment_told(s1, before[j], after[j], agent, end, now)
    } else {
        let n = lemma_abandonments_told(s, before, after, now, j as nat, i, agent, end);
        laws::lemma_abandonment_grows(s1, b, after[j], now);
        let v1 = s1.vault->0;
        let v2 = s2.vault->0;
        assert(v2.notes[n] == v2.notes.take(v1.notes.len() as int)[n]);
        let link = choose|link: Seq<char>| #[trigger]
            logs(
                v1.notes[n],
                v1.owners,
                agent,
                "abandoned [["@ + link + "]] (lease expired at "@ + time::stamp(end) + ")"@,
                now,
            );
        assert(vault::log_path(v2.owners, agent) == vault::log_path(v1.owners, agent));
        assert(logs(
            v2.notes[n],
            v2.owners,
            agent,
            "abandoned [["@ + link + "]] (lease expired at "@ + time::stamp(end) + ")"@,
            now,
        ));
        n
    }
}

proof fn lemma_first_with(tasks: Seq<TaskView>, j: int)
    requires
        laws::distinct(tasks),
        0 <= j < tasks.len(),
    ensures
        model::first_with(tasks, tasks[j].id) == Some(tasks[j]),
    decreases tasks.len(),
{
    if j > 0 {
        let rest = tasks.drop_first();
        assert(tasks[0].id != tasks[j].id);
        assert forall|a: int, b: int| 0 <= a < b < rest.len() implies (#[trigger] rest[a]).id != (
        #[trigger] rest[b]).id by {
            assert(rest[a] == tasks[a + 1] && rest[b] == tasks[b + 1]);
        }
        lemma_first_with(rest, j - 1);
    }
}

/// A claim that a sweep takes back is told in the log of the agent that held
/// it, with the end of the lease.
pub proof fn lemma_abandonment_is_logged(
    s: StoreView,
    now: Timestamp,
    before: Seq<TaskView>,
    i: int,
    agent: Seq<char>,
    end: Timestamp,
)
    requires
        s.vault is Some,
        model::reclaim(s, now).1 is Ok,
        model::read_all(model::expired_rows(s.tasks, now)) == Ok::<Seq<TaskView>, RowError>(before),
        laws::distinct(before),
        0 <= i < before.len(),
        before[i].claimed_by == Some(agent),
        before[i].lease_until == Some(end),
    ensures
        model::reclaim(s, now).0.vault matches Some(w) && exists|n: int|
            0 <= n < w.notes.len() && tells_of_abandonment(
                #[trigger] w.notes[n],
                w.owners,
                agent,
                end,
                now,
            ),
{
    let s1 = model::rows_swept(s, now);
    let after = model::refetched(s1.tasks, before)->Ok_0;
    let n = lemma_abandonments_told(s1, before, after, now, before.len(), i, agent, end);
    let w = model::reclaim(s, now).0.vault->0;
    assert(tells_of_abandonment(w.notes[n], w.owners, agent, end, now));
}

} // verus!
