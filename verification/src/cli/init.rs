//! `coord init`: which files a project gets, and what is said about it.

use vstd::prelude::*;

use crate::text;

verus! {

/// What `coord init` is asked to do.
#[derive(Debug)]
pub struct InitArgs {
    /// The project's directory.
    pub dir: String,
    /// Files that are there are overwritten.
    pub force: bool,
    /// No `.mcp.json` is written.
    pub no_mcp: bool,
    /// No `AGENTS.md` is written.
    pub no_agents: bool,
}

/// The configuration that points MCP clients at `coord mcp`.
pub const MCP_JSON: &'static str = "{
  \"mcpServers\": {
    \"coord\": {
      \"command\": \"coord\",
      \"args\": [\"mcp\"]
    }
  }
}
";

/// The protocol that agents in a project follow.
pub const AGENTS_MD: &'static str = "# Working with coord

Several agents may work on this project at once. They coordinate through a
shared bulletin, served by `coord`. Follow this protocol.

## Who you are

Pick a stable handle, such as `feature-a-v1.2`, and use it everywhere. Send
`agents_heartbeat { id, name }` when you start and every few minutes while you
work.

## Before you start

- `tasks_list { state: \"pending\" }` shows work that nobody has claimed.
- `tasks_list { kind: \"ack\", limit: 50 }` shows what was announced lately.

## Doing work

1. Post it with `tasks_send { name, kind, priority, payload }` if it is not on
   the bulletin yet.
2. Claim it with `tasks_claim { id, agentId, leaseSeconds }`. Only one agent
   wins. If you lose, pick something else.
3. A claim is a lease of five minutes unless you ask for another length, an
   hour at most. Call `tasks_extend` while you need longer. A lease that ends
   puts the task back on the bulletin.
4. Finish with `tasks_complete { id, result, postAck: true, ackName }`. The
   acknowledgement is posted together with the completion, and its payload
   names your task under `fixed_bug_id`.

## Checking the work of others

An empty list of pending tasks does not mean that nothing happened. Look for
the outcome:

- `tasks_list { kind: \"ack\", limit: 50 }`, then `tasks_get` on the
  `fixed_bug_id` in the payload of the acknowledgement.
- `tasks_list { state: \"completed\", kind: \"feature\", limit: 50 }`.

## Waiting

`coord wait --as <handle> --kind ack --name-contains 'v1.1 stable'` returns as
soon as a matching task is posted.
";

/// A file of the scaffold.
#[derive(Debug, Clone, Copy)]
pub struct ScaffoldFile {
    pub name: &'static str,
    pub contents: &'static str,
}

/// The views of a sequence of files: names and contents.
pub open spec fn file_views(files: Seq<ScaffoldFile>) -> Seq<(Seq<char>, Seq<char>)> {
    Seq::new(files.len(), |i: int| (files[i].name@, files[i].contents@))
}

/// The files that a project gets.
pub open spec fn scaffold(no_mcp: bool, no_agents: bool) -> Seq<(Seq<char>, Seq<char>)> {
    let mcp = if no_mcp {
        Seq::empty()
    } else {
        seq![(".mcp.json"@, MCP_JSON@)]
    };
    let agents = if no_agents {
        Seq::empty()
    } else {
        seq![("AGENTS.md"@, AGENTS_MD@)]
    };
    mcp + agents
}

/// The files that a project gets, in the order in which they are written.
pub fn scaffold_files(args: &InitArgs) -> (r: Vec<ScaffoldFile>)
    ensures
        file_views(r@) == scaffold(args.no_mcp, args.no_agents),
{
    let mut out: Vec<ScaffoldFile> = Vec::new();
    if !args.no_mcp {
        out.push(ScaffoldFile { name: ".mcp.json", contents: MCP_JSON });
    }
    if !args.no_agents {
        out.push(ScaffoldFile { name: "AGENTS.md", contents: AGENTS_MD });
    }
    assert(file_views(out@) =~= scaffold(args.no_mcp, args.no_agents));
    out
}

/// Whether a file is written.
pub open spec fn writes(present: bool, force: bool) -> bool {
    !present || force
}

/// Whether a file is written: one that is there only by force.
pub fn write_wanted(present: bool, force: bool) -> (r: bool)
    ensures
        r == (!present || force),
        r == writes(present, force),
{
    !present || force
}

/// What is said of a file.
pub open spec fn file_report(path: Seq<char>, wrote: bool) -> Seq<char> {
    if wrote {
        "  wrote   "@ + path
    } else {
        "  skipped "@ + path + " (already exists; pass --force to overwrite)"@
    }
}

/// What is said of a file.
pub fn file_line(path: &str, wrote: bool) -> (r: String)
    ensures
        r@ == file_report(path@, wrote),
{
    if wrote {
        let mut s = "  wrote   ".to_owned();
        s.append(path);
        s
    } else {
        let mut s = "  skipped ".to_owned();
        s.append(path);
        s.append(" (already exists; pass --force to overwrite)");
        s
    }
}

/// What is said at the end.
pub open spec fn summary(dir: Seq<char>, wrote: nat, skipped: nat) -> Seq<Seq<char>> {
    seq![
        ""@,
        "scaffolded coord into "@ + dir + " ("@ + text::decimal(wrote) + " written, "@
            + text::decimal(skipped) + " skipped)"@,
        ""@,
        "next steps:"@,
        "  1. Start the daemon (in a long-lived terminal):"@,
        "       coord serve --vault .coord/vault"@,
        "  2. In your IDE / agent, point it at this project's .mcp.json"@,
        "     (some clients pick it up automatically; see README for"@,
        "     Cursor / Codex / Gemini configs)."@,
        "  3. Watch it live:"@,
        "       coord top"@,
    ]
}

/// What is said at the end.
pub fn summary_lines(dir: &str, wrote: u64, skipped: u64) -> (r: Vec<String>)
    ensures
        text::texts(r@) == summary(dir@, wrote as nat, skipped as nat),
{
    let mut done = "scaffolded coord into ".to_owned();
    done.append(dir);
    done.append(" (");
    done.append(text::decimal_text(wrote).as_str());
    done.append(" written, ");
    done.append(text::decimal_text(skipped).as_str());
    done.append(" skipped)");
    let mut out: Vec<String> = Vec::new();
    out.push("".to_owned());
    out.push(done);
    out.push("".to_owned());
    out.push("next steps:".to_owned());
    out.push("  1. Start the daemon (in a long-lived terminal):".to_owned());
    out.push("       coord serve --vault .coord/vault".to_owned());
    out.push("  2. In your IDE / agent, point it at this project's .mcp.json".to_owned());
    out.push("     (some clients pick it up automatically; see README for".to_owned());
    out.push("     Cursor / Codex / Gemini configs).".to_owned());
    out.push("  3. Watch it live:".to_owned());
    out.push("       coord top".to_owned());
    assert(text::texts(out@) =~= summary(dir@, wrote as nat, skipped as nat));
    out
}

/// A project gets each of its two files unless it does without it, and no
/// others.
pub proof fn lemma_scaffold(no_mcp: bool, no_agents: bool, name: Seq<char>)
    ensures
        (exists|i: int|
            0 <= i < scaffold(no_mcp, no_agents).len() && (#[trigger] scaffold(
                no_mcp,
                no_agents,
            )[i]).0 == name) <==> (name == ".mcp.json"@ && !no_mcp) || (name == "AGENTS.md"@
            && !no_agents),
{
    let files = scaffold(no_mcp, no_agents);
    if name == ".mcp.json"@ && !no_mcp {
        assert(files[0].0 == name);
    }
    if name == "AGENTS.md"@ && !no_agents {
        assert(files[files.len() - 1].0 == name);
    }
}

/// What is said of a file names it, and says whether it was written.
pub proof fn lemma_file_report(path: Seq<char>)
    ensures
        text::occurs_in(path, file_report(path, true)),
        text::occurs_in(path, file_report(path, false)),
        text::has_prefix(file_report(path, true), "  wrote   "@),
        text::has_prefix(file_report(path, false), "  skipped "@),
{
    let a = file_report(path, true);
    let b = file_report(path, false);
    assert(a =~= ("  wrote   "@ + path) + Seq::<char>::empty());
    text::lemma_occurs(path, a);
    text::lemma_occurs(path, b);
    assert(a.take("  wrote   "@.len() as int) =~= "  wrote   "@);
    assert(b.take("  skipped "@.len() as int) =~= "  skipped "@);
}

/// A file that is there is written over only by force, and one that is not
/// there is always written.
pub proof fn lemma_files_are_kept(force: bool)
    ensures
        writes(true, force) <==> force,
        writes(false, force),
{
}

} // verus!
