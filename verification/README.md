# coord

A local coordinator for parallel coding agents, written in Verus. Agents post
tasks on a bulletin, claim them for a limited time, complete them, and wait for
each other's results.

The library under `src/` holds the logic, and Verus proves every function of it
against its contract:

- `types`, `json`, `time`, `text`, `slug`, `order` — tasks and agents, JSON
  documents, instants, and the building blocks for texts and listings
- `model` — the bulletin as mathematics, and what each operation makes of it
- `store` — the executable bulletin
- `laws` — what holds of any run of operations: one winner for each claim,
  leases that pass on abandoned work and are never cut short, ends that are
  final, complete listings, tables that outlive the program, a file for each
  task that shows its last change
- `rows` — tasks and agents as text columns, which is how the bulletin holds
  them: a row that cannot be read is an error only where it is used
- `vault` — the markdown audit trail, as notes to be carried out
- `a2a` — the JSON-RPC methods and the long poll
- `cli` — the client's commands, tables, dashboard and waits

Clock readings, UUIDs and JSON text come from `chrono`, `uuid` and
`serde_json`. Each call into them stands behind a small function whose contract
says what is relied on.

The program under `app/` does the rest: SQLite, HTTP, files and the terminal.
