# tempurview

A viewer for Temporal workflows: lists, counts and inspects workflow
executions, reads their histories, correlates activities and child
workflows, and scans for problems (failure hot spots, retry storms, slow
queues, stuck workflows). It works from the `temporal` command-line tool or
from made-up data (`--mock`), as a command-line tool, a terminal interface
or a small web server.

## Layout

- `src/` is the library, written in Verus: every function states what it
  does in `requires` / `ensures` and Verus proves it. The application
  state machine (`app.rs`), history correlation (`activity.rs`,
  `child.rs`), insight detection (`findings.rs`, `activity_findings.rs`,
  `sampled.rs`), the parsers of the CLI's JSON (`client.rs`, `json.rs`),
  the configuration (`config.rs`, `profiles.rs`), the rendered lines and
  table cells (`json_lines.rs`, `detail_lines.rs`, `rows.rs`,
  `tables.rs`) and the mock client (`mock.rs`) live here. `laws.rs` holds
  properties that span several functions, and `finding_laws.rs` the
  thresholds at which each detector reports.
- Calls into `chrono`, `serde_json` and `rand` stand behind small trusted
  wrappers whose contracts say what those crates document.
- `app/` is the program around the library: argument parsing, files,
  running the `temporal` tool, threads, the terminal and the web server.
- `tests/` runs the library on concrete values.
