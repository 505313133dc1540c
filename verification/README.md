# beads_backend

The decision logic behind a board of beads (issues), verified with Verus. A
project keeps its beads either in a JSONL file or in a Dolt database; the
library decides which, reads and relates the beads, adds comments, manages
database servers and watches for changes. It performs no I/O, but
for reading the clock when a comment is added to an issue file.

- `src/` is the library. Contracts speak of the views of its types: `Bead` as
  `BeadView`, paths as sequences of component names, tables as maps.
  - `beads`, `error`, `watch`, `text`, `path`, `path_map`: data and primitives.
  - `relations`, `relation_laws`: parents, children and related beads.
  - `jsonl`, `jsonl_laws`, `jsonl_watcher`: the JSONL backend.
  - `dolt`, `dolt_laws`, `dolt_server`, `dolt_manager`, `dolt_watcher`: the
    Dolt backend.
  - `detect`: which backend a project uses, and the backends in use.
- `tests/` runs the library on concrete values.
- `app/` is ordinary Rust around it: files, processes, connections, clocks and
  the HTTP endpoint. Where work alternates with decisions, it performs the
  action that the library asks for and hands back what happened.
