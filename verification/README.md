# cargo-bay

A terminal UI for Cargo workspaces with lots of binaries: a live, browsable
list of every runnable binary, which launches the one you pick without a
surprise compile, tells at a glance whether it is stale, and rebuilds what is
out of date in the background.

## Layout

- `src/` is the library, verified with Verus: the command line, discovery,
  freshness, the build queue, the launcher with its keys and clicks, and what
  the screen shows. Contracts are stated over mathematical models of the types
  (the `...View` structs and enums).
- `app/` is the program around it: the terminal, the file system, the child
  processes and the event loop.
- `tests/` runs the library on concrete values.

## What is taken on trust

The library calls `portside` (the loaded workspace), `ratatui` (splitting areas
and borders) and `std::path`. What it relies on is stated at the calls:
`src/workspace.rs`, `src/geometry.rs` and `src/paths.rs`.

## Some laws that are proved

- Enter, `r` and `d` run an existing binary as it is, fresh or stale; they
  compile only when there is none (`src/events.rs`).
- A binary is stale exactly if a member that its app links, directly or not,
  has newer source; `--subfolder` and `--filter` never change that
  (`src/resolve.rs`).
- Background cargo commands are serialized: at most one runs at a time, builds start in
  the order in which they were asked for, no app waits for two, and canceling
  stops all of them while running apps go on (`src/job.rs`). A windowed app
  that needs cargo meanwhile waits and starts once it is free; a terminal app
  gets the terminal at once (`src/events.rs`).
- Every panel stays on the screen (`src/ui.rs`).
