# mavis_core

MAVIS is a local desktop companion: it listens, keeps a memory of the
session, plans replies and actions, asks before anything risky runs, and
notices what the package manager did to the machine.

This crate holds the decisions behind that behaviour as a library verified
with Verus, and the runtime around it as ordinary Rust.

## Layout

- `src/` — the verified library. Functions state what they return in
  `ensures` clauses, except where nothing can be promised: the calls whose
  answer depends on the clock, the time zone or the disk, and a few
  constructors of types with no fields. The properties the system promises
  as a whole are stated as public proof functions named `law_*`:
  - `safety/` — risk scoring of plans and the permission gate (a refusal
    word, "don't" included, always wins; held actions run only on a clear yes in time, with
    "administrator" for the riskiest; every decision is recorded).
  - `planner/` — commands answered without the model (system controls,
    play, open, search), time references, what context reaches the model.
    Speech never reaches the shell.
  - `engine.rs`, `memory/` — the context engine's step for each event,
    working memory, recall importance and retention, the entity graph.
  - `sentinel/` — package-manager logs (pacman, dpkg, rpm), Debian version
    order, transactions and the one sentence spoken for each.
  - `bridge.rs`, `util.rs` — the worker's framing and restart rules, and
    subsystem supervision.
  - `audio.rs`, `compositor.rs`, `platform.rs`, `system/`, `ui.rs` — the
    decisions of the microphone, window tracking, app discovery, calendar,
    browser and hotkey sockets, and the orb.
  - `clock.rs`, `json.rs`, and a few items elsewhere are the calls into
    `chrono`, `serde_json`, `base64` and std whose contracts are trusted;
    each says in its doc comment what it claims.
- `tests/` — scenarios run against the compiled library.
- `app/` — the program: the event bus, tokio tasks, SQLite stores, audio
  capture, the orb window, sockets and processes. It calls the library for
  every decision.
