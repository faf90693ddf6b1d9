# overwatch

A framework for applications made of independent services that talk to each other through
relays, under one runner that starts them, routes requests between them, hands them new
settings and shuts them down.

Layout:

- `src/` — the library, verified with Verus:
  - `services/` — service identification and data, relay errors and connection states, the
    state traits with state initialisation, the status wait, life-cycle messages;
  - `overwatch/` — runner errors, commands, the runner's command loop as a state machine, and
    the group of life-cycle handles of the running services;
  - `derive/` — what the service macros compute: derived names, runtime service
    identifications with their parsing, dispatch by identification, inner-type extraction;
  - `utils/` — identification uniqueness, string comparison;
  - `ping_pong.rs` — the decisions of the ping-pong example application.
- `app/` — the asynchronous runtime on tokio: channels, tasks, runtimes, the runner loop and
  the services' handles, plus the ping-pong application; it calls the library for every
  decision.
- `tests/` — tests of the library.
