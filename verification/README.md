# vertex_ai

The decision logic of the Vertex AI engine, written in Verus and proved
against its contracts: the developer agent's tool and terminal rules and its
run loop as a state machine, the ARD relay of agent teams, privacy-aware
context building within token budgets, scoped memory with duplicate
detection, model storage and runtime bookkeeping, and the transport-neutral
command dispatch of the core.

Layout:

- `src/` — the verified library. Each module states its data with spec
  functions and views and proves every public function against its
  `requires`/`ensures`; laws that relate several functions are public proof
  functions. Calls into outside crates (uuid, getrandom, chrono, serde_json,
  regex, similar, url) and into a few std path functions stand behind small
  trusted wrappers whose contracts say what the outside code does.
- `tests/` — ordinary Rust tests that run the library with the outside
  crates linked.
- `app/` — the host around the library: HTTP clients, files and processes,
  the agent and command loops that perform what the library plans.

The command dispatch is `plan_command` and
`complete_command` in `src/core_service.rs`, and context building is
`build_context` in `src/context.rs`.
