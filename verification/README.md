# ripd

The verified core of `ripd`, the continuity server of the rip agent runtime.
The library holds the server's logic with its contracts proved by Verus: how
the OpenResponses provider is configured and what its requests carry, how
streamed tool calls are collected and replayed, how background tasks are
admitted, logged, controlled and ended, and how a run's context is chosen.

## Layout

- `src/` — the library, verified apart from its trusted declarations: the
  small wrappers and type declarations through which it calls std's UTF-8
  and time functions, uuid and serde_json (in `ids`, `json`, `sse_bytes`,
  `task_logs`, `text` and `tool_choice`), whose contracts are assumed:
  - `text`, `text_order`, `json`, `assoc`: character helpers, an order on
    texts, JSON as plain data, association lists.
  - `provider`, `provider_env`, `provider_request`, `compat`, `tool_choice`:
    provider settings read from the environment, the JSON of request
    options, provider/route profiles, and `tool_choice` handling.
  - `streaming`, `sse_bytes`, `agent`, `session`, `context_selection`,
    `observability`: the provider stream (tool-call collection, UTF-8 cutting
    of raw bytes), the agent loop's decisions, session planning, context
    strategy selection and request dumps.
  - `tasks`, `task_logs`, `task_status`, `task_run`, `paths`: background
    tasks — admission and control checks, logs and artifacts, status records,
    the start-up steps of a task, output events, the run loops of piped and
    pseudo-terminal tasks, workspace paths.
  - `event_stream`, `registry`, `route_errors`, `authority_lock`, `ids`,
    `kernel`, `fixture`: event replay, the in-memory registry, HTTP error
    mapping, lock recovery, identifiers and time, the event vocabulary, and
    the fixture program.
- `tests/` — tests run against the compiled library.
- `app/` — a small binary around the library: it reads the settings from
  the environment and prints them, probes a request dump on disk when dumps
  are enabled, and runs the fixture program. It runs no server, session,
  task or agent loop.
