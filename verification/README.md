# oqto

The core logic of the oqto agent-workspace backend and of its administrator
CLIs (`oqtoctl`, `octoctl`), written in Verus: each public function states
in `requires` / `ensures` what it returns, and Verus proves it.

## Layout

- `src/` — the verified library.
  - `text.rs`: character-level helpers (splitting, trimming, decimal
    numbers, prefixes and suffixes, substring search) shared by the rest.
  - `json.rs`: JSON text read into the library's own `JsonValue`, and
    field lookups.
  - `container.rs`, `agent.rs`, `agent_service.rs`, `agent_rpc.rs`:
    container settings and their validation, agent naming and port
    planning, the agent backends' session table and the messages they
    return.
  - `auth.rs`, `api_error.rs`, `api.rs`, `proxy.rs`, `terminal.rs`:
    authentication settings, API errors, API records, proxy routing and the
    terminal bridge's framing and retry.
  - `history.rs`, `order.rs`: chat history read from OpenCode's storage,
    ordered most recent first and grouped by workspace.
  - `pi.rs`, `pi_stream.rs`, `pi_bridge.rs`, `runner.rs`, `eavs.rs`: the
    Main Chat agent, its event stream and bridge, the process runner and the
    key service client's rules.
  - `a2ui.rs`, `ctl.rs`, `octoctl.rs`: the administrator CLIs' decisions —
    A2UI surfaces, the setup and identity doctors, user management, the
    message bus, and the replies they read (each reader has a form over an
    already parsed `JsonValue`).
  - `samples.rs`: the development harness's sample A2UI surfaces, each
    proved to render (a root component, and every referenced component
    present).
- `tests/` — tests of the library on concrete values, run against the
  real outside crates.
- `app/` — ordinary Rust around the library: JSON wire forms, files, the
  terminal and HTTP calls.

## Trust

Calls into outside crates (bcrypt, nanoid, uuid, reqwest's URL parser,
urlencoding, serde_json, toml, dirs) and a few std functions (clock, hashing, case
mapping) stand behind `#[verifier::external_body]` wrappers whose doc
comments say what their contracts claim of the outside code. Where a
result takes pages to state (a JSON or TOML parse, a URL's path), it is
named by an uninterpreted spec function, and the functions that use it are
exact over that name.
