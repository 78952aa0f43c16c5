# legion

The core of a desktop assistant that chats with a local Ollama server and
lets the model call tools in a workspace, written in Verus: each public
function states its behaviour in `requires` / `ensures` and Verus proves it.

## Layout

- `src/` — the verified library.
  - `tool_loop.rs`: the tool loop of one chat request as a state machine
    (ask the model, preview, ask the user, run, encode, report), with the
    laws that the model is asked a bounded number of times and that a tool
    runs only when it is registered, not on the deny list, and approved
    when it needs approval.
  - `tools.rs`: tool schemas, the registry, argument readers, file-edit
    rules, command requests, output capture with its byte limit.
  - `search.rs`: argument handling of the search tools, line chunking of
    files, grep scanning and result limits, semantic-index decisions.
  - `ndjson_text.rs`: the law that, for a stream of valid UTF-8, the NDJSON
    lines are the trimmed, non-blank lines of the decoded text.
  - `encoding.rs`: JSON values written as text by serde_json (behind a
    trusted wrapper), and the nesting depth that bounds that writing.
  - `results.rs`: search results as JSON under a byte limit: the longest
    run of leading results whose encoded output fits.
  - `ollama.rs`, `chat_stream.rs`: endpoints and requests of the Ollama
    API, the NDJSON line buffer, pull-progress aggregation, chat streaming.
  - `installer.rs`, `download.rs`, `install_steps.rs`: choice and checks of
    the release asset, the checked download, the steps that replace an
    installed runtime and restore it on failure.
  - `security.rs`: the dangerous-command deny list.
  - `workspace.rs`: the rules that keep paths inside the workspace.
  - `persistence.rs`: validation of saved state, schema migrations, audit
    records.
  - `requests.rs`: the registry of active requests and pending approvals.
  - `json.rs`, `text.rs`, `weburl.rs`: JSON values, text helpers, URLs.
- `tests/` — tests of the library on concrete values.
- `app/` — the unverified shell around it: HTTP, processes, files, SQLite,
  serde conversions and the loops that perform what the library decides.

Calls into `regex`, `globset`, `sha2` and `reqwest` (URL parsing) stand in
`src/` behind small trusted wrappers whose contracts are stated next to them.
