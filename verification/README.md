# gen-mcp

gen-mcp turns configured command-line programs into MCP tools: a TOML file
describes groups of tools, their parameters and their time and output limits,
and each `tools/call` becomes one run of the configured command with an
explicit argument vector (never through a shell).

## Layout

- `src/` — the verified library (Verus).
  - `config` — the configuration model, default resolution and validation.
  - `tools` — the tool registry and the generated input schemas.
  - `shell` — shell-style splitting of argument values.
  - `service` — from a `tools/call` request to the run to make, and from the
    run's outcome to the reply and to its `command.execute` outcome label
    (`ok`, `nonzero_exit`, `stopped_after`, `timeout`, `command_not_found`,
    `error`).
  - `server` — the server state: handshake, `initialize`, `tools/list`, and
    call preparation with MCP errors.
  - `executor` — bounded head/tail collection of a stream, the watch over a
    running process (when to signal, wait and kill), and what a run amounts
    to given how it ended.
  - `transport` — newline and `Content-Length` framing of JSON-RPC messages.
  - `auth`, `oidc` — websocket authentication choice and OIDC discovery checks.
  - `config_schema` — the example configuration and the Markdown
    documentation of the configuration schema.
  - `json`, `text`, `error` — JSON values, string helpers, and error messages.
- `app/` — the program: command line, TOML loading, process spawning and
  signalling, the stdio JSON-RPC loop, JWKS verification, and the in-process
  `command.execute` counter and duration histogram.
- `tests/` — tests of the library.
