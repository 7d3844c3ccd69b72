# allegro-mcp

An MCP server for the Allegro REST API. Its tools are made at run time from the
published OpenAPI document.

`src/` is the core, written in Verus: its functions state what they return or
change, and the statements are proved. Where the time of a call decides, a
function that takes the reading of the clock as an argument says what comes of
it, and the one that reads the clock itself says what holds of every reading; of
the bare readings nothing is stated.

| module | what it decides |
|---|---|
| `config` | the configuration: file, environment, flags, their order, validation |
| `cli` | what flags and environment come to, what the commands print |
| `auth` | the token flows, the cached token, the device flow, the token file |
| `login` | the steps of `auth device` |
| `schema` | loading, caching and counting the OpenAPI document |
| `tool_registry` | names, input schemas and media types of the tools |
| `dispatcher` | the request for a tool call, and its retries |
| `resilience` | backoff, rate budget, error reports |
| `server`, `http_server` | MCP listings and calls, the guard of the HTTP routes |
| `http` | what every request says about the client |
| `json`, `text`, `time` | values the rest is built from |

What the network, the disk and the terminal do is left to `app/`: it performs the
steps that the core asks for and hands back what came of them.

Outside crates are called from `src/` through small wrappers whose contracts are
not proved. Each says in its doc comment what it claims of the function that it
calls.

`tests/` runs the core on concrete values.
