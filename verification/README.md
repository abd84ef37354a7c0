# one-for-all

The logic of an MCP server, its broker client, an operator command line, a trace recorder
and a controller for native applications, written in Verus. Everything under `src/` is
verified; `app/` is the ordinary Rust around it that talks to sockets, files, processes and
the operating system.

- `mcp`, `tools`, `tool_names`, `schema`, `broker_client`, `vision_frame`, `error`, `jsonrpc_code`: the
  server and its connection to the broker.
- `cli`: the operator's command line.
- `trace`, `trace_file`, `trace_run`, `trace_wire`, `trace_registry`, `redact`, `patterns`, `digest`:
  trace recording, redaction and the signed list of trace files.
- `latency`, `cdp`, `metrics`, `caps`, `log_dirs`, `slots`: measurements and limits.
- `controller`, `ax_walk`, `ax_find`, `actions`, `menu`, `window`, `dock`, `statusmenu`,
  `notification_center`, `spotlight`, `spaces`, `scripting`, `quicklook`, `gesture`,
  `clipboard`, `privacy`, `permission`, `subscribe`, `types`: native applications.
- `json`, `text`, `text_map`, `wire`: values, texts and their JSON forms.

Floating-point numbers are carried as their bit patterns. What the library takes on trust
from other crates and from std is marked where it stands, with a comment that names the
function and says what is claimed of it.
