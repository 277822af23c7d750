# mcp_hub_lib

The core of MCP Hub, a local hub that runs MCP servers, sits between an AI
client and each server as a proxy, asks the user before a request uses a
scope that was not granted, and records every tool call in a session trace
that the Timeline replays. The library is written in Verus: each function
carries a `requires` / `ensures` contract and is proved against it.

## Layout

- `src/` – the verified library.
  - `mcp/connection.rs` – one proxied connection as a state machine: what
    each client line, server line and approval answer does.
  - `mcp/proxy.rs`, `mcp/agent.rs` – permission checks and request
    classification.
  - `session/` – the trace format: canonical JSON and payload hashes
    (`hash.rs`, `member_order.rs`), completion of trace records with the
    64 KiB payload cap (`partial.rs`), reading NDJSON session files
    (`reader.rs`), writer bookkeeping (`writer.rs`) and a demo session.
  - `json.rs`, `json_decode.rs` – the JSON model, and decoding text into
    it (through serde_json).
  - `security/` – the approval registry, risk levels and the macOS
    sandbox profile.
  - `db/` – server records, and their stored columns (`columns.rs`: what
    a database row reads back as, and what a server is written as).
  - `mcp/lifecycle.rs` – the status a server is recorded with after its
    process is spawned (or fails to be).
  - `commands/` – the values the commands return.
- `tests/` – tests that run the compiled library.
- `app/` – the program around it: sockets, child processes, SQLite, file
  I/O, the async runtime and the command-line entry point.
