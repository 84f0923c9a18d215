# agent_context

Context management for agent conversations, verified with [Verus](https://github.com/verus-lang/verus).

A conversation with an agent grows until it no longer fits into the window of a model. This library
keeps the messages of such a conversation, archives ranges of them behind placeholders, restores and
summarises them, counts their tokens, and offers all of that as tools: to the agent itself, to other
programs over a line-based protocol, and to devices over a web server. The logic of the library is
verified against its contracts; the calls into other crates, named below, are trusted.

## Layout

- `src/thread.rs`, `message.rs`, `request.rs`, `markdown.rs`: conversations, and what a model is sent
  of them.
- `src/memory.rs`, `archive.rs`, `segment_file.rs`: archived ranges. `memory_laws.rs` states what
  archiving and restoring promise together.
- `src/turn.rs`, `retry.rs`, `completion.rs`, `title.rs`, `summary.rs`, `authorization.rs`: how a turn
  of the agent goes. `turn_laws.rs` states what holds of every turn.
- `src/token_usage.rs`: counted and estimated tokens.
- `src/tools/`: the tools that an agent may call.
- `src/embedded_mcp.rs`, `mcp_bridge.rs`, `cli.rs`: the tools over a protocol, from both sides.
  `protocol_laws.rs` states that the two sides understand each other.
- `src/remote_server/`, `src/ui/`: the server for devices, and the dialogs that show it.
- `src/templates.rs`: the system prompt.
- `src/text.rs`, `json.rs`, `json_text.rs`, `paths.rs`, `ids.rs`: what the rest is built from.
- `tests/`: examples that are run.
- `app/`: the program around the library: sockets, processes, files.

Calls into other crates (`serde_json`, `regex`, `qrcode`, `image`, `handlebars`, `rand`, `uuid`,
`chrono`) stand behind functions marked `external_body`. The comment above each says what its contract
claims of the call; Verus takes it without proof.
