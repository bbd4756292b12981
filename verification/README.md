# mcsoftsolution-chat

Backend of the MC Soft "Chat with us" widget: an Axum router that answers
visitors through an OpenRouter model grounded in the tools of an MCP server.

The crate is split in two:

- `src/` is the verified core, written in Verus. It holds every decision the
  service takes, each with a contract:
  - `config` — configuration, builder, environment values, resolver precedence;
  - `prompt` — the system prompt and its live tool list;
  - `json` — the JSON document model the logic reads and builds (parsing and
    printing are done by `serde_json`);
  - `sse` and `openrouter` — server-sent-event framing and the incremental
    decoder of a completion stream, with the proof that chunking does not
    change what is decoded;
  - `mcp` — JSON-RPC messages, reply decoding, tool results, reconnect rule;
  - `handler` — request checks, the opening transcript, tool definitions;
  - `agent` — the agent loop as a state machine, with its laws (one `done`
    event, at most six model turns, every tool call announced and reported).
- `app/` is the I/O layer: the Axum router and SSE responses, the HTTP
  clients for OpenRouter and MCP, reading the environment and awaiting the
  configured resolvers. It drives the core and converts values to and from
  their `serde` forms.

`tests/` exercises the core on concrete values.
