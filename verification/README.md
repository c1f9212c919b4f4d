# mem0_core

Long-term memory for agents, verified with Verus.

The library decides; it never does I/O. An operation on memories hands out one command at a time
(ask the model, encode a text, read or write the store, keep a change in the history) and goes on
when it is given the reply. What each step does is stated in its contract.

- `src/memory` – adding, searching, updating, deleting and resetting memories, and the laws that
  hold whatever the services reply
- `src/vector_stores` – filters, the store that lives in the process, the S3 Vectors store, and the
  suite that every store has to pass
- `src/server.rs` – the tools by which agents reach their memories
- `src/history.rs`, `src/config.rs`, `src/proxy.rs` – rows of the history, set-up, and the proxy in
  front of the server
- `app` – the services themselves, the MCP server and the Lambda entry point
