# casual-task-api

The rules of a task-tracking HTTP API, written in Verus and proved against
their contracts.

- `src/` is the library. Each module holds the decisions of one part of
  the API: request checks (`tasks`, `workflows`, `roles`, `releases`,
  `tags`, `workspaces`, `reports`), the shared wire conventions (`wire`,
  `unit`, `error`, `text`, `order`), rate limiting (`rate_limit`), the
  route table and fallback (`server`), and live updates (`sse`). Values
  come in, values go out; nothing here reads a socket or a database.
- The laws the API keeps are public proof functions named `law_*`, beside
  the functions they are about.
- `tests/` runs the library on concrete values.
- `app/` holds the conversions at the HTTP edge: serde copies of the
  library's request and answer types, header reading, the error envelope,
  and the framing of server-sent events. The handlers, the router and the
  server loop are not part of this build: they need the service's
  persistence and domain crates, a SQL driver and an async runtime.
