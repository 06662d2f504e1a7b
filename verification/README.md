# lmstudio_rust

A client for LM Studio's WebSocket API, with its logic verified by Verus.

- `src/` is the verified library: model descriptions and their rendering
  (sizes and context lengths written exactly as binary64 arithmetic with
  `{:.1}` would write them), logging rules, the protocol's JSON messages,
  the handshake verdict, the bookkeeping of remote procedure calls and the
  routing of their replies, how channel messages read, service discovery's
  candidate addresses, and the client's decisions around its calls,
  including the steps of a model load (start, each progress update, outcome)
  and of its cancellation.
- `app/` is the `lms` command-line program and the asynchronous plumbing
  around the library: sockets, timeouts, HTTP health checks, serde forms of
  the library's types, terminal output, and the floating-point test of
  whether a load is complete.
- `tests/` runs the library on concrete values.
