# blenny

The core of Blenny, a real-time web framework, as a Verus-verified library,
with the web server around it.

- `src/` is the library, verified by Verus: the transport hub's routing
  tables (global, topic and per-user channels over `tokio` broadcast
  channels), the standard and Datastar encoders, intent filtering, session
  token extraction from request headers and the authentication guard,
  configuration layering, the error response body, the module attribute
  (read from its text with `syn`, then checked against its grammar), the
  choice of the next message on a connection's channels, and the builder's
  and template watcher's decisions.
- `tests/` exercises the library.
- `app/` is the server: configuration loading, the axum routes and
  handlers, the SSE and WebSocket endpoints, JWT signing and checking,
  templates (tera) and embedded static files.
