# server

The backend of a web service that lets signed-in SJTU students list their Canvas courses and
recordings and download the recordings. Users sign in with a jAccount QR code; the server keeps
their upstream session and hands the browser only opaque, short-lived handles.

`src/` is the verified library. It holds the logic of the service, each public function with a
contract that Verus proves:

- `range`, `filename`, `cookies`, `origin`, `frontend`: request parsing and response headers.
- `config`: configuration validation.
- `ids`, `secret`, `csrf`: opaque identifiers and constant-time secret comparison.
- `pending`, `pending_store`, `workflow`, `live_events`: the QR login state machine, its bounded
  store and event history, the workflow's steps, and the live event stream.
- `session`, `session_store`, `ticket`, `state`: session handles, sessions, download tickets and
  the operations that span the stores.
- `rate_limit`, `whitelist`, `invite`, `gate`: admission rules.
- `stream`, `web_error`, `responses`: download decisions, error answers and response bodies.

`app/` is the program around it: the HTTP server (axum), the upstream protocol client, the
invitation database and the administration commands. `tests/` exercises the library.

The rate limiter keeps its windows in a `dashmap::DashMap` keyed by address family and value;
each map operation it uses is a trusted wrapper whose contract is stated over the map's
contents. The stores of pending logins, sessions and download tickets hold values of a type
parameter (the program's session context, the authenticated login, the upstream resource), and
a named view of an outside collection's contents cannot be generic, so those stores are ordinary
keyed collections of the library, owned by the server state, changed only through `&mut` and
shared by the program behind one lock. Every change of them is a stated change of the store's
map.

Downloads are always streamed through the server. There is no redirect delivery, no subtitle
route and no separate validation for production deployments; the configuration is the one that
`config` validates.
