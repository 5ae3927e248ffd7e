# biubin

biubin is a protocol test server for development: one binary that answers
HTTP fixtures (an httpbin-style set with OpenAPI documentation), WebSocket and
server-sent events, GraphQL, Thrift, MQTT, raw TCP echo and UDP echo, and that
records what it sees in an event log.

## Layout

- `src/` is the library, written in Verus. Every rule the server follows is
  stated there as a contract and proved: configuration from the environment,
  listener readiness, the bounded event log and its cursors, the HTTP fixture
  decisions (status codes, redirects, cookies, caching, entity tags, byte
  ranges, multipart and form bodies, response headers), the OpenAPI document
  and capability list built from one endpoint table, the TCP echo session and
  UDP drop rule, Thrift dispatch and framing, gRPC status mapping, GraphQL
  resolvers and the MQTT listener layout. Public proof functions named `law_*`
  state the properties that span several calls.
- `src/` calls outside crates (url, base64, flate2, httpdate, serde_json, time
  and the `http` types) only through small trusted wrappers whose contracts
  say what those crates' sources show.
- `tests/` exercises the library on concrete values.
- `app/` is the server itself: argument handling, sockets, the axum router,
  the GraphQL schema, the Thrift and MQTT runtimes and the TLS proxy. It hands
  the library plain values and acts on what comes back.

## Verifying

Run Verus on `src/lib.rs` with the outside crates of `Cargo.toml` on its
library path; the tests run with `cargo test`.
