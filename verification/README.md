# mini_rpc

A small JSON-RPC 2.0 stack, built up in stages: a plain-text echo server, a
JSON echo server, then a JSON-RPC server with method dispatch and batches,
error envelopes, and a method that never answers; with clients for each.

- `src/` is the library, verified with Verus:
  - `json.rs`: the JSON value type, its model, and the accessors requests are read with;
  - `text.rs`: decimal rendering of integers;
  - `parse.rs`: reading a body as JSON text, by serde_json;
  - `rpc.rs`: request dispatch from the raw body text, response envelopes,
    batches and parse errors,
    with the laws that every reply carries its request's id and that a batch
    answers each request once;
  - `client.rs`: request ids, request envelopes, reading replies, and the
    law that a call reads back what the server made of it;
  - `echo.rs`: the two echo servers.
- `app/` holds the programs: HTTP on 127.0.0.1:4000 with axum, requests with
  reqwest, the waiting and concurrency with tokio and futures-util, and the
  JSON text of the v2 and v3 servers and of the clients with serde_json. Run it with one of `v1-server` … `v5-server`,
  `v1-client` … `v4-client`.
- `tests/` runs the library on concrete values.
