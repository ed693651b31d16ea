# railscale

A streaming proxy core whose decisions are verified with Verus.

`src/` is the verified library:

- `tls_passenger`, `http_passenger`, `ticket` — decoders of a connection's
  metadata (TLS handshake records with SNI, HTTP request and header lines).
- `connection` — one request cycle: byte budgets before and after routing, when
  to route, when to stop, keep-alive, the totals of a connection.
- `route` — match strategies and the first-match router.
- `stabling`, `pool` — the per-host queues of idle upstream connections and the
  pool that keys them by routing key.
- `derive` — matchers that extract values from frames, with conflict tracking.
- `phase`, `phase_order`, `batcher`, `frames`, `error_mapper` — frames, phased
  buffering with stable reordering, batching and the frame transforms.
- `capture` — the pcapng blocks and file rotation; `recorder` — the JSON log
  lines; `flow` — the forwarder builders.
- `buffers`, `text`, `error` — byte buffers, text and errors.
- `laws` — properties that relate several functions.

`app/` is the runtime around it: sockets, tasks, files, metrics and the
development server's `main`.
