# zero_postgres

The logic of a PostgreSQL client, verified with Verus and free of sockets: who may use a
connection when, the low-level exchanges of the extended protocol, batches, portals, pipelines
and a pool of idle connections.

- `src/conn` holds the state of a connection and its operations. `mod.rs` has the flags that
  decide whether a connection may be used, `drive.rs` the steps of a protocol state machine,
  `exchange.rs` Flush, Sync, Bind, Execute and Close, `batch.rs` batches, `scope.rs` how
  operations begin and what encloses them (portals, pipelines, transactions), `target.rs` where to
  connect to.
- `src/pipeline` holds pipelines: `model.rs` is what a pipeline does as a mathematical function,
  `mod.rs` the code that is proved to do it, `laws.rs` what holds of every course of events.
- `src/protocol` holds the messages, byte for byte.
- `src/pool.rs`, `src/named_portal.rs`, `src/unnamed_portal.rs`, `src/statement.rs`,
  `src/params.rs`, `src/error.rs`, `src/types.rs` and `src/text.rs` hold the rest.
- `app` is the client over compio and tokio sockets. The protocol state machines and the
  handlers come from its caller.

An operation is a set of steps. A step takes the connection and what the transport reported, and
answers with what the transport has to do next. Whoever stops taking steps half-way leaves the
connection marked, and no other operation will use it. What the server sends of its own accord is
handed out by the step that meets it, where a handler is set.
