# shotover (verified core)

Verus-verified logic of shotover's Kafka test helpers, its Redis source configuration and
its shotover peer health check.

- `src/expected_response.rs`: records expected from a consumer, the equality under which a
  missing offset is a wildcard, and the field-by-field check of one consumed record.
- `src/any_order.rs`: matching consumed records with expected ones in any order, with its
  soundness and (without wildcards) completeness proved.
- `src/commit_offsets.rs`: checking committed consumer offsets, proved to be map equality.
- `src/connection.rs`, `src/consumer_config.rs`: driver choice, connection and consumer
  settings, and the clients and transaction calls made from them.
- `src/shotover_node.rs`: peer configuration and the round-robin peer health check.
- `src/kafka_types.rs`, `src/redis_source.rs`: plain data types.
- `app/`: sockets, tasks, serde and test assertions around the library.

The Kafka driver layer (the Java and C++ client implementations that produce, consume,
commit offsets, query committed offsets and run admin requests) is not part of this
crate. `connect_*` describe the client to connect; `begin_transaction`,
`commit_transaction` and `send_offsets_to_transaction` describe the call a driver is to
carry out. Nothing here carries those calls out, app/ included. Likewise the proxy's codec
listener is not here: app/'s Redis source takes the serving loop as a closure.
