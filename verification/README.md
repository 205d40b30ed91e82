# elara_kv_component

A verified library for a blockchain key-value websocket gateway and its
HTTP/websocket proxy, written in Verus.

- `src/` is the library, verified by Verus: JSON-RPC request handling,
  storage subscriptions and their ids, the routing and subscription
  tables, the notifications of storage changes, the relay and proxy
  decisions, and the reports of proxied requests. The calls into
  `serde_json`, `jsonrpc_core`, `rdkafka` and `String::push` stand behind
  small trusted wrappers in `src/rpc.rs`, `src/relay.rs` and
  `src/text.rs`, marked `external_body`: Verus believes their contracts
  without proof, and each is documented with what it claims.
- `tests/` runs the library on concrete values.
- `app/` is the program around it: configuration files, logging, the
  actix HTTP proxy, the websocket relay, Kafka producer and consumer, and
  the key-value websocket server (`--kv <config>`).
