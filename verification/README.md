# gossip_glomers

Nodes for the Maelstrom distributed-systems workbench, with their logic
verified by Verus.

- `src/maelstrom/`: the protocol core. `error` holds the protocol's errors
  and their codes; `message` the messages, their metadata and replies;
  `runtime` an initialized node and the calls that wait for a reply;
  `handler` the trait that a workload implements; `mod.rs` the node
  identifiers and `Serve`, which decides what a node does with each incoming
  message.
- `src/echo.rs`, `src/broadcast.rs`, `src/uniq_ids.rs`: the workloads.
- `app/`: the executable. It reads JSON lines from standard input, converts
  them with serde, hands them to `Serve::process`, and writes the answers
  back as JSON lines. Run it as `gossip-glomers echo`, `broadcast` or
  `uniq-ids`.
- `tests/`: tests of the library on concrete messages.
