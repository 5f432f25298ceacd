# flow_raft

The verified core of FlowRaft, a replicated workflow engine on Raft.

`src/` holds the logic, with its contracts and proofs:

- `text`, `ids`, `json`: strings, UUID identifiers and JSON documents.
- `workflow`, `command`, `state_machine`: the replicated workflow state, the
  commands written to the Raft log, and the state machine that applies them,
  builds snapshots and installs them.
- `execution`: the decisions of the execution loop (which ready tasks run,
  conditional branches, skipped tasks, completion, task inputs, routing).
- `registry`, `router`: handlers, merge specifications and conditional edges
  per workflow; routing tasks to other nodes.
- `transport`, `memory`: the TCP transport's framing and the in-memory
  transport's table of nodes.
- `service`, `cluster`, `node`, `serve`, `builder`: the gRPC service's
  decisions and status records, cluster status, node and serve
  configuration, the command line's values, and application building.

`app/` holds what Verus does not see: JSON text through `serde_json`, the
command line through `clap`, the TCP sockets through `tokio`, and the
execution loop that drives the library's decisions.
