# escalon

A cluster of peer nodes that watch each other over UDP heartbeats. When a
node goes silent, the others forget it and share out its jobs: each node,
from the least loaded up, is offered enough of them to reach the average
load of the cluster. A node that holds clearly more than the average hands
its excess out the same way.

- `src/` is the library, verified with Verus: the client table, the
  messages and their handling, spotting silent nodes, and the sharing out
  of jobs (`plan.rs` and `implementations/aux.rs`), with the properties that
  hold across calls in `laws.rs`.
- `app/` runs a node: the socket, the JSON encoding of messages, the clock,
  the application that holds the jobs (`EscalonTrait`, which takes over the
  jobs the library hands to the node itself), and the timed loops that call
  the library.
- `tests/` exercises the library on concrete values.
