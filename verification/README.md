# hiroz

The core of a ROS 2 client library over Zenoh, written in Rust and verified with
Verus: what the library decides and computes stands in `src/` with contracts that
Verus proves, and what touches the network, the disk, threads and the user's
callbacks stands around it in `app/`.

- `src/dynamic/` - messages whose type is known only at run time: schemas, values,
  validation, the CDR encoding and its inverse, schema loading and type names.
- `src/action/` - action servers: goals, cancellation, results, expiry, and laws
  about them.
- `src/pubsub/`, `src/local_bus.rs`, `src/queue.rs`, `src/common.rs` - publishers
  and subscribers, the routes that a message takes, and delivery inside a process.
- `src/event.rs`, `src/entity.rs` - events of the ROS graph.
- `src/topic_name.rs`, `src/qos.rs`, `src/protocol.rs`, `src/time.rs`,
  `src/error.rs` - names, qualities of service, times and errors.
- `src/payload_pool.rs` - payloads that are used again.
- `src/reentrancy.rs` - the rule that no user callback runs under a lock.
- `src/rmw/` - what the ROS middleware interface does beyond its C signatures.
- `src/text.rs`, `src/shared.rs` - helpers.

Where a step needs outside work, a function says what is to be done, and another
takes back what came of it; `app/` does the work in between.

Outside functions that the library calls are wrapped; each wrapper says above it
what is claimed of the function it calls.
