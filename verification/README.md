# disco-foundation

The shared vocabulary of the Disco distributed-computing framework, written
in Verus: protocol versions and their negotiation, devices with heartbeat
liveness and a device registry, envelopes and message framing, a priority
task queue with in-flight tracking, a dead-letter queue, and task counters.

- `src/` is the verified library. Each public operation states its effect on
  a mathematical view (maps keyed by identifier, sets of capability names,
  sequences), and the `law_*` proof functions state properties that span
  operations (dequeue order, liveness degrading over time, frame round trip).
- `app/` holds what the library does not: serde/bincode wire forms, error
  types with `Display`, I/O traits, float-valued metrics, and the token-stream
  generators behind the procedural macros.
- `tests/` exercise the library on concrete values.
