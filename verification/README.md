# Pulse

The decision logic of a node that offers load to gRPC services, written in Verus: every
function of the library states what it returns and is proved to do so.

A node schedules scenarios, hands their slices to workers through Kafka, coordinates
with other nodes through Redis, calls services that are known by protobuf descriptors
only, and publishes what it measured.

## Layout

- `src/config` — settings: reading them, and the rules that they keep together.
- `src/kafka` — client settings, topics, evidence of records that cannot be processed,
  dead letters, and the fence around offset commits.
- `src/leader.rs`, `src/dispatch.rs`, `src/execution.rs`, `src/aggregation.rs` — what is
  asked of Redis and what its answers mean; `src/operations.rs` — what each operation
  comes to, however its exchange ends; `src/coordination_scripts.rs` and
  `src/aggregation_scripts.rs` — the programs that run inside Redis.
- `src/snapshot.rs`, `src/quantile.rs` — the summary of a run from its stored fields.
- `src/grpc` — schemas from descriptors, encoding of requests and decoding of responses.
- `src/health.rs`, `src/metrics.rs` — readiness and measurements.
- `src/runtime` — limits of scenarios, plans, start and supervision.
- `tests` — tests of the library.
- `app` — the program around the library: environment, files, sockets, clients and
  loops. The binary checks settings and scenarios and prints dry runs; the parts that
  schedule and run work are given to `node::run`.

## What is proved, and what is trusted

Contracts speak of mathematical models: texts are sequences of characters, spans are
nanoseconds, rates are the bits of doubles. Calls into other crates stand in small
functions marked `external_body`, each with a comment that says what is claimed of the
call. What the programs inside Redis do is not modelled; the library states exactly what
it hands to them and what it makes of every answer.
