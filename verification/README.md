# wash_messaging

Messaging, telemetry and logging for hosted guest workloads, verified with Verus.

- `src/` is the library. Every function in it is proved against its contract, but for the small
  wrappers around outside crates and std, marked `#[verifier::external_body]`: what they promise is
  believed, and the comment above each says what that is.
  - `messaging/` routes messages: subjects and subscriptions, the broker within the host
    (`in_memory/`), consumer groups and headers for NATS, and what spans record of it all.
  - `nats/` reads and writes trace contexts in NATS headers and counts deliveries that are under
    way.
  - `otel/` checks and converts the spans, metrics and logs that guests hand in, and queues them for
    export.
  - `logging.rs`, `http_api.rs` and `guest_trace.rs` hold the rules of guest logging, of a guest
    that turns HTTP requests into tasks, and of which span a guest task runs under.
  - `propagation.rs`, `wit.rs`, `tracker.rs`, `table.rs` and `text.rs` are what these rest on.
- `app/` runs it: connections, timers, tasks, exporters and `tracing` spans. What it does next, and
  what it makes of what comes back, the library says.
- `tests/` runs the library on concrete values, with the real outside crates.

Functions named `law_...` state what holds across several operations, for example that a request
gets its reply, that a message stays in its workload, and that a trace context survives the trip
through headers or through a guest.
