# tokio_events

A type-safe event bus whose decision logic is verified with Verus.

- `src/` is the verified library: the topic trie, the subscription registry, event
  metadata and envelopes, retry and dead-letter rules, the persistent dispatcher's
  storage, acknowledgement and replay decisions, configuration presets, and the laws
  that relate these operations (`src/laws.rs`). Calls into `uuid`, `chrono`,
  `num_cpus`, `fxhash`, `serde_json` and `dashmap` go through the trusted items in
  `src/foreign.rs`, each with a contract stating what the outside crate promises.
- `app/` is the asynchronous runtime around it: tokio tasks and channels, the redb
  store, the NATS transport, handler traits and the `EventBus` itself. It calls the
  library for every decision and tests each `requires` before a call.
- `tests/` exercises the library on concrete values.

## Retry timing

A failed handler is retried up to `max_retries` times. The wait before retry `k`
(counting from 1) is `retry_backoff * 2^(k-1)`: the configured backoff is the base of an
exponential backoff, as the subscription manager documents and does. The configuration
builder's wording of a "fixed" backoff describes only the first wait. `RetryPolicy` in
`src/subscription.rs` states this, and `law_backoff_doubles` in `src/laws.rs` proves
that each wait is twice the one before.

## Units

Durations and instants are whole milliseconds (`u64` and `i64`), since the retry,
delay and scheduling arithmetic is proved over integers; a sub-millisecond `Duration`
given to `app/` is rounded down.
