# waxum

The in-memory state of a WhatsApp gateway, as a library whose behaviour is stated in contracts and
proved by Verus.

- `src/state.rs` holds the shared state: sessions, webhooks and their circuits, dead letters, recent
  events, tags and cached voices. `AppView` is what its contracts speak of.
- `src/session.rs` is the state of one session.
- `src/delivery.rs` decides what follows an attempt to deliver a webhook; `src/signing.rs` builds the
  headers of an attempt.
- `src/circuits.rs`, `src/registry.rs`, `src/events.rs` and `src/tags.rs` are the parts of the shared
  state; `src/table.rs` and `src/text_set.rs` are the containers below them.
- `src/metrics.rs` answers a scrape; `src/families.rs` is the boundary to `prometheus`.
- `src/config.rs` reads the settings, `src/clock.rs` the clocks, `src/text.rs` works on strings.
- `src/laws/` states what holds across several operations.
- `app/` is the gateway around the library: the environment, files, HTTP, tasks and channels.

Functions that read a clock have a sibling with `_at` in its name that takes the time.
