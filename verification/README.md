# runtime_trail

The core of a local observability runtime, verified with Verus: budgeted,
deterministic queries over resident telemetry, and the decisions of the server
around them.

- `src/` is the library. A function says what it returns or changes in a contract
  of its own or of the trait that it implements; of a store's statistics and name
  nothing is said. `src/laws.rs` holds the laws of pages and their continuations;
  the laws of the budgets, the clock and the counters stand beside them.
  `src/lib.rs` says what each module is for and what is taken without proof.
- `tests/` runs the library.
- `app/` is the server: arguments, sockets and threads around the library. The
  admission pipeline, the store and the investigation flow are drivers behind
  the traits of `app/drivers.rs`; a build without drivers serves its health and
  version, decodes nothing and holds nothing.
