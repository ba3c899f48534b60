# errortools

Rendering strategies for errors and their source chains, context-tagged
errors, and aggregates of many errors rendered as trees, lists or single
lines — with every strategy proved against a mathematical statement of the
text it writes.

## Layout

- `src/` — the library, checked by Verus.
  - `lib.rs`: the `DisplayText`, `ErrorSource` and `Format` traits, the
    `chain` walk, `Formatted`, `FormatError`, `AsDisplay`.
  - `text.rs`: joining, repetition, re-indentation and decimal numbers, as
    spec functions and as the writers proved against them.
  - `dyn_error.rs`: `DynError`, an error as a value (message, hint, source).
  - `oneline.rs`, `chain.rs`, `tree.rs`, `suggestion.rs`: the per-error
    strategies; `add/` combines strategies, `connectors.rs` holds the glyphs.
  - `with_context/`: `WithContext`, a context paired with an error, and the
    strategies that render the pair.
  - `many_errors/`: `ManyErrors`, its nodes, operations (`+=`, merging,
    collecting), shape-preserving rebuilds, and the aggregate shapes under
    `strategy/` (`Tree`, `List`, `Bullets`, `Joined`, `Inline`, `Listing`).
  - `main_result.rs`: `MainResult` and `DisplaySwapDebug`.
  - `laws.rs`: properties of the library as a whole, as proof functions.
- `tests/` — the test suite, plain Rust.
- `app/` — std-facing glue: converting `std::error::Error` values into
  `DynError`, `Display`/`Debug` for rendered values, a `MainResult` over any
  std error.

Text is modelled as `Seq<char>`; every writer appends to a `String` and states
exactly what it appended.
