# Nether type checker

A verified type checker for Nether, a statically typed language with shared
(`T`) and uniquely owned (`:T`) values, references, traits, generics,
existentials, tasks and threads, together with the rules of its runtime.

- `src/` is the library. `check` types a module and reports its errors; its
  contract states the exact tables and errors. `src/check/laws.rs`,
  `members.rs`, `defaults.rs` and `ownership.rs` state what follows: after a
  check without errors every expression has a recorded type, errors only add
  up, a moved value cannot be used again. `src/origin_laws.rs` does so for the
  parameters that a returned reference may come from, whatever the order of
  declaration. `src/runtime/` decides on reference counts, layouts, strings,
  timers and joins.
- `app/` is the runtime that compiled programs link against. It owns memory,
  the clock, threads and output, and asks the library what to do.
- `tests/` runs the library: `check_tests.rs` on programs in source form,
  `law_tests.rs` and `runtime_tests.rs` on given values.

Two calls into the standard library are trusted: whether a character is upper
case, and whether bytes are UTF-8.
