# vrust

A static analyser for Solana programs, verified with Verus. It walks the
mid-level IR of a program from its entry point and reports integer
overflow on values from outside the program, rounding, bump seeds that
come from outside, unchecked staking validators, unchecked instruction
ids, unchecked program ids (for old `spl-token` versions) and type
confusion between structs with compatible layouts.

## Layout

- `src/` — the verified library.
  - `mir.rs`: the program as plain data (definitions, types, bodies,
    spans), which the analyses read.
  - `wpa.rs`: the state machine and the whole-program walk shared by the
    checkers; `walk.rs`: that walk as a relation between values, which
    the walk's functions are proved to follow; `checkers/`: one state per
    analysis.
  - `dd.rs`, `callgraph.rs`: data-source graphs of a body (petgraph).
  - `visit.rs`, `assertions.rs`, `accounts.rs`: body visits, signer and
    ownership checks, Anchor accounts.
  - `ty_confusion.rs`: grouping of structs by layout and the type
    confusion report.
  - `reporter.rs`: the report, its findings and call stack filter.
  - `version.rs`: versions of dependencies from lock files.
- `app/` — the compiler driver: it runs rustc, turns its MIR into the
  library's model, reads the lock files and writes `report.json`.
- `tests/` — tests of the library on small hand-built programs.
