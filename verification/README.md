# sarah

A Swift-to-Rust transpiler core whose logic is proved with Verus.

- `src/` is the verified library:
  - `text.rs`: character-level string functions and their mathematical models;
  - `types.rs`: the Swift-to-Rust type mapping (primitives, arrays, dictionaries);
  - `parser.rs`: the line-oriented Swift parser and the `SwiftFile` IR;
  - `classify.rs`: Core/Shell classification with sync and async tiers;
  - `codegen.rs`: Tier 1 and Tier 2 lowering to Rust source;
  - `drop_gen.rs`: `deinit` to `impl Drop` lowering;
  - `diagnostics.rs`: the structured diagnostic type and exit codes;
  - `counter.rs`, `errors.rs`: the checked counter exported to Swift.

  Each public function states its result exactly over spec functions on
  `Seq<char>`; the proof functions named `law_*` state properties that span
  calls or hold of every output.
- `tests/` runs the library on concrete inputs.
- `app/` is the command-line program (file I/O, argument parsing, JSON and
  coloured terminal output) and the shared counter object for foreign callers.
