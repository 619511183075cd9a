# invoker

An interactive invoker for Rust code: it compiles a Rust source file into a
C-compatible dynamic library, reads from the compiler which functions and
statics the library exports (and their primitive signatures), opens the
library, and calls its functions with arguments typed at a prompt.

Layout:

- `src/` — the verified library.
  - `any.rs`: the `Any` value/type-tag enum and its conversions.
  - `text.rs`: whitespace, word splitting, trimming, decimal integer parsing.
  - `symbols.rs`: `SymbolMap`, a name-to-value map.
  - `compiler.rs`: a model of the compiler's view of crate items, and the rules
    that decide which items are exported and what is recorded for them.
  - `invoker.rs`: the session state and its load / call / unload decisions.
  - `command.rs`: the prompt's command language.
  - `samples.rs`: the functions of the sample library.
- `app/` — the program: the prompt, the compiler front end, opening libraries
  and making foreign calls.
- `tests/` — tests of the library.
