# monowiki (verified core)

The core of monowiki's document language (MRL) and runtime, written in Verus
with contracts that Verus proves.

- `src/mrl/`: the lexer, parser, enforester, type checker, hygiene, content
  model, show/set rules, the expander and the interpreter that runs a
  document, the debugging text of expand-time values, and the document
  reader for mixed prose and code.
- `src/runtime/`: capabilities and the runtime host, signals, the dataspace,
  diagnostics, HTML escaping, the WASM emitter and the live-cell code
  generator, kernels and UI widgets.
- `src/render/`, `src/ids.rs`: template helpers and identifiers.
- `src/util/`: string maps, text helpers, UTF-8 offsets and float bits.
- `app/`: ordinary Rust around the library: the expression interpreter over
  floating-point values, and the serde and preserves forms of the dataspace
  messages. The engine that runs compiled cells in a WebAssembly runtime and
  the subscription patterns of the message bus are not part of this crate.
- `tests/`: tests of the library.
