# retour_utils

Helpers for declaring function detours: `LookupData` names where a target
lives (an offset or an exported symbol, in a named module or in the running
executable), and the `#[hook_module]` / `#[hook_impl]` attribute macros turn
`#[hook(...)]` functions and `#[ptr(...)]` constants into detour statics,
wrapper chains, pointer accessors and an `init_detours()` function.

Layout:

- `src/` — the verified library (Verus). Tokens are plain values
  (`tokens`); the attribute grammar (`attr`), signature lowering
  (`signature`), collection of hooked items (`collect`), and the plans of
  every generated item (`codegen`) carry full contracts; `expand` runs a
  macro end to end; `fold` is the lenient, fold-based expansion; `laws`
  states properties that span several functions.
- `app/` — the outside world: `syn`/`proc-macro2` tokens to and from the
  library's values, the generated code written with `quote`, crate-name
  resolution from the caller's manifest, module loading with `minidl`, and
  the runtime `Error` type.
- `tests/` — tests of the library on concrete values.
