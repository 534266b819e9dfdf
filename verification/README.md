# meerkat_lib

The static name resolution pass of the Meerkat language runtime, written in
Verus and proved against a specification of what resolution means.

- `src/runtime/ast.rs`: syntax trees (statements, declarations, action
  statements, expressions, values).
- `src/runtime/env.rs`: lexical scopes, viewed as the set of bound names.
- `src/runtime/nameres/mod.rs`: the resolver and the spec functions that
  define the outcome of resolving every kind of node; every resolving
  function states its result exactly, and that it leaves the nesting depth
  as it found it.
- `src/runtime/nameres/properties.rs`: laws of resolution proved for every
  program: composition of sequences, order independence of service
  declarations, weakening, soundness of the reported unbound name,
  isolation of scopes, and the depth limit.
- `src/runtime/html.rs`: HTML values as an abstract type, and templates.
- `src/runtime/interner.rs`, `src/runtime/limits.rs`, `src/net.rs`,
  `src/runtime/tt/`: symbols, limits, service identities and types.
