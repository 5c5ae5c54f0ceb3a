# xiyi compiler core, verified

The middle of the xiyi compiler, written in Verus: every function in `src/`
carries a `requires`/`ensures` contract and is proved against it.

## Layout

- `src/ast.rs` — the syntax tree, with mathematical models (`@`) of types,
  privacy tags and shape dimensions.
- `src/text.rs` — character-level helpers (comparison, trimming, decimal
  text, sorted sets of names).
- `src/show.rs` — the text that error messages give of types and
  patterns, written out and proved character by character.
- `src/semantic/` — the type checker: rational budgets, privacy labels and
  their join, generic unification and substitution, symbol lookup,
  compile-time constants, binary operator typing, and the walk over
  expressions (`walk.rs`, `walk_tensor.rs`), which checks each expression
  kind against the checker's tables of structs, enums, functions and
  methods: literals giving way to a declared numeric type, an annotation
  presetting the generic arguments of a construction, a qualified call
  falling back to a type's methods, the tensor operators' shapes, closures
  and whole functions. Its contracts rest on `walk_spec.rs`, a typing
  relation over the models. The block, `match`, method-call,
  qualified-call and cross-model passes are taken as their results
  (`Passes`, by expression number), so the walk is proved for every value
  they give.
- `src/intrinsic.rs` — the built-in functions and constants and their
  tables.
- `src/calc.rs` — constant folding of integer and boolean operators.
- `src/hir.rs`, `src/hir_builder.rs` — the HIR and its construction from the
  syntax tree, node for node.
- `src/elaborate.rs` — expansion of `for` loops and `try` (`?`), nested
  ones included, so that none is left at any depth; it fails exactly when
  a function that returns neither `Result` nor `Option` uses `try`.
- `src/mir.rs`, `src/mir_builder.rs` — the MIR and lowering of the HIR to
  it: lowering succeeds exactly when every variable is in scope where it is
  used, every call and `match` is one it accepts and no `break`, `for`,
  closure or bare range is left; every lowered body is well formed, in
  static single assignment form, and returns the value of its last
  expression (a body of a `never` function ends in `Unreachable`).
- `src/driver.rs` — assembling a program from the standard library's
  modules and the user's file.
- `app/main.rs` — the command-line driver: arguments, files, and the
  floating-point folding that the library leaves to the machine.
- `tests/` — tests of the library on concrete inputs.
