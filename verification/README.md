# lib

Rules of a TypeScript checker, written in Verus and verified: each public
function states in its contract what it returns, over a mathematical view of
the checker's types and expressions.

## Layout

- `src/types.rs`, `src/syntax.rs`, `src/symbols.rs`, `src/context.rs`: the
  model the rules read (types and their views, guard expressions, bindings in
  scope, the file being checked).
- `src/narrowing.rs`, `src/guards/`, `src/truthy.rs`, `src/reference_guard.rs`,
  `src/table_narrowing.rs`, `src/condition_tables.rs`, `src/truthy_tables.rs`,
  `src/reference_guards.rs`,
  `src/guard_bindings.rs`, `src/element_reference.rs`, `src/aliases.rs`:
  type-guard narrowing, from one guard up to `&&`/`||`/`!` compositions, and
  which guards an aliased condition keeps.
- `src/widening.rs`, `src/initializer.rs`: how a declaration's inferred type
  widens, and the conflicts a variable declaration reports.
- `src/jsx.rs`, `src/jsx_props.rs`: the JSX namespace a file reads and what a
  JSX element's props are read for.
- `src/parameters.rs`, `src/body.rs`, `src/unused.rs`, `src/implicit_any.rs`,
  `src/signature.rs`, `src/predicate.rs`: declarations, their signatures, and
  the unused and implicitly-`any` reports.
- `src/ops.rs`: what conditional and arithmetic operators make of their
  operands, and what they report.
- `src/structural_walk.rs`, `src/reference.rs`, `src/text.rs`: smaller
  pieces.
- `src/laws.rs`: properties that span several functions, proved as lemmas.
- `tests/`: tests on concrete values.
- `app/`: what stays outside the verified library (truthiness of number
  literals, which reads their floating-point value, and the table narrowing
  that feeds it to the library; the environment switch for tsc's
  implicit-`any` rule).
