//! Rules of a TypeScript checker, verified with Verus: type-guard narrowing,
//! how declarations widen, what operators make of their operands, JSX props
//! and namespaces, and which declarations go unused or implicitly `any`.

pub mod aliases;
pub mod body;
pub mod condition_tables;
pub mod context;
pub mod element_reference;
pub mod guard_bindings;
pub mod guards;
pub mod implicit_any;
pub mod initializer;
pub mod jsx;
pub mod jsx_props;
pub mod laws;
pub mod narrowing;
pub mod ops;
pub mod parameters;
pub mod predicate;
pub mod reference;
pub mod reference_guard;
pub mod reference_guards;
pub mod signature;
pub mod structural_walk;
pub mod symbols;
pub mod syntax;
pub mod table_narrowing;
pub mod text;
pub mod truthiness;
pub mod truthy;
pub mod truthy_tables;
pub mod types;
pub mod unused;
pub mod widening;
