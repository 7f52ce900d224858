//! Per-guard-kind leaf narrowing: recognizing a guard condition and narrowing
//! a type at the type level.

pub mod arrayness;
pub mod discriminant;
pub mod equality;
pub mod instanceof;
pub mod literal_equality;
pub mod nullish;
pub mod property_presence;
pub mod typeof_guard;
