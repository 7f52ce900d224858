use lib::narrowing::{narrow_type_for_identifier, parse_typeof_condition, strip_boolean_literal_comparison};
use lib::symbols::SymbolTable;
use lib::syntax::{BinaryOperator, Expr, LogicalOperator, UnaryOperator};
use lib::types::{union_of, Type};

fn ident(name: &str) -> Expr {
    Expr::Identifier(name.to_string())
}

fn binary(left: Expr, operator: BinaryOperator, right: Expr) -> Expr {
    Expr::Binary { left: Box::new(left), operator, right: Box::new(right) }
}

fn logical(left: Expr, operator: LogicalOperator, right: Expr) -> Expr {
    Expr::Logical { left: Box::new(left), operator, right: Box::new(right) }
}

fn not(e: Expr) -> Expr {
    Expr::Unary { operator: UnaryOperator::Not, operand: Box::new(e) }
}

fn typeof_is(name: &str, tag: &str) -> Expr {
    binary(
        Expr::Unary { operator: UnaryOperator::Typeof, operand: Box::new(ident(name)) },
        BinaryOperator::StrictEquals,
        Expr::StringLiteral(tag.to_string()),
    )
}

fn subject() -> Type {
    union_of(vec![Type::String, Type::Number, Type::Undefined])
}

fn narrow(condition: &Expr, branch: bool) -> Option<Type> {
    narrow_type_for_identifier(condition, "x", &subject(), branch, &SymbolTable { entries: Vec::new(), narrowed: Vec::new() })
}

#[test]
fn a_typeof_guard_narrows_both_branches() {
    let c = typeof_is("x", "string");
    assert_eq!(narrow(&c, true), Some(Type::String));
    assert_eq!(narrow(&c, false), Some(union_of(vec![Type::Number, Type::Undefined])));
}

#[test]
fn negation_swaps_the_branches() {
    let c = not(typeof_is("x", "string"));
    assert_eq!(narrow(&c, true), Some(union_of(vec![Type::Number, Type::Undefined])));
    assert_eq!(narrow(&not(c), true), Some(Type::String));
}

#[test]
fn a_disjunction_holds_where_either_guard_does() {
    let c = logical(typeof_is("x", "string"), LogicalOperator::Or, typeof_is("x", "number"));
    assert_eq!(narrow(&c, true), Some(union_of(vec![Type::String, Type::Number])));
    assert_eq!(narrow(&c, false), Some(Type::Undefined));
}

#[test]
fn a_conjunction_narrows_by_each_guard_in_turn() {
    let defined = binary(ident("x"), BinaryOperator::StrictNotEquals, Expr::UndefinedLiteral);
    let c = logical(defined, LogicalOperator::And, typeof_is("x", "string"));
    assert_eq!(narrow(&c, true), Some(Type::String));
    assert_eq!(narrow(&c, false), Some(union_of(vec![Type::Undefined, Type::Number])));
}

#[test]
fn a_guard_compared_with_false_is_negated() {
    let c = binary(
        Expr::PropertyCall {
            type_argument_count: 0,
            object: Box::new(ident("Array")),
            property_name: "isArray".to_string(),
            arguments: vec![ident("x")],
        },
        BinaryOperator::StrictEquals,
        Expr::BooleanLiteral(false),
    );
    let (inner, flip) = strip_boolean_literal_comparison(&c).unwrap();
    assert!(flip);
    assert!(matches!(inner, Expr::PropertyCall { .. }));
    // No member can be an array, so the guard narrows nothing in its false branch
    // and `Array.isArray(x) === false` holds of every member.
    assert_eq!(narrow(&c, true), None);
    let xs = union_of(vec![Type::String, Type::Array(Box::new(Type::Number))]);
    let narrowed = narrow_type_for_identifier(&c, "x", &xs, true, &SymbolTable { entries: Vec::new(), narrowed: Vec::new() });
    assert_eq!(narrowed, Some(Type::String));
}

#[test]
fn guards_on_other_bindings_narrow_nothing() {
    assert_eq!(narrow(&typeof_is("y", "string"), true), None);
    assert_eq!(narrow(&ident("x"), true), None);
}

#[test]
fn typeof_conditions_parse_either_side() {
    let c = binary(
        Expr::StringLiteral("number".to_string()),
        BinaryOperator::NotEquals,
        Expr::Unary { operator: UnaryOperator::Typeof, operand: Box::new(ident("v")) },
    );
    let (operand, tag, eq) = parse_typeof_condition(&c).unwrap();
    assert!(matches!(operand, Expr::Identifier(n) if n == "v"));
    assert_eq!(tag, "number");
    assert!(!eq);
}
