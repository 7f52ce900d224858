use lib::truthy::{
    collect_and_chain_truthy_targets, collect_truthy_guarded_identifiers, keep_possibly_falsy,
    narrow_truthy_guarded_property, remove_definitely_falsy, TruthyGuardTarget,
};
use lib::syntax::{Expr, LogicalOperator, UnaryOperator};
use lib::types::{union_of, ObjectProperty, ObjectType, Type, TypeReference};

fn ident(name: &str) -> Expr {
    Expr::Identifier(name.to_string())
}

fn member(object: Expr, property: &str) -> Expr {
    Expr::PropertyAccess { object: Box::new(object), property_name: property.to_string() }
}

fn logical(left: Expr, operator: LogicalOperator, right: Expr) -> Expr {
    Expr::Logical { left: Box::new(left), operator, right: Box::new(right) }
}

fn not(e: Expr) -> Expr {
    Expr::Unary { operator: UnaryOperator::Not, operand: Box::new(e) }
}

fn object(properties: Vec<(&str, Type, bool)>) -> Type {
    Type::Object(ObjectType {
        properties: properties
            .into_iter()
            .map(|(name, ty, optional)| ObjectProperty {
                name: name.to_string(),
                ty,
                optional,
                readonly: true,
                method: false,
            })
            .collect(),
        string_index: None,
        callable: false,
        alias_name: None,
        synthetic_open_index: false,
    })
}

fn identifier_names(targets: &[TruthyGuardTarget]) -> Vec<String> {
    targets
        .iter()
        .map(|t| match t {
            TruthyGuardTarget::Identifier(n) => n.clone(),
            TruthyGuardTarget::Property { base, property } => format!("{base}.{property}"),
        })
        .collect()
}

#[test]
fn falsy_part_of_types() {
    assert_eq!(keep_possibly_falsy(&Type::Boolean), Type::BooleanLiteral(false));
    assert_eq!(keep_possibly_falsy(&Type::Array(Box::new(Type::Number))), Type::Never);
    assert_eq!(
        keep_possibly_falsy(&union_of(vec![Type::String, Type::Function, Type::Null])),
        union_of(vec![Type::String, Type::Null])
    );
    assert_eq!(keep_possibly_falsy(&Type::Any), Type::Any);
    assert_eq!(keep_possibly_falsy(&Type::NumberLiteral("0".to_string())), Type::NumberLiteral("0".to_string()));
    assert_eq!(keep_possibly_falsy(&Type::StringLiteral("x".to_string())), Type::Never);
}

#[test]
fn truthy_part_of_types() {
    let union = union_of(vec![
        Type::BooleanLiteral(false),
        Type::StringLiteral(String::new()),
        Type::Number,
        Type::Undefined,
    ]);
    assert_eq!(remove_definitely_falsy(&union), Type::Number);
    assert_eq!(remove_definitely_falsy(&Type::Null), Type::Never);
    assert_eq!(remove_definitely_falsy(&Type::String), Type::String);
}

#[test]
fn a_truthy_property_is_required_and_not_falsy() {
    let o = object(vec![("p", union_of(vec![Type::String, Type::Undefined]), true), ("q", Type::Number, false)]);
    let narrowed = narrow_truthy_guarded_property(&union_of(vec![o, Type::Null]), "p");
    assert_eq!(narrowed, object(vec![("p", Type::String, false), ("q", Type::Number, false)]));
}

#[test]
fn a_truthy_property_narrows_each_union_member() {
    let a = object(vec![("p", union_of(vec![Type::BooleanLiteral(false), Type::Number]), false)]);
    let b = object(vec![("q", Type::Number, false)]);
    let named = Type::Reference(TypeReference {
        id: "t.ts\u{0}U".to_string(),
        display: "U".to_string(),
        target: Box::new(union_of(vec![a, b])),
        enum_owner: false,
        readonly_array: false,
    });
    let narrowed = narrow_truthy_guarded_property(&named, "p");
    assert_eq!(
        narrowed,
        union_of(vec![
            object(vec![("p", Type::Number, false)]),
            object(vec![("q", Type::Number, false)]),
        ])
    );
    assert_eq!(narrow_truthy_guarded_property(&Type::Undefined, "p"), Type::Never);
}

#[test]
fn and_chains_prove_their_operands_truthy() {
    let condition = logical(
        logical(ident("a"), LogicalOperator::And, member(ident("b"), "c")),
        LogicalOperator::And,
        logical(ident("a"), LogicalOperator::Or, ident("d")),
    );
    let mut targets = Vec::new();
    collect_and_chain_truthy_targets(&condition, &mut targets);
    assert_eq!(identifier_names(&targets), vec!["a".to_string(), "b.c".to_string()]);
}

#[test]
fn or_chains_of_negations_guard_each_operand() {
    let condition = logical(not(ident("a")), LogicalOperator::Or, not(member(ident("b"), "c")));
    let mut targets = Vec::new();
    collect_truthy_guarded_identifiers(&condition, &mut targets);
    assert_eq!(identifier_names(&targets), vec!["a".to_string(), "b.c".to_string()]);
}
