use lib::body::{single_returned_statement_expression, BodyStatement};
use lib::predicate::{class_reference_name, parse_this_predicate_call, predicate_partitions};
use lib::syntax::Expr;
use lib::types::Type;

fn lit(s: &str) -> Type {
    Type::StringLiteral(s.to_string())
}

#[test]
fn class_reference_names() {
    let path = Expr::PropertyAccess {
        object: Box::new(Expr::PropertyAccess {
            object: Box::new(Expr::Identifier("SQL".to_string())),
            property_name: "inner".to_string(),
        }),
        property_name: "Aliased".to_string(),
    };
    assert_eq!(class_reference_name(&path), Some("SQL.inner.Aliased".to_string()));
    assert_eq!(class_reference_name(&Expr::Identifier("C".to_string())), Some("C".to_string()));
    let call = Expr::Call { callee_name: "f".to_string(), type_argument_count: 0, arguments: vec![] };
    assert_eq!(class_reference_name(&call), None);
    assert_eq!(class_reference_name(&Expr::This), None);
}

#[test]
fn partitions_of_a_union() {
    let declared = Type::Union(vec![lit("a"), lit("b"), lit("c")]);
    let a = Type::Union(vec![lit("c"), lit("a")]);
    assert!(predicate_partitions(&declared, &a, &lit("b")));
    assert!(!predicate_partitions(&declared, &a, &Type::Never));
    assert!(!predicate_partitions(&declared, &a, &lit("d")));
    assert!(predicate_partitions(&declared, &declared, &Type::Never));
    assert!(!predicate_partitions(&declared, &a, &Type::Union(vec![lit("b"), lit("a")])));
    assert!(predicate_partitions(&Type::String, &Type::String, &Type::Never));
}

#[test]
fn the_single_returned_expression() {
    let returned = Expr::Identifier("x".to_string());
    let body = vec![
        BodyStatement::Expression,
        BodyStatement::Expression,
        BodyStatement::Return { expression: Some(returned) },
    ];
    assert!(matches!(single_returned_statement_expression(&body), Some(Expr::Identifier(n)) if n == "x"));
    let branching = vec![BodyStatement::Other, BodyStatement::Return { expression: Some(Expr::This) }];
    assert!(single_returned_statement_expression(&branching).is_none());
    let bare = vec![BodyStatement::Return { expression: None }];
    assert!(single_returned_statement_expression(&bare).is_none());
    let no_return = vec![BodyStatement::Expression];
    assert!(single_returned_statement_expression(&no_return).is_none());
    assert!(single_returned_statement_expression(&vec![]).is_none());
}

#[test]
fn this_predicate_calls() {
    let receiver = Expr::PropertyAccess { object: Box::new(Expr::Identifier("node".to_string())), property_name: "type".to_string() };
    let call = Expr::PropertyCall {
        object: Box::new(receiver),
        property_name: "isUnion".to_string(),
        type_argument_count: 0,
        arguments: vec![],
    };
    assert_eq!(
        parse_this_predicate_call(&call),
        Some(("node".to_string(), vec!["type".to_string()], "isUnion"))
    );
    let with_argument = Expr::PropertyCall {
        object: Box::new(Expr::Identifier("t".to_string())),
        property_name: "is".to_string(),
        type_argument_count: 0,
        arguments: vec![Expr::Identifier("x".to_string())],
    };
    assert_eq!(parse_this_predicate_call(&with_argument), None);
    let generic = Expr::PropertyCall {
        object: Box::new(Expr::This),
        property_name: "isA".to_string(),
        type_argument_count: 1,
        arguments: vec![],
    };
    assert_eq!(parse_this_predicate_call(&generic), None);
    let on_call = Expr::PropertyCall {
        object: Box::new(Expr::Call { callee_name: "f".to_string(), type_argument_count: 0, arguments: vec![] }),
        property_name: "isA".to_string(),
        type_argument_count: 0,
        arguments: vec![],
    };
    assert_eq!(parse_this_predicate_call(&on_call), None);
}
