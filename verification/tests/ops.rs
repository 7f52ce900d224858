use lib::ops::{
    base_primitive, binary_operator_text, evaluate_arithmetic_binary, evaluate_conditional_expression,
    inferred_type, is_bigint_like, is_boolean_like, is_known_non_unknown, is_number_like_for_arithmetic,
    is_unmodelled, is_valid_arithmetic_operand, maybe_bigint_like, report_operator_error,
    report_symbol_operand, suggested_boolean_operator, widen_literal_for_comparison, InferredExpression,
    OperatorReport,
};
use lib::syntax::{BinaryOperator, TextSpan};
use lib::types::{union_of, Type, TypeReference};

fn known(t: Type) -> InferredExpression {
    InferredExpression::Known(t)
}

fn result_type(r: InferredExpression) -> Option<Type> {
    match r {
        InferredExpression::Known(t) => Some(t),
        _ => None,
    }
}

#[test]
fn known_results() {
    assert!(is_known_non_unknown(&known(Type::String)));
    assert!(!is_known_non_unknown(&known(Type::Unknown)));
    assert!(!is_known_non_unknown(&known(Type::GenuineUnknown)));
    assert!(!is_known_non_unknown(&InferredExpression::Unknown));
    assert!(!is_known_non_unknown(&InferredExpression::UnresolvedIdentifier { name: "x".to_string() }));
    assert_eq!(inferred_type(&known(Type::Number)), Some(&Type::Number));
    assert_eq!(
        inferred_type(&InferredExpression::MissingProperty { object: "o".to_string(), property: "p".to_string() }),
        None
    );
}

#[test]
fn unmodelled_types_exclude_the_written_unknown() {
    assert!(is_unmodelled(&Type::Unknown));
    assert!(is_unmodelled(&Type::ErrorType));
    assert!(!is_unmodelled(&Type::GenuineUnknown));
    assert!(!is_unmodelled(&Type::String));
}

#[test]
fn conditional_expressions() {
    let same = evaluate_conditional_expression(known(Type::Boolean), known(Type::String), known(Type::String));
    assert_eq!(result_type(same), Some(Type::String));
    let union = evaluate_conditional_expression(known(Type::Boolean), known(Type::String), known(Type::Number));
    assert_eq!(result_type(union), Some(union_of(vec![Type::String, Type::Number])));
    let any = evaluate_conditional_expression(known(Type::Boolean), known(Type::Any), known(Type::Number));
    assert_eq!(result_type(any), Some(Type::Any));
    let unknown_condition = evaluate_conditional_expression(known(Type::Unknown), known(Type::Any), known(Type::Number));
    assert_eq!(result_type(unknown_condition), None);
    let unknown_branch = evaluate_conditional_expression(known(Type::Boolean), known(Type::GenuineUnknown), known(Type::Number));
    assert_eq!(result_type(unknown_branch), None);
    let missing = evaluate_conditional_expression(known(Type::Boolean), InferredExpression::Unknown, known(Type::Number));
    assert_eq!(result_type(missing), None);
}

fn span(start: u32) -> Option<TextSpan> {
    Some(TextSpan { start, end: start + 1 })
}

fn enum_member(name: &str, value: &str) -> Type {
    Type::Reference(TypeReference {
        id: format!("a.ts\u{0}E.{name}"),
        display: format!("E.{name}"),
        target: Box::new(Type::NumberLiteral(value.to_string())),
        enum_owner: true,
        readonly_array: false,
    })
}

#[test]
fn operator_texts() {
    assert_eq!(binary_operator_text(BinaryOperator::ShiftRightZeroFill), ">>>");
    assert_eq!(binary_operator_text(BinaryOperator::Exponential), "**");
    assert_eq!(binary_operator_text(BinaryOperator::StrictNotEquals), "==");
    assert_eq!(binary_operator_text(BinaryOperator::LessEquals), "<=");
    assert_eq!(binary_operator_text(BinaryOperator::Instanceof), "instanceof");
    assert_eq!(suggested_boolean_operator(BinaryOperator::BitwiseAnd), Some("&&"));
    assert_eq!(suggested_boolean_operator(BinaryOperator::BitwiseOr), Some("||"));
    assert_eq!(suggested_boolean_operator(BinaryOperator::BitwiseXor), Some("!=="));
    assert_eq!(suggested_boolean_operator(BinaryOperator::Multiply), None);
}

#[test]
fn operand_kinds() {
    let bools = union_of(vec![Type::BooleanLiteral(true), Type::Boolean]);
    assert!(is_boolean_like(&bools));
    assert!(!is_boolean_like(&union_of(vec![Type::Boolean, Type::Number])));
    assert!(is_bigint_like(&Type::Any));
    assert!(!is_bigint_like(&union_of(vec![Type::BigInt, Type::Number])));
    assert!(maybe_bigint_like(&union_of(vec![Type::BigInt, Type::Number])));
    assert!(!maybe_bigint_like(&Type::Any));
    assert_eq!(base_primitive(&Type::NumberLiteral("1".to_string())), Some(Type::Number));
    assert_eq!(base_primitive(&enum_member("A", "0")), Some(Type::Number));
    assert_eq!(
        base_primitive(&union_of(vec![Type::StringLiteral("a".to_string()), Type::String])),
        Some(Type::String)
    );
    assert_eq!(base_primitive(&union_of(vec![Type::StringLiteral("a".to_string()), Type::Number])), None);
    assert!(is_number_like_for_arithmetic(&enum_member("B", "1")));
    assert!(!is_number_like_for_arithmetic(&Type::String));
    assert!(is_valid_arithmetic_operand(&union_of(vec![Type::Number, Type::BigInt])));
    assert!(!is_valid_arithmetic_operand(&Type::Undefined));
}

#[test]
fn symbol_operands_are_reported_left_first() {
    let both = report_symbol_operand(BinaryOperator::Add, &Type::Symbol, &Type::Symbol, span(1), span(5));
    assert_eq!(both, Some(OperatorReport::SymbolOperand { operator: BinaryOperator::Add, span: span(1) }));
    let right = report_symbol_operand(
        BinaryOperator::Less,
        &Type::Number,
        &union_of(vec![Type::Symbol, Type::String]),
        span(1),
        span(5),
    );
    assert_eq!(right, Some(OperatorReport::SymbolOperand { operator: BinaryOperator::Less, span: span(5) }));
    assert_eq!(report_symbol_operand(BinaryOperator::Add, &Type::Number, &Type::String, span(1), span(5)), None);
}

#[test]
fn arithmetic_on_numbers_is_number() {
    let (r, reports) = evaluate_arithmetic_binary(
        known(Type::NumberLiteral("2".to_string())),
        known(enum_member("A", "0")),
        BinaryOperator::Multiply,
        span(0),
        span(2),
        span(4),
        span(0),
    );
    assert_eq!(result_type(r), Some(Type::Number));
    assert!(reports.is_empty());
}

#[test]
fn bitwise_between_booleans_suggests_the_boolean_operator() {
    let (r, reports) = evaluate_arithmetic_binary(
        known(Type::Boolean),
        known(Type::BooleanLiteral(true)),
        BinaryOperator::BitwiseAnd,
        span(0),
        None,
        span(4),
        span(9),
    );
    assert_eq!(result_type(r), Some(Type::Number));
    assert_eq!(reports, vec![OperatorReport::BooleanBitwise { operator: BinaryOperator::BitwiseAnd, span: span(9) }]);
}

#[test]
fn invalid_arithmetic_operands_are_reported_each() {
    let (r, reports) = evaluate_arithmetic_binary(
        known(Type::String),
        known(Type::Undefined),
        BinaryOperator::Subtract,
        span(0),
        span(2),
        span(4),
        span(9),
    );
    assert!(matches!(r, InferredExpression::Unknown));
    assert_eq!(
        reports,
        vec![
            OperatorReport::LeftOperandNotArithmetic { span: span(0) },
            OperatorReport::RightOperandNotArithmetic { span: span(4) },
        ]
    );
}

#[test]
fn bigints_mix_only_with_bigints() {
    let (r, reports) = evaluate_arithmetic_binary(
        known(Type::BigInt),
        known(Type::Any),
        BinaryOperator::ShiftLeft,
        span(0),
        span(2),
        span(4),
        span(9),
    );
    assert_eq!(result_type(r), Some(Type::BigInt));
    assert!(reports.is_empty());
    let (r, reports) = evaluate_arithmetic_binary(
        known(Type::BigInt),
        known(Type::BigInt),
        BinaryOperator::ShiftRightZeroFill,
        span(0),
        span(2),
        span(4),
        span(9),
    );
    assert_eq!(result_type(r), Some(Type::BigInt));
    assert_eq!(reports, vec![report_operator_error(BinaryOperator::ShiftRightZeroFill, &Type::BigInt, &Type::BigInt, span(9))]);
    let (r, reports) = evaluate_arithmetic_binary(
        known(Type::BigInt),
        known(Type::Number),
        BinaryOperator::Add,
        span(0),
        span(2),
        span(4),
        span(9),
    );
    assert!(matches!(r, InferredExpression::Unknown));
    assert_eq!(
        reports,
        vec![OperatorReport::OperandsMismatch {
            operator: BinaryOperator::Add,
            left: Type::BigInt,
            right: Type::Number,
            span: span(9),
        }]
    );
}

#[test]
fn unmodelled_operands_are_not_judged() {
    let (r, reports) = evaluate_arithmetic_binary(
        known(Type::Unknown),
        known(Type::String),
        BinaryOperator::Divide,
        span(0),
        span(2),
        span(4),
        span(9),
    );
    assert!(matches!(r, InferredExpression::Unknown));
    assert!(reports.is_empty());
    let (r, _) = evaluate_arithmetic_binary(
        InferredExpression::Unknown,
        known(Type::Number),
        BinaryOperator::Divide,
        None,
        None,
        None,
        None,
    );
    assert!(matches!(r, InferredExpression::Unknown));
}

#[test]
fn comparison_operands_read_literals_as_primitives() {
    assert_eq!(widen_literal_for_comparison(&Type::StringLiteral("a".to_string())), Type::String);
    assert_eq!(widen_literal_for_comparison(&enum_member("A", "3")), Type::Number);
    assert_eq!(
        widen_literal_for_comparison(&union_of(vec![
            Type::NumberLiteral("1".to_string()),
            Type::NumberLiteral("2".to_string()),
            Type::BooleanLiteral(false),
        ])),
        union_of(vec![Type::Number, Type::Boolean])
    );
    let array = Type::Array(Box::new(Type::NumberLiteral("1".to_string())));
    assert_eq!(widen_literal_for_comparison(&array), Type::Array(Box::new(Type::NumberLiteral("1".to_string()))));
}
