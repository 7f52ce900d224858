use lib::guard_bindings::{
    collect_compared_operand_roots, collect_equality_guard_subjects, collect_property_guard_bases, collect_guard_operand_identifiers, collect_holding_guard_identifiers, guard_operand_identifier,
    guarded_value_identifiers, identifier_nullish_equality, may_equal_literal,
    property_path_below, truthiness_tested_binding,
};
use lib::symbols::{SymbolEntry, SymbolInfo, SymbolKind, SymbolTable};
use lib::syntax::{BinaryOperator, Expr, LogicalOperator, UnaryOperator};
use lib::types::{union_of, Type};

fn ident(name: &str) -> Expr {
    Expr::Identifier(name.to_string())
}

fn member(object: Expr, property: &str) -> Expr {
    Expr::PropertyAccess { object: Box::new(object), property_name: property.to_string() }
}

fn binary(left: Expr, operator: BinaryOperator, right: Expr) -> Expr {
    Expr::Binary { left: Box::new(left), operator, right: Box::new(right) }
}

fn logical(left: Expr, operator: LogicalOperator, right: Expr) -> Expr {
    Expr::Logical { left: Box::new(left), operator, right: Box::new(right) }
}

fn not(e: Expr) -> Expr {
    Expr::Unary { operator: UnaryOperator::Not, operand: Box::new(e) }
}

fn typeof_test(operand: Expr, operator: BinaryOperator, tag: &str) -> Expr {
    binary(
        Expr::Unary { operator: UnaryOperator::Typeof, operand: Box::new(operand) },
        operator,
        Expr::StringLiteral(tag.to_string()),
    )
}

fn is_array(argument: Expr) -> Expr {
    Expr::PropertyCall {
        type_argument_count: 0,
        object: Box::new(ident("Array")),
        property_name: "isArray".to_string(),
        arguments: vec![argument],
    }
}

fn strings(v: &[&str]) -> Vec<String> {
    v.iter().map(|s| s.to_string()).collect()
}

#[test]
fn guard_operands_are_bare_identifiers() {
    assert_eq!(guard_operand_identifier(&typeof_test(ident("x"), BinaryOperator::StrictEquals, "string")), Some("x"));
    assert_eq!(guard_operand_identifier(&is_array(ident("xs"))), Some("xs"));
    assert_eq!(guard_operand_identifier(&typeof_test(member(ident("o"), "p"), BinaryOperator::StrictEquals, "string")), None);
    assert_eq!(guard_operand_identifier(&ident("x")), None);
}

#[test]
fn guard_operand_identifiers_are_collected_once() {
    let condition = logical(
        typeof_test(ident("a"), BinaryOperator::StrictEquals, "string"),
        LogicalOperator::Or,
        not(logical(is_array(ident("b")), LogicalOperator::And, is_array(ident("a")))),
    );
    let mut names = Vec::new();
    collect_guard_operand_identifiers(&condition, &mut names);
    assert_eq!(names, strings(&["a", "b"]));
}

#[test]
fn guarded_values_include_truthy_identifiers() {
    let condition = logical(
        logical(ident("a"), LogicalOperator::And, is_array(ident("b"))),
        LogicalOperator::And,
        logical(member(ident("c"), "p"), LogicalOperator::And, ident("b")),
    );
    assert_eq!(guarded_value_identifiers(&condition), strings(&["b", "a"]));
}

#[test]
fn holding_guards_follow_the_branch() {
    let condition = logical(
        typeof_test(ident("x"), BinaryOperator::StrictNotEquals, "object"),
        LogicalOperator::Or,
        not(is_array(ident("y"))),
    );
    let mut falsy = Vec::new();
    collect_holding_guard_identifiers(&condition, false, &mut falsy);
    assert_eq!(falsy, strings(&["x", "y"]));
    let mut truthy = Vec::new();
    collect_holding_guard_identifiers(&condition, true, &mut truthy);
    assert_eq!(truthy, strings(&["x", "y"]));
    let conjunction = logical(is_array(ident("p")), LogicalOperator::And, is_array(ident("q")));
    let mut none = Vec::new();
    collect_holding_guard_identifiers(&conjunction, false, &mut none);
    assert!(none.is_empty());
    // `typeof x === "object"` being false proves no guard on `x`.
    let mut nothing = Vec::new();
    collect_holding_guard_identifiers(&typeof_test(ident("x"), BinaryOperator::StrictEquals, "object"), false, &mut nothing);
    assert!(nothing.is_empty());
    // Compared with `false`, a guard holds where the comparison fails.
    let compared = binary(is_array(ident("z")), BinaryOperator::StrictEquals, Expr::BooleanLiteral(false));
    let mut flipped = Vec::new();
    collect_holding_guard_identifiers(&compared, false, &mut flipped);
    assert_eq!(flipped, strings(&["z"]));
}

#[test]
fn truthiness_tested_bindings() {
    assert_eq!(truthiness_tested_binding(&ident("x"), true), Some(("x", true)));
    assert_eq!(truthiness_tested_binding(&not(not(not(ident("x")))), true), Some(("x", false)));
    assert_eq!(truthiness_tested_binding(&member(ident("x"), "p"), true), None);
}

#[test]
fn identifier_nullish_equalities() {
    let strict = binary(Expr::UndefinedLiteral, BinaryOperator::StrictNotEquals, ident("x"));
    let (name, matched, eq) = identifier_nullish_equality(&strict).unwrap();
    assert_eq!(name, "x");
    assert_eq!(matched, vec![Type::Undefined]);
    assert!(!eq);
    let loose = binary(ident("x"), BinaryOperator::Equals, Expr::NullLiteral);
    let (_, matched, eq) = identifier_nullish_equality(&loose).unwrap();
    assert_eq!(matched, vec![Type::Null, Type::Undefined]);
    assert!(eq);
    let void = binary(
        ident("x"),
        BinaryOperator::StrictEquals,
        Expr::Unary { operator: UnaryOperator::Void, operand: Box::new(Expr::NumberLiteral("0".to_string())) },
    );
    assert_eq!(identifier_nullish_equality(&void).unwrap().1, vec![Type::Undefined]);
    assert!(identifier_nullish_equality(&binary(ident("x"), BinaryOperator::StrictEquals, ident("y"))).is_none());
    assert!(identifier_nullish_equality(&binary(ident("x"), BinaryOperator::Less, Expr::NullLiteral)).is_none());
}

#[test]
fn literal_equality_possibility() {
    let a = Type::StringLiteral("a".to_string());
    assert!(may_equal_literal(&Type::String, &a));
    assert!(!may_equal_literal(&Type::Number, &a));
    assert!(may_equal_literal(&Type::StringLiteral("a".to_string()), &a));
    assert!(!may_equal_literal(&Type::StringLiteral("b".to_string()), &a));
    assert!(may_equal_literal(&union_of(vec![Type::Number, Type::StringLiteral("a".to_string())]), &a));
    assert!(!may_equal_literal(&union_of(vec![Type::Number, Type::Boolean]), &a));
    assert!(may_equal_literal(&Type::Any, &a));
}

#[test]
fn property_paths_below_a_binding() {
    let reference = member(member(ident("r"), "a"), "b");
    assert_eq!(property_path_below(&reference, "r"), Some(strings(&["a", "b"])));
    assert_eq!(property_path_below(&reference, "r.a"), Some(strings(&["b"])));
    assert_eq!(property_path_below(&reference, "r.a.b"), None);
    assert_eq!(property_path_below(&reference, "s"), None);
    assert_eq!(property_path_below(&ident("r"), "r"), None);
}

fn table(bindings: Vec<(&str, Type)>) -> SymbolTable {
    SymbolTable {
        entries: bindings
            .into_iter()
            .map(|(name, ty)| SymbolEntry {
                name: name.to_string(),
                info: SymbolInfo { ty, kind: SymbolKind::Const, function_signature: None },
            })
            .collect(),
        narrowed: Vec::new(),
    }
}

#[test]
fn property_guard_bases_across_a_chain() {
    // `!env.result.type || opts?.x == null || this.state || plain || env.other`
    let condition = logical(
        logical(
            logical(
                not(member(member(ident("env"), "result"), "type")),
                LogicalOperator::Or,
                binary(
                    Expr::OptionalPropertyAccess { object: Box::new(ident("opts")), property_name: "x".to_string() },
                    BinaryOperator::Equals,
                    Expr::NullLiteral,
                ),
            ),
            LogicalOperator::Or,
            logical(member(Expr::This, "state"), LogicalOperator::Or, ident("plain")),
        ),
        LogicalOperator::Or,
        member(ident("env"), "other"),
    );
    let mut names = Vec::new();
    collect_property_guard_bases(&condition, &mut names);
    assert_eq!(names, strings(&["env", "opts"]));
}

#[test]
fn property_guard_bases_skip_coalescing_and_keep_what_was_there() {
    let condition = logical(member(ident("a"), "p"), LogicalOperator::Coalesce, member(ident("b"), "q"));
    let mut names = strings(&["z"]);
    collect_property_guard_bases(&condition, &mut names);
    assert_eq!(names, strings(&["z"]));
}

#[test]
fn compared_operand_roots_with_their_types() {
    // `a.kind === "x" || !(b !== c.d) || (isX(q) === false)` where `c` is unbound.
    let condition = logical(
        logical(
            binary(member(ident("a"), "kind"), BinaryOperator::StrictEquals, Expr::StringLiteral("x".to_string())),
            LogicalOperator::Or,
            not(binary(ident("b"), BinaryOperator::StrictNotEquals, member(ident("c"), "d"))),
        ),
        LogicalOperator::Or,
        binary(
            Expr::Call { callee_name: "isX".to_string(), type_argument_count: 0, arguments: vec![ident("q")] },
            BinaryOperator::StrictEquals,
            Expr::BooleanLiteral(false),
        ),
    );
    let symbols = table(vec![("a", Type::String), ("b", Type::Number), ("a", Type::Boolean)]);
    let mut roots = Vec::new();
    collect_compared_operand_roots(&condition, &symbols, &mut roots);
    assert_eq!(roots, vec![("a".to_string(), Type::Boolean), ("b".to_string(), Type::Number)]);
}

#[test]
fn compared_operand_roots_are_added_once() {
    let condition = logical(
        binary(ident("a"), BinaryOperator::Equals, Expr::NullLiteral),
        LogicalOperator::And,
        binary(member(ident("a"), "p"), BinaryOperator::StrictEquals, ident("b")),
    );
    let symbols = table(vec![("a", Type::String), ("b", Type::Number)]);
    let mut roots = vec![("b".to_string(), Type::Null)];
    collect_compared_operand_roots(&condition, &symbols, &mut roots);
    assert_eq!(roots, vec![("b".to_string(), Type::Null), ("a".to_string(), Type::String)]);
}

#[test]
fn equality_guard_subjects_across_a_chain() {
    // `x.kind === "a" || !(y === null) && z == 3 || w.p === q || x !== undefined`
    let condition = logical(
        logical(
            logical(
                binary(member(ident("x"), "kind"), BinaryOperator::StrictEquals, Expr::StringLiteral("a".to_string())),
                LogicalOperator::Or,
                logical(
                    not(binary(ident("y"), BinaryOperator::StrictEquals, Expr::NullLiteral)),
                    LogicalOperator::And,
                    binary(ident("z"), BinaryOperator::Equals, Expr::NumberLiteral("3".to_string())),
                ),
            ),
            LogicalOperator::Or,
            binary(member(ident("w"), "p"), BinaryOperator::StrictEquals, ident("q")),
        ),
        LogicalOperator::Or,
        binary(ident("x"), BinaryOperator::StrictNotEquals, Expr::UndefinedLiteral),
    );
    let mut names = Vec::new();
    collect_equality_guard_subjects(&condition, &table(vec![]), &mut names);
    assert_eq!(names, strings(&["x", "y", "z"]));
}

#[test]
fn equality_guard_subject_compared_with_a_constant() {
    let condition = binary(ident("status"), BinaryOperator::StrictEquals, ident("DONE"));
    let symbols = table(vec![("DONE", Type::StringLiteral("done".to_string()))]);
    let mut names = Vec::new();
    collect_equality_guard_subjects(&condition, &symbols, &mut names);
    assert_eq!(names, strings(&["status"]));
    let mut none = Vec::new();
    collect_equality_guard_subjects(&condition, &table(vec![]), &mut none);
    assert!(none.is_empty());
}
