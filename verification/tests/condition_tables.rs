use lib::condition_tables::narrow_condition_symbol_table_by_guard;
use lib::symbols::{SymbolEntry, SymbolInfo, SymbolKind, SymbolTable};
use lib::syntax::{BinaryOperator, Expr, LogicalOperator, UnaryOperator};
use lib::types::{union_of, Type};

fn ident(name: &str) -> Expr {
    Expr::Identifier(name.to_string())
}

fn binary(left: Expr, operator: BinaryOperator, right: Expr) -> Expr {
    Expr::Binary { left: Box::new(left), operator, right: Box::new(right) }
}

fn logical(left: Expr, operator: LogicalOperator, right: Expr) -> Expr {
    Expr::Logical { left: Box::new(left), operator, right: Box::new(right) }
}

fn not(e: Expr) -> Expr {
    Expr::Unary { operator: UnaryOperator::Not, operand: Box::new(e) }
}

fn typeof_is(name: &str, tag: &str) -> Expr {
    binary(
        Expr::Unary { operator: UnaryOperator::Typeof, operand: Box::new(ident(name)) },
        BinaryOperator::StrictEquals,
        Expr::StringLiteral(tag.to_string()),
    )
}

fn is_null(name: &str) -> Expr {
    binary(ident(name), BinaryOperator::StrictEquals, Expr::NullLiteral)
}

fn table(bindings: Vec<(&str, Type)>) -> SymbolTable {
    SymbolTable {
        entries: bindings
            .into_iter()
            .map(|(name, ty)| SymbolEntry {
                name: name.to_string(),
                info: SymbolInfo { ty, kind: SymbolKind::Let, function_signature: None },
            })
            .collect(),
        narrowed: Vec::new(),
    }
}

fn ty_of<'a>(t: &'a SymbolTable, name: &str) -> &'a Type {
    &t.get(name).unwrap().ty
}

fn string_or_number() -> Type {
    union_of(vec![Type::String, Type::Number])
}

#[test]
fn a_single_guard_narrows_its_binding() {
    let symbols = table(vec![("x", string_or_number())]);
    let t = narrow_condition_symbol_table_by_guard(&typeof_is("x", "string"), &symbols, true).unwrap();
    assert_eq!(ty_of(&t, "x"), &Type::String);
    let f = narrow_condition_symbol_table_by_guard(&typeof_is("x", "string"), &symbols, false).unwrap();
    assert_eq!(ty_of(&f, "x"), &Type::Number);
    assert_eq!(f.entries.len(), 2);
    assert_eq!(f.narrowed, vec!["x".to_string()]);
}

#[test]
fn negation_flips_the_branch() {
    let symbols = table(vec![("x", string_or_number())]);
    let t = narrow_condition_symbol_table_by_guard(&not(typeof_is("x", "string")), &symbols, true).unwrap();
    assert_eq!(ty_of(&t, "x"), &Type::Number);
    let compared = binary(not(typeof_is("x", "string")), BinaryOperator::StrictEquals, Expr::BooleanLiteral(false));
    let t = narrow_condition_symbol_table_by_guard(&compared, &symbols, true).unwrap();
    assert_eq!(ty_of(&t, "x"), &Type::String);
}

#[test]
fn a_true_conjunction_narrows_by_both_operands() {
    let symbols = table(vec![("x", string_or_number()), ("y", union_of(vec![Type::Number, Type::Null]))]);
    let both = logical(typeof_is("x", "string"), LogicalOperator::And, not(is_null("y")));
    let t = narrow_condition_symbol_table_by_guard(&both, &symbols, true).unwrap();
    assert_eq!(ty_of(&t, "x"), &Type::String);
    assert_eq!(ty_of(&t, "y"), &Type::Number);
    assert_eq!(t.narrowed, vec!["x".to_string(), "y".to_string()]);
}

#[test]
fn a_false_disjunction_narrows_by_both_operands() {
    let symbols = table(vec![("x", string_or_number()), ("y", union_of(vec![Type::Number, Type::Null]))]);
    let either = logical(typeof_is("x", "string"), LogicalOperator::Or, is_null("y"));
    let f = narrow_condition_symbol_table_by_guard(&either, &symbols, false).unwrap();
    assert_eq!(ty_of(&f, "x"), &Type::Number);
    assert_eq!(ty_of(&f, "y"), &Type::Number);
}

#[test]
fn a_true_disjunction_merges_its_edges() {
    let three = union_of(vec![Type::String, Type::Number, Type::Boolean]);
    let symbols = table(vec![("x", three)]);
    let either = logical(typeof_is("x", "string"), LogicalOperator::Or, typeof_is("x", "number"));
    let t = narrow_condition_symbol_table_by_guard(&either, &symbols, true).unwrap();
    assert_eq!(ty_of(&t, "x"), &string_or_number());
    let unguarded = logical(typeof_is("x", "string"), LogicalOperator::Or, ident("ok"));
    assert!(narrow_condition_symbol_table_by_guard(&unguarded, &symbols, true).is_none());
}

#[test]
fn a_false_conjunction_merges_its_failures() {
    let symbols = table(vec![("x", string_or_number())]);
    let both = logical(typeof_is("x", "string"), LogicalOperator::And, ident("ok"));
    let f = narrow_condition_symbol_table_by_guard(&both, &symbols, false).unwrap();
    assert_eq!(ty_of(&f, "x"), &union_of(vec![Type::Number, Type::String]));
    let neither = logical(ident("a"), LogicalOperator::And, ident("b"));
    assert!(narrow_condition_symbol_table_by_guard(&neither, &symbols, false).is_none());
}

fn kind_object(kind: &str) -> Type {
    Type::Object(lib::types::ObjectType {
        properties: vec![lib::types::ObjectProperty {
            name: "kind".to_string(),
            ty: Type::StringLiteral(kind.to_string()),
            optional: false,
            readonly: false,
            method: false,
        }],
        string_index: None,
        callable: false,
        alias_name: None,
        synthetic_open_index: false,
    })
}

#[test]
fn a_discriminant_test_narrows_the_binding_it_reads() {
    let action = union_of(vec![kind_object("a"), kind_object("b")]);
    let symbols = table(vec![("action", action)]);
    let test = binary(
        Expr::PropertyAccess { object: Box::new(ident("action")), property_name: "kind".to_string() },
        BinaryOperator::StrictEquals,
        Expr::StringLiteral("a".to_string()),
    );
    let t = narrow_condition_symbol_table_by_guard(&test, &symbols, true).unwrap();
    assert_eq!(ty_of(&t, "action"), &kind_object("a"));
    let f = narrow_condition_symbol_table_by_guard(&test, &symbols, false).unwrap();
    assert_eq!(ty_of(&f, "action"), &kind_object("b"));
}
