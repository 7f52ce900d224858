use lib::truthiness::{path_truthiness, type_truthiness};
use lib::symbols::{SymbolEntry, SymbolInfo, SymbolKind, SymbolTable};
use lib::syntax::{BinaryOperator, Expr, LogicalOperator, UnaryOperator};
use lib::truthy_tables::{
    narrow_falsy_operand_symbol_table, narrow_truthy_guarded_symbol_table, narrow_truthy_operand_symbol_table,
    narrow_union_by_property_truthiness_symbol_table,
};
use lib::types::{union_of, ObjectProperty, ObjectType, Type};

fn ident(name: &str) -> Expr {
    Expr::Identifier(name.to_string())
}

fn not(e: Expr) -> Expr {
    Expr::Unary { operator: UnaryOperator::Not, operand: Box::new(e) }
}

fn logical(left: Expr, operator: LogicalOperator, right: Expr) -> Expr {
    Expr::Logical { left: Box::new(left), operator, right: Box::new(right) }
}

fn member(object: &str, property: &str) -> Expr {
    Expr::PropertyAccess { object: Box::new(ident(object)), property_name: property.to_string() }
}

fn typeof_is(name: &str, tag: &str) -> Expr {
    Expr::Binary {
        left: Box::new(Expr::Unary { operator: UnaryOperator::Typeof, operand: Box::new(ident(name)) }),
        operator: BinaryOperator::StrictEquals,
        right: Box::new(Expr::StringLiteral(tag.to_string())),
    }
}

fn table(bindings: Vec<(&str, Type)>) -> SymbolTable {
    SymbolTable {
        entries: bindings
            .into_iter()
            .map(|(name, ty)| SymbolEntry {
                name: name.to_string(),
                info: SymbolInfo { ty, kind: SymbolKind::Let, function_signature: None },
            })
            .collect(),
        narrowed: Vec::new(),
    }
}

fn ty_of<'a>(t: &'a SymbolTable, name: &str) -> &'a Type {
    &t.get(name).unwrap().ty
}

fn maybe_string() -> Type {
    union_of(vec![Type::String, Type::Undefined])
}

fn optional_p() -> Type {
    Type::Object(ObjectType {
        properties: vec![ObjectProperty {
            name: "p".to_string(),
            ty: maybe_string(),
            optional: true,
            readonly: false,
            method: false,
        }],
        string_index: None,
        callable: false,
        alias_name: None,
        synthetic_open_index: false,
    })
}

#[test]
fn bailed_out_falsy_guards_leave_their_targets_truthy() {
    let symbols = table(vec![("a", maybe_string()), ("o", optional_p()), ("n", Type::Number)]);
    let condition = logical(not(ident("a")), LogicalOperator::Or, not(member("o", "p")));
    let narrowed = narrow_truthy_guarded_symbol_table(&condition, &symbols);
    assert_eq!(ty_of(&narrowed, "a"), &Type::String);
    match ty_of(&narrowed, "o") {
        Type::Object(object) => {
            assert_eq!(object.properties[0].ty, Type::String);
            assert!(!object.properties[0].optional);
        }
        other => panic!("unexpected {:?}", other),
    }
    assert_eq!(narrowed.narrowed, vec!["a".to_string(), "o".to_string()]);
    assert_eq!(ty_of(&narrowed, "n"), &Type::Number);
}

#[test]
fn a_guard_that_changes_nothing_records_nothing() {
    let symbols = table(vec![("n", Type::Number)]);
    let narrowed = narrow_truthy_guarded_symbol_table(&not(ident("n")), &symbols);
    assert!(narrowed.narrowed.is_empty());
    assert_eq!(narrowed.entries.len(), 1);
    let narrowed = narrow_truthy_guarded_symbol_table(&ident("n"), &symbols);
    assert_eq!(narrowed.entries.len(), 1);
}

#[test]
fn a_truthy_operand_narrows_what_its_chain_proves() {
    let symbols = table(vec![("a", maybe_string()), ("u", Type::GenuineUnknown)]);
    let operand = logical(ident("a"), LogicalOperator::And, typeof_is("u", "object"));
    let narrowed = narrow_truthy_operand_symbol_table(&operand, &symbols, None).unwrap();
    assert_eq!(ty_of(&narrowed, "a"), &Type::String);
    assert_eq!(ty_of(&narrowed, "u"), &Type::Unknown);
    assert_eq!(narrowed.narrowed, vec!["a".to_string()]);
}

#[test]
fn a_truthy_operand_without_guards_answers_the_structured_table() {
    let symbols = table(vec![("a", maybe_string())]);
    let call = Expr::Call { callee_name: "f".to_string(), type_argument_count: 0, arguments: Vec::new() };
    assert!(narrow_truthy_operand_symbol_table(&call, &symbols, None).is_none());
    let structured = table(vec![("a", Type::String)]);
    let r = narrow_truthy_operand_symbol_table(&call, &symbols, Some(structured)).unwrap();
    assert_eq!(ty_of(&r, "a"), &Type::String);
    let settled = table(vec![("a", Type::String)]);
    assert!(narrow_truthy_operand_symbol_table(&ident("a"), &settled, None).is_none());
}

#[test]
fn a_falsy_operand_downgrades_what_its_falsity_guards() {
    let symbols = table(vec![("u", Type::GenuineUnknown), ("s", Type::String)]);
    let operand = not(typeof_is("u", "string"));
    let narrowed = narrow_falsy_operand_symbol_table(&operand, &symbols, None).unwrap();
    assert_eq!(ty_of(&narrowed, "u"), &Type::Unknown);
    assert!(narrowed.narrowed.is_empty());
    let operand = not(typeof_is("s", "string"));
    assert!(narrow_falsy_operand_symbol_table(&operand, &symbols, None).is_none());
    assert!(narrow_falsy_operand_symbol_table(&ident("s"), &symbols, None).is_none());
}

fn result(success: bool) -> Type {
    Type::Object(ObjectType {
        properties: vec![ObjectProperty {
            name: "success".to_string(),
            ty: Type::BooleanLiteral(success),
            optional: false,
            readonly: false,
            method: false,
        }],
        string_index: None,
        callable: false,
        alias_name: None,
        synthetic_open_index: false,
    })
}

#[test]
fn a_property_truthiness_test_drops_the_members_it_rules_out() {
    let both = union_of(vec![result(true), result(false)]);
    let symbols = table(vec![("r", both)]);
    let test = member("r", "success");
    let facts = vec![Some(true), Some(false)];
    let when_true = narrow_union_by_property_truthiness_symbol_table(&test, &symbols, true, &facts).unwrap();
    assert_eq!(ty_of(&when_true, "r"), &result(true));
    assert_eq!(when_true.narrowed, vec!["r".to_string()]);
    let when_false = narrow_union_by_property_truthiness_symbol_table(&test, &symbols, false, &facts).unwrap();
    assert_eq!(ty_of(&when_false, "r"), &result(false));
    let undecided = vec![None, Some(false)];
    assert!(narrow_union_by_property_truthiness_symbol_table(&test, &symbols, true, &undecided).is_some());
    assert!(narrow_union_by_property_truthiness_symbol_table(&test, &symbols, false, &undecided).is_none());
    let all_true = vec![Some(true), Some(true)];
    assert!(narrow_union_by_property_truthiness_symbol_table(&test, &symbols, false, &all_true).is_none());
    assert!(narrow_union_by_property_truthiness_symbol_table(&test, &symbols, true, &all_true).is_none());
    assert!(narrow_union_by_property_truthiness_symbol_table(&ident("r"), &symbols, true, &facts).is_none());
}

#[test]
fn truthiness_facts_decide_units_and_agreeing_unions() {
    let facts = vec![("0".to_string(), Some(false)), ("2".to_string(), Some(true))];
    assert_eq!(type_truthiness(&Type::NumberLiteral("0".to_string()), &facts), Some(false));
    assert_eq!(type_truthiness(&Type::NumberLiteral("7".to_string()), &facts), None);
    assert_eq!(type_truthiness(&Type::StringLiteral(String::new()), &facts), Some(false));
    assert_eq!(type_truthiness(&union_of(vec![Type::Undefined, Type::Null]), &facts), Some(false));
    assert_eq!(
        type_truthiness(&union_of(vec![Type::NumberLiteral("2".to_string()), Type::BooleanLiteral(true)]), &facts),
        Some(true)
    );
    assert_eq!(type_truthiness(&union_of(vec![Type::BooleanLiteral(true), Type::Undefined]), &facts), None);
    assert_eq!(type_truthiness(&Type::String, &facts), None);
    let path = vec!["success".to_string()];
    assert_eq!(path_truthiness(&result(true), &path, &facts), Some(true));
    assert_eq!(path_truthiness(&result(false), &path, &facts), Some(false));
    let optional = vec!["p".to_string()];
    assert_eq!(path_truthiness(&optional_p(), &optional, &facts), None);
    assert_eq!(path_truthiness(&Type::String, &optional, &facts), None);
}
