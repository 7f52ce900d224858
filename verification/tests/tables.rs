use lib::symbols::{SymbolEntry, SymbolInfo, SymbolKind, SymbolTable};
use lib::syntax::{BinaryOperator, Expr, UnaryOperator};
use lib::table_narrowing::{
    narrow_array_isarray_symbol_table, narrow_instanceof_symbol_table,
    narrow_literal_equality_symbol_table, narrow_nullish_equality_symbol_table,
    narrow_property_presence_symbol_table, narrow_typeof_symbol_table, union_disjunct_narrowings,
};
use lib::types::{union_of, ObjectProperty, ObjectType, Type};

fn ident(name: &str) -> Expr {
    Expr::Identifier(name.to_string())
}

fn binary(left: Expr, operator: BinaryOperator, right: Expr) -> Expr {
    Expr::Binary { left: Box::new(left), operator, right: Box::new(right) }
}

fn typeof_is(name: &str, tag: &str) -> Expr {
    binary(
        Expr::Unary { operator: UnaryOperator::Typeof, operand: Box::new(ident(name)) },
        BinaryOperator::StrictEquals,
        Expr::StringLiteral(tag.to_string()),
    )
}

fn table(bindings: Vec<(&str, Type)>) -> SymbolTable {
    SymbolTable {
        entries: bindings
            .into_iter()
            .map(|(name, ty)| SymbolEntry {
                name: name.to_string(),
                info: SymbolInfo { ty, kind: SymbolKind::Let, function_signature: None },
            })
            .collect(),
        narrowed: Vec::new(),
    }
}

fn ty_of<'a>(t: &'a SymbolTable, name: &str) -> &'a Type {
    &t.get(name).unwrap().ty
}

fn optional_p() -> Type {
    Type::Object(ObjectType {
        properties: vec![ObjectProperty {
            name: "p".to_string(),
            ty: Type::String,
            optional: true,
            readonly: false,
            method: false,
        }],
        string_index: None,
        callable: false,
        alias_name: None,
        synthetic_open_index: false,
    })
}

fn p_of(t: &Type) -> (Type, bool) {
    match t {
        Type::Object(o) => (lib::types::copy_type(&o.properties[0].ty), o.properties[0].optional),
        _ => panic!("an object"),
    }
}

#[test]
fn typeof_narrows_the_binding_in_a_new_table() {
    let symbols = table(vec![("x", union_of(vec![Type::String, Type::Number])), ("y", Type::Boolean)]);
    let narrowed = narrow_typeof_symbol_table(&typeof_is("x", "string"), &symbols, true).unwrap();
    assert_eq!(ty_of(&narrowed, "x"), &Type::String);
    assert_eq!(ty_of(&narrowed, "y"), &Type::Boolean);
    assert_eq!(narrowed.narrowed, vec!["x".to_string()]);
    assert_eq!(narrowed.entries.len(), 3);
    // The table it was made from is untouched.
    assert_eq!(ty_of(&symbols, "x"), &union_of(vec![Type::String, Type::Number]));
    assert!(narrow_typeof_symbol_table(&typeof_is("z", "string"), &symbols, true).is_none());
    assert!(narrow_typeof_symbol_table(&typeof_is("y", "boolean"), &symbols, true).is_none());
}

#[test]
fn other_guards_narrow_tables() {
    let symbols = table(vec![
        ("x", union_of(vec![Type::String, Type::Array(Box::new(Type::Number))])),
        ("v", union_of(vec![Type::StringLiteral("a".to_string()), Type::StringLiteral("b".to_string())])),
        ("o", union_of(vec![optional_p(), Type::Null])),
    ]);
    let is_array = Expr::PropertyCall {
        type_argument_count: 0,
        object: Box::new(ident("Array")),
        property_name: "isArray".to_string(),
        arguments: vec![ident("x")],
    };
    let t = narrow_array_isarray_symbol_table(&is_array, &symbols, false).unwrap();
    assert_eq!(ty_of(&t, "x"), &Type::String);
    let not_a = binary(ident("v"), BinaryOperator::StrictNotEquals, Expr::StringLiteral("a".to_string()));
    let t = narrow_literal_equality_symbol_table(&not_a, &symbols, true).unwrap();
    assert_eq!(ty_of(&t, "v"), &Type::StringLiteral("b".to_string()));
    let present = binary(Expr::StringLiteral("p".to_string()), BinaryOperator::In, ident("o"));
    let t = narrow_property_presence_symbol_table(&present, &symbols, true).unwrap();
    assert_eq!(ty_of(&t, "o"), &optional_p());
    let instance = binary(ident("x"), BinaryOperator::Instanceof, ident("Array"));
    let t = narrow_instanceof_symbol_table(&instance, &symbols, true).unwrap();
    assert_eq!(ty_of(&t, "x"), &Type::Array(Box::new(Type::Number)));
}

#[test]
fn nullish_tests_narrow_a_binding_or_its_property() {
    let symbols = table(vec![("o", optional_p()), ("m", union_of(vec![Type::String, Type::Null]))]);
    let not_null = binary(ident("m"), BinaryOperator::StrictNotEquals, Expr::NullLiteral);
    let t = narrow_nullish_equality_symbol_table(&not_null, &symbols, true).unwrap();
    assert_eq!(ty_of(&t, "m"), &Type::String);
    let p = Expr::PropertyAccess { object: Box::new(ident("o")), property_name: "p".to_string() };
    let defined = binary(p, BinaryOperator::StrictNotEquals, Expr::UndefinedLiteral);
    let t = narrow_nullish_equality_symbol_table(&defined, &symbols, true).unwrap();
    assert_eq!(p_of(ty_of(&t, "o")), (Type::String, false));
    let t = narrow_nullish_equality_symbol_table(&defined, &symbols, false).unwrap();
    assert_eq!(p_of(ty_of(&t, "o")), (Type::Undefined, true));
    let p = Expr::PropertyAccess { object: Box::new(ident("o")), property_name: "p".to_string() };
    let not_null_p = binary(p, BinaryOperator::StrictNotEquals, Expr::NullLiteral);
    assert!(narrow_nullish_equality_symbol_table(&not_null_p, &symbols, true).is_none());
}

#[test]
fn disjunct_branches_merge_into_their_union() {
    let declared = union_of(vec![Type::String, Type::Number, Type::Undefined]);
    let symbols = table(vec![("x", lib::types::copy_type(&declared))]);
    let left = narrow_typeof_symbol_table(&typeof_is("x", "string"), &symbols, true).unwrap();
    let right = narrow_typeof_symbol_table(&typeof_is("x", "number"), &symbols, true).unwrap();
    let merged = union_disjunct_narrowings(&symbols, &left, &right).unwrap();
    assert_eq!(ty_of(&merged, "x"), &union_of(vec![Type::String, Type::Number]));
    assert_eq!(merged.narrowed, vec!["x".to_string()]);
    // Branches that together cover the declared type narrow nothing.
    let rest = narrow_typeof_symbol_table(&typeof_is("x", "string"), &symbols, false).unwrap();
    assert!(union_disjunct_narrowings(&symbols, &left, &rest).is_none());
}
