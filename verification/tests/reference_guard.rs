use lib::guards::nullish::NullishTest;
use lib::reference_guard::{
    compared_operand_type, declared_path_type, narrow_union_by_constructor, nullish_discriminant_rules_out,
    parse_constructor_equality, property_path_leaf_type, reference_operand_type,
    ReferenceGuard,
};
use lib::syntax::Expr;
use lib::types::{copy_type, union_of, ObjectProperty, ObjectType, Type, TypeReference};

fn lit(s: &str) -> Type {
    Type::StringLiteral(s.to_string())
}

fn object(properties: Vec<(&str, Type, bool)>) -> Type {
    Type::Object(ObjectType {
        properties: properties
            .into_iter()
            .map(|(name, ty, optional)| ObjectProperty { name: name.to_string(), ty, optional, readonly: false, method: false })
            .collect(),
        string_index: None,
        callable: false,
        alias_name: None,
        synthetic_open_index: false,
    })
}

fn strings(v: &[&str]) -> Vec<String> {
    v.iter().map(|s| s.to_string()).collect()
}

#[test]
fn truthy_and_falsy_leaves() {
    let maybe = union_of(vec![Type::String, Type::Undefined]);
    assert_eq!(ReferenceGuard::Truthy.narrow_leaf(&maybe, false), Some((Type::String, false)));
    assert_eq!(ReferenceGuard::Truthy.narrow_leaf(&Type::String, true), Some((Type::String, false)));
    assert_eq!(ReferenceGuard::Truthy.narrow_leaf(&Type::String, false), None);
    let callable = union_of(vec![Type::String, Type::Function]);
    assert_eq!(ReferenceGuard::Falsy.narrow_leaf(&callable, false), Some((Type::String, false)));
    assert_eq!(
        ReferenceGuard::Falsy.narrow_leaf(&Type::Function, true),
        Some((Type::Undefined, false))
    );
    assert_eq!(ReferenceGuard::Falsy.narrow_leaf(&Type::String, false), None);
}

#[test]
fn guards_see_an_optional_slot_undefined() {
    let ty = union_of(vec![Type::String, Type::Number]);
    let typeof_string = ReferenceGuard::Typeof { tag: "string", keep_matching: true };
    assert_eq!(typeof_string.narrow_leaf(&ty, true), Some((Type::String, false)));
    let defined = ReferenceGuard::Nullish { keep_matching: false, test: NullishTest { null: false, undefined: true } };
    assert_eq!(defined.narrow_leaf(&Type::String, true), Some((Type::String, false)));
    assert_eq!(defined.narrow_leaf(&Type::String, false), None);
}

#[test]
fn literal_tests_keep_an_optional_slot_where_undefined_survives() {
    let ab = union_of(vec![lit("a"), lit("b")]);
    let a = Expr::StringLiteral("a".to_string());
    let not_a = ReferenceGuard::LiteralEquality { literal: &a, keep_matching: false };
    assert_eq!(not_a.narrow_leaf(&ab, true), Some((lit("b"), true)));
    assert_eq!(not_a.narrow_leaf(&ab, false), Some((lit("b"), false)));
    let is_a = ReferenceGuard::LiteralEquality { literal: &a, keep_matching: true };
    assert_eq!(is_a.narrow_leaf(&ab, true), Some((lit("a"), false)));
    let only_a = lit("a");
    assert_eq!(not_a.narrow_leaf(&only_a, true), Some((Type::Never, true)));
    let not_literal = Expr::Identifier("v".to_string());
    let by_name = ReferenceGuard::LiteralEquality { literal: &not_literal, keep_matching: true };
    assert_eq!(by_name.narrow_leaf(&ab, false), None);
}

#[test]
fn constructor_tests_keep_what_the_constructor_builds() {
    let date = Type::Reference(TypeReference {
        id: "lib.es5.d.ts\u{0}Date".to_string(),
        display: "Date".to_string(),
        target: Box::new(object(vec![])),
        enum_owner: false,
        readonly_array: false,
    });
    let union = union_of(vec![copy_type(&date), Type::String, Type::Null]);
    assert_eq!(narrow_union_by_constructor(&union, "Date"), Some(copy_type(&date)));
    assert_eq!(narrow_union_by_constructor(&union, "String"), Some(Type::String));
    assert_eq!(narrow_union_by_constructor(&union, "Map"), None);
    let guard = ReferenceGuard::ConstructedBy { ctor_name: "Date" };
    assert_eq!(guard.narrow_leaf(&union, true), Some((date, true)));
}

#[test]
fn discriminant_and_other_leaf_guards() {
    let a = object(vec![("kind", lit("a"), false)]);
    let b = object(vec![("kind", lit("b"), false)]);
    let union = union_of(vec![copy_type(&a), copy_type(&b)]);
    let literal = lit("a");
    let guard = ReferenceGuard::Discriminant { property: "kind", literal: &literal, keep_matching: true };
    assert_eq!(guard.narrow_leaf(&union, false), Some((a, false)));
    let arrays = union_of(vec![Type::String, Type::Array(Box::new(Type::String))]);
    let guard = ReferenceGuard::Arrayness { keep_arrays: false };
    assert_eq!(guard.narrow_leaf(&arrays, false), Some((Type::String, false)));
    let guard = ReferenceGuard::Instanceof { ctor_name: "Array", keep_matching: true };
    assert_eq!(guard.narrow_leaf(&arrays, false), Some((Type::Array(Box::new(Type::String)), false)));
}

#[test]
fn guards_that_prove_a_reference_defined() {
    assert!(ReferenceGuard::Truthy.proves_defined());
    assert!(ReferenceGuard::Typeof { tag: "undefined", keep_matching: false }.proves_defined());
    assert!(ReferenceGuard::Typeof { tag: "string", keep_matching: true }.proves_defined());
    assert!(!ReferenceGuard::Typeof { tag: "undefined", keep_matching: true }.proves_defined());
    let test = NullishTest { null: true, undefined: true };
    assert!(ReferenceGuard::Nullish { keep_matching: false, test }.proves_defined());
    assert!(!ReferenceGuard::Nullish { keep_matching: true, test }.proves_defined());
    assert!(!ReferenceGuard::Falsy.proves_defined());
}

#[test]
fn property_path_types() {
    let inner = object(vec![("b", Type::Number, true)]);
    let outer = object(vec![("a", copy_type(&inner), false)]);
    assert_eq!(
        property_path_leaf_type(&outer, &strings(&["a", "b"])),
        Some(union_of(vec![Type::Number, Type::Undefined]))
    );
    assert_eq!(property_path_leaf_type(&outer, &strings(&["a"])), Some(copy_type(&inner)));
    assert_eq!(property_path_leaf_type(&outer, &strings(&["x"])), None);
    assert_eq!(property_path_leaf_type(&outer, &strings(&[])), None);
    assert_eq!(
        declared_path_type(&outer, &strings(&["a", "b"])),
        Some(union_of(vec![Type::Number, Type::Undefined]))
    );
    assert_eq!(declared_path_type(&outer, &strings(&[])), Some(copy_type(&outer)));
    assert_eq!(declared_path_type(&outer, &strings(&["a", "b", "c"])), None);
}

#[test]
fn null_test_rules_out_a_member_whose_property_is_never_null() {
    let ok = object(vec![("error", Type::String, false)]);
    let failed = object(vec![("error", Type::Null, false)]);
    let members = vec![ok, failed];
    let path = strings(&["error"]);
    let is_null = ReferenceGuard::Nullish { keep_matching: true, test: NullishTest { null: true, undefined: false } };
    assert!(nullish_discriminant_rules_out(0, &members, &path, &is_null));
    assert!(!nullish_discriminant_rules_out(1, &members, &path, &is_null));
    let not_null = ReferenceGuard::Nullish { keep_matching: false, test: NullishTest { null: true, undefined: false } };
    assert!(!nullish_discriminant_rules_out(0, &members, &path, &not_null));
}

#[test]
fn nullish_discriminant_needs_a_sibling_that_can_match() {
    let a = object(vec![("p", Type::String, false)]);
    let b = object(vec![("p", Type::Number, false)]);
    let members = vec![a, b];
    let path = strings(&["p"]);
    let is_undefined = ReferenceGuard::Nullish { keep_matching: true, test: NullishTest { null: false, undefined: true } };
    assert!(!nullish_discriminant_rules_out(0, &members, &path, &is_undefined));
}

#[test]
fn optional_property_and_unmodelled_leaf_are_not_ruled_out() {
    let optional = object(vec![("p", Type::String, true)]);
    let unmodelled = object(vec![("p", Type::Unknown, false)]);
    let sibling = object(vec![("p", Type::Void, false)]);
    let members = vec![optional, unmodelled, sibling];
    let path = strings(&["p"]);
    let is_undefined = ReferenceGuard::Nullish { keep_matching: true, test: NullishTest { null: false, undefined: true } };
    assert!(!nullish_discriminant_rules_out(0, &members, &path, &is_undefined));
    assert!(!nullish_discriminant_rules_out(1, &members, &path, &is_undefined));
    let missing = object(vec![("q", Type::String, false)]);
    let members = vec![missing, object(vec![("p", Type::Undefined, false)])];
    assert!(!nullish_discriminant_rules_out(0, &members, &path, &is_undefined));
}

fn ctor_read(object: Expr) -> Expr {
    Expr::PropertyAccess { object: Box::new(object), property_name: "constructor".to_string() }
}

#[test]
fn constructor_equalities_either_way_round() {
    let x = Expr::Identifier("x".to_string());
    let c = Expr::Identifier("C".to_string());
    let left = Expr::Binary {
        left: Box::new(ctor_read(Expr::PropertyAccess { object: Box::new(x), property_name: "p".to_string() })),
        operator: lib::syntax::BinaryOperator::StrictEquals,
        right: Box::new(c),
    };
    assert_eq!(
        parse_constructor_equality(&left),
        Some((("x".to_string(), strings(&["p"])), "C", true))
    );
    let namespaced = Expr::PropertyAccess { object: Box::new(Expr::Identifier("ns".to_string())), property_name: "D".to_string() };
    let bracketed = Expr::IndexAccess { object_name: "y".to_string(), index: Box::new(Expr::StringLiteral("constructor".to_string())) };
    let right = Expr::Binary {
        left: Box::new(namespaced),
        operator: lib::syntax::BinaryOperator::NotEquals,
        right: Box::new(bracketed),
    };
    assert_eq!(parse_constructor_equality(&right), Some((("y".to_string(), vec![]), "D", false)));
    let not_constructor = Expr::Binary {
        left: Box::new(Expr::PropertyAccess { object: Box::new(Expr::Identifier("x".to_string())), property_name: "kind".to_string() }),
        operator: lib::syntax::BinaryOperator::StrictEquals,
        right: Box::new(Expr::Identifier("C".to_string())),
    };
    assert_eq!(parse_constructor_equality(&not_constructor), None);
    let compared_with_constructor = Expr::Binary {
        left: Box::new(ctor_read(Expr::Identifier("x".to_string()))),
        operator: lib::syntax::BinaryOperator::StrictEquals,
        right: Box::new(ctor_read(Expr::Identifier("y".to_string()))),
    };
    assert_eq!(parse_constructor_equality(&compared_with_constructor), None);
}

#[test]
fn compared_operand_types() {
    let symbols = lib::symbols::SymbolTable {
        entries: vec![lib::symbols::SymbolEntry {
            name: "v".to_string(),
            info: lib::symbols::SymbolInfo { ty: Type::Number, kind: lib::symbols::SymbolKind::Let, function_signature: None },
        }],
        narrowed: vec![],
    };
    assert_eq!(compared_operand_type(&symbols, &Expr::Identifier("v".to_string())), Some(Type::Number));
    assert_eq!(compared_operand_type(&symbols, &Expr::Identifier("w".to_string())), None);
    assert_eq!(compared_operand_type(&symbols, &Expr::StringLiteral("a".to_string())), Some(lit("a")));
    assert_eq!(compared_operand_type(&symbols, &Expr::NullLiteral), None);
}

#[test]
fn reference_operands_read_their_root_down_the_path() {
    let symbols = lib::symbols::SymbolTable {
        entries: vec![
            lib::symbols::SymbolEntry {
                name: "o".to_string(),
                info: lib::symbols::SymbolInfo {
                    ty: object(vec![("p", lit("a"), true), ("q", Type::Number, false)]),
                    kind: lib::symbols::SymbolKind::Const,
                    function_signature: None,
                },
            },
            lib::symbols::SymbolEntry {
                name: "y".to_string(),
                info: lib::symbols::SymbolInfo {
                    ty: Type::String,
                    kind: lib::symbols::SymbolKind::Let,
                    function_signature: None,
                },
            },
        ],
        narrowed: Vec::new(),
    };
    let member = |object: &str, property: &str| Expr::PropertyAccess {
        object: Box::new(Expr::Identifier(object.to_string())),
        property_name: property.to_string(),
    };
    assert_eq!(reference_operand_type(&Expr::Identifier("y".to_string()), &symbols), Some(Type::String));
    assert_eq!(reference_operand_type(&member("o", "q"), &symbols), Some(Type::Number));
    assert_eq!(
        reference_operand_type(&member("o", "p"), &symbols),
        Some(union_of(vec![lit("a"), Type::Undefined]))
    );
    assert_eq!(reference_operand_type(&member("o", "r"), &symbols), None);
    assert_eq!(reference_operand_type(&Expr::Identifier("z".to_string()), &symbols), None);
    assert_eq!(reference_operand_type(&Expr::NullLiteral, &symbols), None);
}
