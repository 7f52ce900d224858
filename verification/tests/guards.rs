use lib::guards::arrayness::{is_array_buffer_view_type, is_array_like_member, narrow_union_by_arrayness};
use lib::guards::equality::parse_equality_test;
use lib::guards::instanceof::{instanceof_matches, narrow_union_by_instanceof, parse_instanceof_condition};
use lib::guards::literal_equality::{
    literal_base_primitive, narrow_by_literal_equality, parse_identifier_literal_equality,
    parse_reference_literal_equality,
};
use lib::guards::nullish::{narrow_union_by_nullish, parse_nullish_equality_condition, NullishTest};
use lib::guards::property_presence::{
    is_object_prototype_member, narrow_union_by_property_presence, parse_in_condition,
    property_presence_of, well_known_symbol_key, PropertyPresence,
};
use lib::guards::typeof_guard::{
    narrow_union_by_typeof, parse_typeof_tag, type_for_typeof_tag, typeof_tag_of, TypeofTag,
};
use lib::symbols::SymbolTable;
use lib::syntax::{BinaryOperator, Expr};
use lib::types::{union_of, ObjectProperty, ObjectType, Type, TypeReference};

fn ident(name: &str) -> Expr {
    Expr::Identifier(name.to_string())
}

fn string_lit(s: &str) -> Expr {
    Expr::StringLiteral(s.to_string())
}

fn binary(left: Expr, operator: BinaryOperator, right: Expr) -> Expr {
    Expr::Binary { left: Box::new(left), operator, right: Box::new(right) }
}

fn object(properties: &[(&str, Type, bool)]) -> Type {
    let mut props = Vec::new();
    for (name, ty, optional) in properties {
        props.push(ObjectProperty {
            name: (*name).to_string(),
            ty: lib::types::copy_type(ty),
            optional: *optional,
            readonly: false,
            method: false,
        });
    }
    Type::Object(ObjectType {
        properties: props,
        string_index: None,
        callable: false,
        alias_name: None,
        synthetic_open_index: false,
    })
}

fn reference(file: &str, display: &str, target: Type) -> Type {
    let name = display.split('<').next().unwrap();
    Type::Reference(TypeReference {
        id: format!("{file}\u{0}{name}"),
        display: display.to_string(),
        target: Box::new(target),
        enum_owner: false,
        readonly_array: false,
    })
}

fn empty_table() -> SymbolTable {
    SymbolTable { entries: Vec::new(), narrowed: Vec::new() }
}

#[test]
fn typeof_tags_parse_only_the_runtime_spellings() {
    assert_eq!(parse_typeof_tag("number"), Some(TypeofTag::Number));
    assert_eq!(parse_typeof_tag("function"), Some(TypeofTag::Function));
    assert_eq!(parse_typeof_tag("object"), Some(TypeofTag::Object));
    assert_eq!(parse_typeof_tag("Object"), None);
    assert_eq!(parse_typeof_tag(""), None);
}

#[test]
fn typeof_tag_of_members() {
    assert_eq!(typeof_tag_of(&Type::NumberLiteral("1".to_string())), Some(TypeofTag::Number));
    assert_eq!(typeof_tag_of(&Type::Null), Some(TypeofTag::Object));
    assert_eq!(typeof_tag_of(&Type::Void), Some(TypeofTag::Undefined));
    assert_eq!(typeof_tag_of(&Type::Array(Box::new(Type::String))), Some(TypeofTag::Object));
    assert_eq!(typeof_tag_of(&Type::Any), None);
    assert_eq!(typeof_tag_of(&Type::Never), None);
    let function_interface = reference("lib.es5.d.ts", "Function", object(&[]));
    assert_eq!(typeof_tag_of(&function_interface), Some(TypeofTag::Function));
}

#[test]
fn typeof_tag_types() {
    assert_eq!(type_for_typeof_tag("string"), Some(Type::String));
    assert_eq!(type_for_typeof_tag("undefined"), Some(Type::Undefined));
    assert_eq!(type_for_typeof_tag("object"), None);
    assert_eq!(type_for_typeof_tag("nope"), None);
}

#[test]
fn typeof_keeps_undecidable_members_in_both_branches() {
    let union = union_of(vec![Type::String, Type::Any]);
    assert_eq!(narrow_union_by_typeof(&union, "number", true), Some(Type::Any));
    assert_eq!(narrow_union_by_typeof(&union, "string", false), Some(Type::Any));
}

#[test]
fn typeof_on_genuine_unknown_proves_the_tag_type() {
    assert_eq!(narrow_union_by_typeof(&Type::GenuineUnknown, "string", true), Some(Type::String));
    assert_eq!(narrow_union_by_typeof(&Type::Any, "number", true), Some(Type::Number));
}

#[test]
fn typeof_unmatched_tag_splits_by_primitiveness() {
    let array = Type::Array(Box::new(Type::Number));
    let union = union_of(vec![Type::String, array]);
    assert_eq!(
        narrow_union_by_typeof(&union, "Object", true),
        Some(Type::Array(Box::new(Type::Number)))
    );
    assert_eq!(narrow_union_by_typeof(&union, "Object", false), Some(Type::String));
}

#[test]
fn typeof_lone_primitive_ruled_out_is_never() {
    assert_eq!(narrow_union_by_typeof(&Type::String, "string", false), Some(Type::Never));
    assert_eq!(narrow_union_by_typeof(&Type::String, "string", true), None);
}

#[test]
fn arrayness_with_no_array_member_proves_any_array() {
    let union = union_of(vec![Type::String, Type::Number]);
    assert_eq!(
        narrow_union_by_arrayness(&union, true),
        Some(Type::Array(Box::new(Type::Any)))
    );
    assert_eq!(narrow_union_by_arrayness(&union, false), None);
}

#[test]
fn arrayness_classifies_members() {
    assert!(is_array_like_member(&Type::Tuple(vec![Type::String])));
    assert!(!is_array_like_member(&Type::String));
    let view = reference("lib.dom.d.ts", "Uint8Array", Type::Unknown);
    assert!(is_array_buffer_view_type(&view));
    let other = reference("lib.dom.d.ts", "ArrayBuffer", Type::Unknown);
    assert!(!is_array_buffer_view_type(&other));
}

#[test]
fn instanceof_matches_by_name() {
    let date = reference("lib.es5.d.ts", "Date", object(&[]));
    assert_eq!(instanceof_matches(&date, "Date"), Some(true));
    assert_eq!(instanceof_matches(&date, "Map"), Some(false));
    assert_eq!(instanceof_matches(&Type::String, "Date"), Some(false));
    assert_eq!(instanceof_matches(&Type::Any, "Date"), None);
}

#[test]
fn instanceof_narrows_a_union_by_constructor() {
    let date = reference("lib.es5.d.ts", "Date", object(&[]));
    let union = union_of(vec![lib::types::copy_type(&date), Type::String]);
    assert_eq!(narrow_union_by_instanceof(&union, "Date", true), Some(date));
    assert_eq!(narrow_union_by_instanceof(&union, "Date", false), Some(Type::String));
}

#[test]
fn instanceof_condition_parses() {
    let condition = binary(ident("x"), BinaryOperator::Instanceof, ident("Date"));
    let (operand, ctor) = parse_instanceof_condition(&condition).unwrap();
    assert!(matches!(operand, Expr::Identifier(name) if name == "x"));
    assert_eq!(ctor, "Date");
    assert!(parse_instanceof_condition(&ident("x")).is_none());
}

#[test]
fn nullish_strict_null_test_splits_a_union() {
    let union = union_of(vec![Type::String, Type::Null, Type::Undefined]);
    let test = NullishTest { null: true, undefined: false };
    assert_eq!(narrow_union_by_nullish(&union, true, test), Some(Type::Null));
    assert_eq!(
        narrow_union_by_nullish(&union, false, test),
        Some(union_of(vec![Type::String, Type::Undefined]))
    );
}

#[test]
fn nullish_loose_test_selects_both() {
    let union = union_of(vec![Type::String, Type::Null, Type::Undefined]);
    let test = NullishTest { null: true, undefined: true };
    assert_eq!(
        narrow_union_by_nullish(&union, true, test),
        Some(union_of(vec![Type::Null, Type::Undefined]))
    );
    assert_eq!(narrow_union_by_nullish(&union, false, test), Some(Type::String));
}

#[test]
fn nullish_lone_value_is_never_where_the_test_fails() {
    let test = NullishTest { null: true, undefined: false };
    assert_eq!(narrow_union_by_nullish(&Type::Null, false, test), Some(Type::Never));
    assert_eq!(narrow_union_by_nullish(&Type::Null, true, test), None);
    assert_eq!(narrow_union_by_nullish(&Type::String, false, test), None);
}

#[test]
fn nullish_condition_parses_either_side() {
    let condition = binary(Expr::NullLiteral, BinaryOperator::StrictNotEquals, ident("x"));
    let (subject, eq, test) = parse_nullish_equality_condition(&condition).unwrap();
    assert!(matches!(subject, Expr::Identifier(name) if name == "x"));
    assert!(!eq);
    assert_eq!(test, NullishTest { null: true, undefined: false });
    let loose = binary(ident("x"), BinaryOperator::Equals, Expr::UndefinedLiteral);
    let (_, eq, test) = parse_nullish_equality_condition(&loose).unwrap();
    assert!(eq);
    assert_eq!(test, NullishTest { null: true, undefined: true });
}

#[test]
fn literal_equality_narrows_a_wide_primitive() {
    let literal = Type::StringLiteral("a".to_string());
    assert_eq!(
        narrow_by_literal_equality(&Type::String, &literal, true),
        Some(Type::StringLiteral("a".to_string()))
    );
    assert_eq!(narrow_by_literal_equality(&Type::String, &literal, false), None);
    assert_eq!(narrow_by_literal_equality(&Type::Any, &literal, true), None);
}

#[test]
fn literal_equality_drops_the_literal_in_the_complement() {
    let union = union_of(vec![
        Type::StringLiteral("a".to_string()),
        Type::StringLiteral("b".to_string()),
    ]);
    let literal = Type::StringLiteral("a".to_string());
    assert_eq!(
        narrow_by_literal_equality(&union, &literal, false),
        Some(Type::StringLiteral("b".to_string()))
    );
    assert_eq!(
        narrow_by_literal_equality(&union, &literal, true),
        Some(Type::StringLiteral("a".to_string()))
    );
}

#[test]
fn literal_base_primitives() {
    assert_eq!(literal_base_primitive(&Type::NumberLiteral("1".to_string())), Some(Type::Number));
    assert_eq!(literal_base_primitive(&Type::BooleanLiteral(true)), Some(Type::Boolean));
    assert_eq!(literal_base_primitive(&Type::Null), None);
}

#[test]
fn identifier_literal_equality_parses() {
    let condition = binary(string_lit("a"), BinaryOperator::NotEquals, ident("v"));
    let (name, literal, eq) = parse_identifier_literal_equality(&condition, &empty_table()).unwrap();
    assert_eq!(name, "v");
    assert_eq!(literal, Type::StringLiteral("a".to_string()));
    assert!(!eq);
    let not_equality = binary(ident("v"), BinaryOperator::Less, string_lit("a"));
    assert!(parse_identifier_literal_equality(&not_equality, &empty_table()).is_none());
}

#[test]
fn property_presence_of_members() {
    let o = object(&[("a", Type::Number, false), ("b", Type::Number, true)]);
    assert!(matches!(property_presence_of(&o, "a"), PropertyPresence::Required));
    assert!(matches!(property_presence_of(&o, "b"), PropertyPresence::Optional));
    assert!(matches!(property_presence_of(&o, "c"), PropertyPresence::Absent));
    assert!(matches!(property_presence_of(&Type::String, "a"), PropertyPresence::Undecidable));
}

#[test]
fn in_adds_an_unknown_property_when_no_member_can_have_it() {
    let o = object(&[("a", Type::Number, false)]);
    let narrowed = narrow_union_by_property_presence(&o, "z", true).unwrap();
    assert_eq!(
        narrowed,
        object(&[("a", Type::Number, false), ("z", Type::GenuineUnknown, false)])
    );
    assert!(narrow_union_by_property_presence(&o, "z", false).is_none());
    assert!(narrow_union_by_property_presence(&o, "toString", true).is_none());
}

#[test]
fn object_prototype_members() {
    assert!(is_object_prototype_member("toString"));
    assert!(is_object_prototype_member("hasOwnProperty"));
    assert!(!is_object_prototype_member("length"));
}

#[test]
fn well_known_symbols_have_keys() {
    assert_eq!(well_known_symbol_key("iterator"), Some("[Symbol.iterator]"));
    assert_eq!(well_known_symbol_key("asyncIterator"), Some("[Symbol.asyncIterator]"));
    assert_eq!(well_known_symbol_key("nope"), None);
}

#[test]
fn in_condition_parses_the_property_name() {
    let condition = binary(string_lit("a"), BinaryOperator::In, ident("x"));
    let (object, property) = parse_in_condition(&condition).unwrap();
    assert!(matches!(object, Expr::Identifier(name) if name == "x"));
    assert_eq!(property, "a");
}

#[test]
fn equality_tests_parse_with_polarity() {
    let condition = binary(ident("a"), BinaryOperator::NotEquals, ident("b"));
    let test = parse_equality_test(&condition).unwrap();
    assert!(test.negated);
    assert!(test.double_equals);
    assert!(test.assume_true(false));
    assert!(!test.assume_true(true));
    let ((s1, v1), (s2, v2)) = test.operand_pairs();
    assert!(matches!(s1, Expr::Identifier(n) if n == "a"));
    assert!(matches!(v1, Expr::Identifier(n) if n == "b"));
    assert!(matches!(s2, Expr::Identifier(n) if n == "b"));
    assert!(matches!(v2, Expr::Identifier(n) if n == "a"));
    let strict = binary(ident("a"), BinaryOperator::StrictEquals, ident("b"));
    let test = parse_equality_test(&strict).unwrap();
    assert!(!test.negated && !test.double_equals);
    assert!(parse_equality_test(&binary(ident("a"), BinaryOperator::In, ident("b"))).is_none());
}

#[test]
fn reference_literal_equalities() {
    let read = Expr::OptionalPropertyAccess { object: Box::new(ident("filters")), property_name: "refetchType".to_string() };
    let c = binary(read, BinaryOperator::StrictEquals, Expr::StringLiteral("none".to_string()));
    let (reference, literal, eq) = parse_reference_literal_equality(&c).unwrap();
    assert!(matches!(reference, Expr::OptionalPropertyAccess { .. }));
    assert!(matches!(literal, Expr::StringLiteral(v) if v == "none"));
    assert!(eq);
    let flipped = binary(
        Expr::NumberLiteral("3".to_string()),
        BinaryOperator::NotEquals,
        Expr::PropertyAccess { object: Box::new(ident("o")), property_name: "n".to_string() },
    );
    let (reference, _, eq) = parse_reference_literal_equality(&flipped).unwrap();
    assert!(matches!(reference, Expr::PropertyAccess { .. }));
    assert!(!eq);
    assert!(parse_reference_literal_equality(&binary(ident("x"), BinaryOperator::StrictEquals, Expr::StringLiteral("a".to_string()))).is_none());
    let non_literal = binary(
        Expr::PropertyAccess { object: Box::new(ident("o")), property_name: "n".to_string() },
        BinaryOperator::StrictEquals,
        ident("y"),
    );
    assert!(parse_reference_literal_equality(&non_literal).is_none());
}
