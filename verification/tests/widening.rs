use lib::types::{ObjectProperty, ObjectType, Type};
use lib::widening::{normalize_object_literal_union, widen_nullable_type};

fn prop(name: &str, ty: Type, optional: bool) -> ObjectProperty {
    ObjectProperty { name: name.to_string(), ty, optional, readonly: false, method: false }
}

fn shape(properties: Vec<ObjectProperty>, alias: Option<&str>) -> Type {
    Type::Object(ObjectType {
        properties,
        string_index: None,
        callable: false,
        alias_name: alias.map(|a| a.to_string()),
        synthetic_open_index: false,
    })
}

#[test]
fn null_and_undefined_widen_to_any_without_strict_null_checks() {
    assert_eq!(widen_nullable_type(&Type::Null, false), Type::Any);
    assert_eq!(widen_nullable_type(&Type::Undefined, false), Type::Any);
    assert_eq!(widen_nullable_type(&Type::Number, false), Type::Number);
}

#[test]
fn strict_null_checks_keep_the_type() {
    assert_eq!(widen_nullable_type(&Type::Null, true), Type::Null);
    let array = Type::Array(Box::new(Type::Undefined));
    assert_eq!(widen_nullable_type(&array, true), array);
}

#[test]
fn array_and_tuple_elements_widen() {
    let array = Type::Array(Box::new(Type::Undefined));
    assert_eq!(widen_nullable_type(&array, false), Type::Array(Box::new(Type::Any)));
    let tuple = Type::Tuple(vec![Type::Null, Type::String]);
    assert_eq!(widen_nullable_type(&tuple, false), Type::Tuple(vec![Type::Any, Type::String]));
}

#[test]
fn anonymous_shape_with_a_null_property_widens_its_members() {
    let inner = shape(vec![prop("b", Type::Null, false)], None);
    let o = shape(vec![prop("a", Type::Null, false), prop("c", inner, true)], None);
    let widened_inner = shape(vec![prop("b", Type::Any, false)], None);
    let expected = shape(vec![prop("a", Type::Any, false), prop("c", widened_inner, true)], None);
    assert_eq!(widen_nullable_type(&o, false), expected);
}

#[test]
fn named_shape_and_shape_without_direct_null_are_kept() {
    let named = shape(vec![prop("a", Type::Null, false)], Some("Named"));
    assert_eq!(widen_nullable_type(&named, false), named);
    let nested = shape(
        vec![prop("a", shape(vec![prop("b", Type::Null, false)], None), false)],
        None,
    );
    assert_eq!(widen_nullable_type(&nested, false), nested);
}

#[test]
fn widening_twice_is_widening_once() {
    let o = shape(vec![prop("a", Type::Undefined, false)], None);
    let tuple = Type::Tuple(vec![Type::Null, o, Type::Array(Box::new(Type::Null))]);
    let once = widen_nullable_type(&tuple, false);
    let twice = widen_nullable_type(&once, false);
    assert_eq!(once, twice);
}

#[test]
fn object_literals_written_together_share_their_names() {
    let first = shape(vec![prop("a", Type::Number, false)], None);
    let second = shape(vec![prop("a", Type::Number, false), prop("b", Type::String, false)], None);
    let union = Type::Union(vec![first, second]);
    let expected = Type::Union(vec![
        shape(vec![prop("a", Type::Number, false), prop("b", Type::Undefined, true)], None),
        shape(vec![prop("a", Type::Number, false), prop("b", Type::String, false)], None),
    ]);
    assert_eq!(normalize_object_literal_union(&union), expected);
}

#[test]
fn a_single_written_literal_is_kept() {
    let union = Type::Union(vec![
        shape(vec![prop("a", Type::Number, false)], None),
        shape(vec![prop("b", Type::String, false)], Some("Named")),
        Type::Undefined,
    ]);
    assert_eq!(normalize_object_literal_union(&union), union);
    let lone = shape(vec![prop("a", Type::Number, false)], None);
    assert_eq!(normalize_object_literal_union(&lone), lone);
}

#[test]
fn other_members_are_kept_beside_normalized_literals() {
    let named = shape(vec![prop("z", Type::Boolean, false)], Some("Named"));
    let union = Type::Union(vec![
        shape(vec![prop("x", Type::Number, false)], None),
        named,
        shape(vec![prop("y", Type::String, false)], None),
        Type::Null,
    ]);
    let expected = Type::Union(vec![
        shape(vec![prop("x", Type::Number, false), prop("y", Type::Undefined, true)], None),
        shape(vec![prop("z", Type::Boolean, false)], Some("Named")),
        shape(vec![prop("y", Type::String, false), prop("x", Type::Undefined, true)], None),
        Type::Null,
    ]);
    assert_eq!(normalize_object_literal_union(&union), expected);
}

#[test]
fn array_of_written_literals_is_normalized_inside() {
    let union = Type::Union(vec![
        shape(vec![prop("a", Type::Number, false)], None),
        shape(vec![prop("b", Type::String, false)], None),
    ]);
    let expected = Type::Array(Box::new(Type::Union(vec![
        shape(vec![prop("a", Type::Number, false), prop("b", Type::Undefined, true)], None),
        shape(vec![prop("b", Type::String, false), prop("a", Type::Undefined, true)], None),
    ])));
    assert_eq!(normalize_object_literal_union(&Type::Array(Box::new(union))), expected);
}
