use lib::guards::arrayness::{narrow_union_by_arraybufferview, narrow_union_by_arrayness};
use lib::guards::property_presence::narrow_union_by_property_presence;
use lib::guards::typeof_guard::narrow_union_by_typeof;
use lib::types::{copy_type, union_of, ObjectProperty, ObjectType, Type, TypeReference};

fn union3() -> Type {
    union_of(vec![
        Type::String,
        Type::Number,
        Type::Array(Box::new(Type::Number)),
    ])
}

#[test]
fn typeof_keeps_matching_member_in_true_branch() {
    let narrowed = narrow_union_by_typeof(&union3(), "number", true).unwrap();
    assert_eq!(narrowed, Type::Number);
}

#[test]
fn typeof_removes_matching_member_in_false_branch() {
    let narrowed = narrow_union_by_typeof(&union3(), "string", false).unwrap();
    assert_eq!(
        narrowed,
        union_of(vec![Type::Number, Type::Array(Box::new(Type::Number))])
    );
}

#[test]
fn arrayness_keeps_array_member_in_true_branch() {
    let narrowed = narrow_union_by_arrayness(&union3(), true).unwrap();
    assert_eq!(narrowed, Type::Array(Box::new(Type::Number)));
}

#[test]
fn arrayness_removes_array_member_in_false_branch() {
    let narrowed = narrow_union_by_arrayness(&union3(), false).unwrap();
    assert_eq!(narrowed, union_of(vec![Type::String, Type::Number]));
}

#[test]
fn narrowing_returns_none_when_nothing_changes() {
    // A non-union type is never narrowed.
    assert!(narrow_union_by_arrayness(&Type::String, true).is_none());
}

#[test]
fn typeof_narrows_an_unreachable_branch_to_never() {
    // No member has tag "boolean", so nothing can reach the true branch.
    assert_eq!(
        narrow_union_by_typeof(&union3(), "boolean", true),
        Some(Type::Never)
    );
}

fn view_reference(display: &str) -> Type {
    let name = display.split('<').next().unwrap();
    Type::Reference(TypeReference {
        id: format!("lib.dom.d.ts\u{0}{}", name),
        display: display.to_string(),
        target: Box::new(Type::Unknown),
        enum_owner: false,
        readonly_array: false,
    })
}

#[test]
fn arraybufferview_keeps_view_members_in_true_branch() {
    let union = union_of(vec![
        view_reference("ArrayBufferView<ArrayBuffer>"),
        view_reference("ArrayBuffer"),
        Type::String,
    ]);
    let narrowed = narrow_union_by_arraybufferview(&union, true).unwrap();
    assert_eq!(narrowed, view_reference("ArrayBufferView<ArrayBuffer>"));
}

#[test]
fn arraybufferview_removes_view_members_in_false_branch() {
    let union = union_of(vec![
        view_reference("Int8Array"),
        view_reference("ArrayBuffer"),
        Type::String,
    ]);
    let narrowed = narrow_union_by_arraybufferview(&union, false).unwrap();
    assert_eq!(
        narrowed,
        union_of(vec![view_reference("ArrayBuffer"), Type::String])
    );
}

fn object(properties: &[(&str, bool)]) -> Type {
    let mut props = Vec::new();
    for (name, optional) in properties {
        props.push(ObjectProperty {
            name: (*name).to_string(),
            ty: Type::Number,
            optional: *optional,
            readonly: false,
            method: false,
        });
    }
    Type::Object(ObjectType {
        properties: props,
        string_index: None,
        callable: false,
        alias_name: None,
        synthetic_open_index: false,
    })
}

fn named_reference(display: &str, target: Type) -> Type {
    Type::Reference(TypeReference {
        id: format!("test.ts\u{0}{display}"),
        display: display.to_string(),
        target: Box::new(target),
        enum_owner: false,
        readonly_array: false,
    })
}

#[test]
fn property_presence_narrows_through_nominal_references() {
    let named = named_reference("Named", object(&[("a", false)]));
    let other = named_reference("Other", object(&[("b", false)]));
    let union = union_of(vec![copy_type(&named), copy_type(&other)]);

    assert_eq!(
        narrow_union_by_property_presence(&union, "a", true).unwrap(),
        named
    );
    assert_eq!(
        narrow_union_by_property_presence(&union, "a", false).unwrap(),
        other
    );
}

#[test]
fn property_presence_flattens_an_alias_to_a_union() {
    let o1 = object(&[("in", false), ("key", false)]);
    let o2 = object(&[("key", false), ("map", false)]);
    let field = named_reference("Field", union_of(vec![copy_type(&o1), copy_type(&o2)]));
    let fields = named_reference("Fields", object(&[("fields", false)]));
    let union = union_of(vec![copy_type(&field), copy_type(&fields)]);

    assert_eq!(
        narrow_union_by_property_presence(&union, "in", true).unwrap(),
        o1
    );
    assert_eq!(
        narrow_union_by_property_presence(&union, "in", false).unwrap(),
        union_of(vec![o2, fields])
    );
    // Every constituent of `Field` has `key`, so the nominal wrapper survives
    // intact rather than being spliced into its constituents.
    assert_eq!(
        narrow_union_by_property_presence(&union, "key", true).unwrap(),
        field
    );
}

#[test]
fn property_presence_narrows_an_alias_to_a_union_at_the_top_level() {
    let o1 = object(&[("in", false)]);
    let o2 = object(&[("map", false)]);
    let field = named_reference("Field", union_of(vec![copy_type(&o1), copy_type(&o2)]));

    assert_eq!(
        narrow_union_by_property_presence(&field, "map", true).unwrap(),
        o2
    );
    assert_eq!(
        narrow_union_by_property_presence(&field, "map", false).unwrap(),
        o1
    );
}

#[test]
fn property_presence_retains_an_optional_member_in_the_false_branch() {
    let optional = object(&[("a", true), ("z", false)]);
    let without = object(&[("b", false)]);
    let union = union_of(vec![copy_type(&optional), copy_type(&without)]);

    assert_eq!(
        narrow_union_by_property_presence(&union, "a", true).unwrap(),
        optional
    );
    assert!(narrow_union_by_property_presence(&union, "a", false).is_none());
}

#[test]
fn property_presence_keeps_undecidable_members() {
    let indexed = || {
        Type::Object(ObjectType {
            properties: Vec::new(),
            string_index: Some(Box::new(Type::Number)),
            callable: false,
            alias_name: None,
            synthetic_open_index: false,
        })
    };
    let union = union_of(vec![indexed(), Type::String]);
    assert!(narrow_union_by_property_presence(&union, "a", true).is_none());
    assert!(narrow_union_by_property_presence(&union, "a", false).is_none());

    // A decidably-absent member alongside them still goes in the true branch.
    let with_absent = union_of(vec![indexed(), Type::String, object(&[("b", false)])]);
    assert_eq!(
        narrow_union_by_property_presence(&with_absent, "a", true).unwrap(),
        union
    );
}
