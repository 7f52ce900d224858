use lib::jsx_props::{
    child_contextual_type, common_optional_properties, component_is_unmodelled, discriminate_members,
    is_excess_property_check_target, is_possibly_discriminant_value, JsxAttribute, JsxAttributeValueKind,
    attribute_contextual_type, attribute_target_type, member_property_type, has_array_like_member,
    has_non_array_like_member, is_discriminant_property, is_literal_type, is_primitive_type,
    is_unmodelled_member, is_unmodelled_props, optional_aware_property_type,
    type_contains_unknown_or_any,
};
use lib::syntax::Expr;
use lib::types::{union_of, ObjectProperty, ObjectType, Type, TypeReference};

fn object(properties: Vec<(&str, Type, bool)>, open: bool) -> Type {
    Type::Object(ObjectType {
        properties: properties
            .into_iter()
            .map(|(name, ty, optional)| ObjectProperty {
                name: name.to_string(),
                ty,
                optional,
                readonly: false,
                method: false,
            })
            .collect(),
        string_index: None,
        callable: false,
        alias_name: None,
        synthetic_open_index: open,
    })
}

fn named(target: Type) -> Type {
    Type::Reference(TypeReference {
        id: "t.ts\u{0}N".to_string(),
        display: "N".to_string(),
        target: Box::new(target),
        enum_owner: false,
        readonly_array: false,
    })
}

fn lit(s: &str) -> Type {
    Type::StringLiteral(s.to_string())
}

#[test]
fn unmodelled_props_and_members() {
    assert!(is_unmodelled_props(&Type::Unknown));
    assert!(is_unmodelled_props(&named(Type::TypeParameter("P".to_string()))));
    assert!(!is_unmodelled_props(&Type::GenuineUnknown));
    assert!(!is_unmodelled_props(&Type::ErrorType));
    assert!(component_is_unmodelled(&Type::Unknown));
    assert!(!component_is_unmodelled(&Type::Any));
    assert!(is_unmodelled_member(&object(vec![], true)));
    assert!(!is_unmodelled_member(&object(vec![], false)));
    assert!(is_unmodelled_member(&Type::Unknown));
}

#[test]
fn literal_and_primitive_types() {
    assert!(is_literal_type(&Type::Boolean));
    assert!(is_literal_type(&lit("a")));
    assert!(is_literal_type(&union_of(vec![lit("a"), Type::Null])));
    assert!(!is_literal_type(&union_of(vec![lit("a"), Type::String])));
    assert!(!is_literal_type(&Type::String));
    assert!(is_primitive_type(&Type::Never));
    assert!(is_primitive_type(&lit("a")));
    assert!(!is_primitive_type(&Type::Function));
}

#[test]
fn unknown_or_any_inside_unions() {
    assert!(type_contains_unknown_or_any(&Type::Any));
    assert!(type_contains_unknown_or_any(&union_of(vec![Type::String, Type::GenuineUnknown])));
    assert!(!type_contains_unknown_or_any(&union_of(vec![Type::String, Type::Number])));
    assert!(!type_contains_unknown_or_any(&named(Type::Any)));
}

#[test]
fn optional_props_admit_undefined() {
    let optional = ObjectProperty { name: "p".to_string(), ty: Type::String, optional: true, readonly: false, method: false };
    assert_eq!(optional_aware_property_type(&optional), union_of(vec![Type::String, Type::Undefined]));
    let required = ObjectProperty { name: "p".to_string(), ty: Type::String, optional: false, readonly: false, method: false };
    assert_eq!(optional_aware_property_type(&required), Type::String);
}

#[test]
fn array_like_children() {
    let array = Type::Array(Box::new(Type::String));
    assert!(has_array_like_member(&union_of(vec![Type::String, Type::Array(Box::new(Type::String))]), false));
    assert!(!has_non_array_like_member(&array, false));
    assert!(has_non_array_like_member(&Type::String, false));
    assert!(!has_non_array_like_member(&Type::String, true));
    let iterable = object(vec![("[Symbol.iterator]", Type::Function, false)], false);
    assert!(!has_non_array_like_member(&iterable, true));
    assert!(has_non_array_like_member(&iterable, false));
    assert!(!has_array_like_member(&Type::Number, true));
}

#[test]
fn discriminant_properties() {
    let a = object(vec![("kind", lit("a"), false), ("x", Type::Number, false)], false);
    let b = object(vec![("kind", lit("b"), false), ("x", Type::Number, false)], false);
    let members = vec![a, named(b), Type::Null];
    assert!(is_discriminant_property(&members, "kind"));
    assert!(!is_discriminant_property(&members, "x"));
    assert!(!is_discriminant_property(&members, "missing"));
}

#[test]
fn common_optional_properties_of_a_union() {
    let a = object(vec![("p", Type::Number, true), ("q", Type::Number, false), ("r", Type::Number, false)], false);
    let b = object(vec![("q", Type::Number, false), ("p", Type::Number, false), ("r", Type::Number, true)], false);
    let c = object(vec![("p", Type::Number, false), ("r", Type::Number, false)], false);
    let names = common_optional_properties(&vec![a, Type::String, b, c]);
    assert_eq!(names, vec!["p".to_string(), "r".to_string()]);
    assert!(common_optional_properties(&vec![Type::String]).is_empty());
}

#[test]
fn discriminator_drops_members_that_do_not_admit_the_value() {
    let a = object(vec![("kind", lit("a"), false)], false);
    let b = object(vec![("kind", lit("b"), false)], false);
    let members = vec![a, b];
    let kept = discriminate_members(&members, &vec![vec![Some(true), Some(false)]]);
    assert_eq!(kept, Some(vec![object(vec![("kind", lit("a"), false)], false)]));
}

#[test]
fn discriminator_nobody_admits_drops_nothing() {
    let members = vec![
        object(vec![("kind", lit("a"), false)], false),
        object(vec![("kind", lit("b"), false)], false),
    ];
    assert_eq!(discriminate_members(&members, &vec![vec![Some(false), Some(false)]]), None);
    assert_eq!(discriminate_members(&members, &vec![vec![Some(true), Some(true)]]), None);
}

#[test]
fn member_without_the_property_is_not_dropped() {
    let members = vec![
        object(vec![("other", Type::Number, false)], false),
        object(vec![("kind", lit("b"), false)], false),
    ];
    assert_eq!(discriminate_members(&members, &vec![vec![None, Some(true)]]), None);
}

#[test]
fn non_object_members_are_dropped() {
    let members = vec![object(vec![("kind", lit("a"), false)], false), Type::String];
    assert_eq!(
        discriminate_members(&members, &vec![]),
        Some(vec![object(vec![("kind", lit("a"), false)], false)])
    );
    assert_eq!(discriminate_members(&vec![Type::String], &vec![]), None);
    let named_array = named(Type::Array(Box::new(Type::Number)));
    assert_eq!(discriminate_members(&vec![named_array], &vec![]), None);
}

#[test]
fn discriminators_apply_in_turn() {
    let a = object(vec![("kind", lit("a"), false)], false);
    let b = object(vec![("kind", lit("b"), false)], false);
    let c = object(vec![("kind", lit("c"), false)], false);
    let members = vec![a, b, c];
    let table = vec![vec![Some(true), Some(true), Some(false)], vec![Some(false), Some(true), None]];
    assert_eq!(
        discriminate_members(&members, &table),
        Some(vec![object(vec![("kind", lit("b"), false)], false)])
    );
}

fn aliased(alias: &str) -> Type {
    Type::Object(ObjectType {
        properties: vec![],
        string_index: None,
        callable: false,
        alias_name: Some(alias.to_string()),
        synthetic_open_index: false,
    })
}

#[test]
fn child_contextual_types() {
    assert_eq!(child_contextual_type(&Type::Array(Box::new(Type::String)), 3), Type::String);
    let tuple = Type::Tuple(vec![Type::String, Type::Number]);
    assert_eq!(child_contextual_type(&tuple, 1), Type::Number);
    assert_eq!(child_contextual_type(&tuple, 5), Type::Undefined);
    let union = Type::Union(vec![Type::Array(Box::new(Type::String)), Type::Tuple(vec![Type::Number])]);
    assert_eq!(child_contextual_type(&union, 0), Type::Union(vec![Type::String, Type::Number]));
    assert_eq!(child_contextual_type(&union, 1), Type::Union(vec![Type::String, Type::Undefined]));
    assert_eq!(child_contextual_type(&named(Type::Array(Box::new(Type::Boolean))), 0), Type::Boolean);
    assert_eq!(child_contextual_type(&Type::String, 0), Type::String);
}

#[test]
fn excess_property_check_targets() {
    assert!(is_excess_property_check_target(&object(vec![("a", Type::String, false)], false)));
    assert!(!is_excess_property_check_target(&aliased("Object")));
    assert!(is_excess_property_check_target(&aliased("Props")));
    assert!(is_excess_property_check_target(&Type::Function));
    assert!(is_excess_property_check_target(&Type::Array(Box::new(Type::Number))));
    assert!(!is_excess_property_check_target(&Type::String));
    let with_named = Type::Union(vec![Type::String, named(object(vec![], false))]);
    assert!(is_excess_property_check_target(&with_named));
    assert!(!is_excess_property_check_target(&Type::Union(vec![Type::String, Type::Number])));
    assert!(!is_excess_property_check_target(&named(object(vec![], false))));
}

fn indexed(index: Type, open: bool) -> Type {
    Type::Object(ObjectType {
        properties: vec![],
        string_index: Some(Box::new(index)),
        callable: false,
        alias_name: None,
        synthetic_open_index: open,
    })
}

#[test]
fn attribute_targets_read_a_prop_or_the_index() {
    let props = object(vec![("title", Type::String, false), ("count", Type::Number, true)], false);
    assert_eq!(attribute_target_type(&props, "title"), Some(Type::String));
    assert_eq!(
        attribute_target_type(&props, "count"),
        Some(Type::Union(vec![Type::Number, Type::Undefined]))
    );
    assert_eq!(attribute_target_type(&props, "other"), None);
    assert_eq!(attribute_target_type(&indexed(Type::Boolean, false), "any"), Some(Type::Boolean));
    assert_eq!(attribute_target_type(&named(props), "title"), None);
    let member = named(object(vec![("kind", lit("a"), false)], false));
    assert_eq!(member_property_type(&member, "kind"), Some(lit("a")));
    assert_eq!(member_property_type(&Type::String, "kind"), None);
}

#[test]
fn attribute_contextual_types_join_over_a_union() {
    let a = object(vec![("kind", lit("a"), false)], false);
    let b = object(vec![("kind", lit("b"), true)], false);
    let union = Type::Union(vec![a, b, Type::String]);
    assert_eq!(
        attribute_contextual_type(&union, "kind"),
        Some(Type::Union(vec![lit("a"), lit("b"), Type::Undefined]))
    );
    assert_eq!(attribute_contextual_type(&union, "missing"), None);
    assert_eq!(attribute_contextual_type(&Type::Any, "kind"), None);
}

#[test]
fn open_index_gives_the_unmodelled_sentinel() {
    assert_eq!(attribute_contextual_type(&indexed(Type::Number, true), "x"), Some(Type::Unknown));
    assert_eq!(attribute_contextual_type(&indexed(Type::Number, false), "x"), Some(Type::Number));
    let declared = object(vec![("x", Type::String, false)], true);
    assert_eq!(attribute_contextual_type(&named(declared), "x"), Some(Type::String));
}

fn attribute(value_kind: JsxAttributeValueKind, value: Option<Expr>) -> JsxAttribute {
    JsxAttribute { name: "kind".to_string(), value_kind, value }
}

#[test]
fn possibly_discriminant_attribute_values() {
    assert!(is_possibly_discriminant_value(&attribute(JsxAttributeValueKind::BooleanShorthand, None)));
    assert!(is_possibly_discriminant_value(&attribute(JsxAttributeValueKind::StringLiteral("a".to_string()), None)));
    assert!(is_possibly_discriminant_value(&attribute(JsxAttributeValueKind::Expression, None)));
    let member = Expr::PropertyAccess {
        object: Box::new(Expr::Identifier("Kind".to_string())),
        property_name: "A".to_string(),
    };
    assert!(is_possibly_discriminant_value(&attribute(JsxAttributeValueKind::Expression, Some(member))));
    let call = Expr::Call { callee_name: "f".to_string(), type_argument_count: 0, arguments: vec![] };
    assert!(!is_possibly_discriminant_value(&attribute(JsxAttributeValueKind::Expression, Some(call))));
    assert!(is_possibly_discriminant_value(&attribute(JsxAttributeValueKind::Expression, Some(Expr::TemplateLiteral))));
}
