use lib::parameters::{
    array_binding_element_type, function_signature_info, has_contextual_unknown_object_binding_pattern,
    parameter_identifier_name, parameter_scope_type,
    required_parameter_count,
    written_binding_names, ArrayBindingPattern, BindingName, FunctionParameter, ObjectBindingPattern,
};
use lib::symbols::TypePredicate;
use lib::types::Type;

fn param(name: &str) -> FunctionParameter {
    FunctionParameter {
        binding_name: BindingName::Identifier { name: name.to_string(), span: None },
        has_declared_type: true,
        optional: false,
        has_initializer: false,
        rest: false,
    }
}

fn pattern(object: bool, annotated: bool) -> FunctionParameter {
    FunctionParameter {
        binding_name: if object {
            BindingName::ObjectPattern(ObjectBindingPattern { elements: vec![], rest: None, span: None })
        } else {
            BindingName::ArrayPattern(ArrayBindingPattern { elements: vec![], rest: None, span: None })
        },
        has_declared_type: annotated,
        optional: false,
        has_initializer: false,
        rest: false,
    }
}

#[test]
fn required_count_stops_at_the_last_required_parameter() {
    let mut optional = param("b");
    optional.optional = true;
    let mut defaulted = param("c");
    defaulted.has_initializer = true;
    let mut rest = param("d");
    rest.rest = true;
    assert_eq!(required_parameter_count(&vec![param("a"), optional, defaulted, rest]), 1);
    assert_eq!(required_parameter_count(&vec![]), 0);
    let mut first_optional = param("a");
    first_optional.optional = true;
    assert_eq!(required_parameter_count(&vec![first_optional, param("b")]), 2);
    let mut only_rest = param("xs");
    only_rest.rest = true;
    assert_eq!(required_parameter_count(&vec![only_rest]), 0);
}

#[test]
fn written_names_leave_patterns_unnamed() {
    let names = written_binding_names(&vec![param("a"), pattern(true, false), pattern(false, true)]);
    assert_eq!(names, vec![Some("a".to_string()), None, None]);
}

#[test]
fn unknown_context_for_an_unannotated_object_pattern() {
    let parameters = vec![param("a"), pattern(true, false)];
    let unknown = vec![Type::String, Type::GenuineUnknown];
    assert!(has_contextual_unknown_object_binding_pattern(&parameters, Some(&unknown)));
    let sentinel = vec![Type::String, Type::Unknown];
    assert!(!has_contextual_unknown_object_binding_pattern(&parameters, Some(&sentinel)));
    assert!(!has_contextual_unknown_object_binding_pattern(&parameters, None));
    let annotated = vec![param("a"), pattern(true, true)];
    assert!(!has_contextual_unknown_object_binding_pattern(&annotated, Some(&unknown)));
    let array = vec![param("a"), pattern(false, false)];
    assert!(!has_contextual_unknown_object_binding_pattern(&array, Some(&unknown)));
    let short = vec![Type::String];
    assert!(!has_contextual_unknown_object_binding_pattern(&parameters, Some(&short)));
}

#[test]
fn collected_signature() {
    let mut rest = param("xs");
    rest.rest = true;
    let predicate = TypePredicate { asserts: false, parameter_name: "xs".to_string(), has_type: true };
    let info = function_signature_info(
        &vec!["T".to_string()],
        &vec![pattern(true, true), rest],
        Some(predicate),
        "a.ts",
    );
    assert!(!info.overloaded);
    assert_eq!(info.type_parameter_count, 1);
    assert_eq!(info.parameter_names, vec![None, Some("xs".to_string())]);
    assert!(info.rest);
    assert_eq!(info.predicate.as_ref().map(|p| p.parameter_name.as_str()), Some("xs"));
    assert_eq!(info.declaring_file.as_deref(), Some("a.ts"));
    assert!(info.predicate_overload.is_none());
    assert!(info.overload_alternatives.is_empty());
    let bare = function_signature_info(&vec![], &vec![], None, "b.ts");
    assert!(!bare.rest);
    assert_eq!(bare.type_parameter_count, 0);
}

#[test]
fn parameter_types_inside_the_body() {
    let mut optional = param("a");
    optional.optional = true;
    assert_eq!(parameter_scope_type(&optional, &Type::String), Type::Union(vec![Type::String, Type::Undefined]));
    let mut defaulted = param("b");
    defaulted.optional = true;
    defaulted.has_initializer = true;
    assert_eq!(parameter_scope_type(&defaulted, &Type::String), Type::String);
    assert_eq!(parameter_scope_type(&param("c"), &Type::Number), Type::Number);
    assert_eq!(parameter_scope_type(&pattern(true, true), &Type::Number), Type::Number);
    let unsupported = FunctionParameter {
        binding_name: BindingName::Unsupported,
        has_declared_type: false,
        optional: false,
        has_initializer: false,
        rest: false,
    };
    assert_eq!(parameter_scope_type(&unsupported, &Type::Number), Type::Any);
}

#[test]
fn identifier_names_and_array_element_types() {
    assert_eq!(parameter_identifier_name(&param("a")), Some("a"));
    assert_eq!(parameter_identifier_name(&pattern(true, false)), None);
    let tuple = Type::Tuple(vec![Type::String, Type::Number]);
    assert_eq!(array_binding_element_type(&tuple, 1), Type::Number);
    assert_eq!(array_binding_element_type(&tuple, 2), Type::Undefined);
    assert_eq!(array_binding_element_type(&Type::Array(Box::new(Type::Boolean)), 7), Type::Boolean);
    assert_eq!(array_binding_element_type(&Type::String, 0), Type::Any);
}
