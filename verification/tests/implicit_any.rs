use lib::context::{
    CheckerContext, CheckerOptions, FileKind, JsxFactoryNames, JsxFactoryUses, JsxNamespaceModules,
};
use lib::implicit_any::{
    emit_array_binding_pattern_diagnostics, emit_object_binding_pattern_diagnostics, emit_parameter_diagnostics,
    ImplicitAnyReport,
};
use lib::parameters::{
    ArrayBindingPattern, BindingName, FunctionParameter, ObjectBindingElement, ObjectBindingPattern,
};
use lib::syntax::TextSpan;
use lib::types::Type;

fn span(start: u32) -> Option<TextSpan> {
    Some(TextSpan { start, end: start + 1 })
}

fn ctx(no_implicit_any: bool, jsx_depth: usize) -> CheckerContext {
    CheckerContext {
        options: CheckerOptions {
            no_unused_parameters: false,
            no_unused_locals: false,
            no_implicit_any,
            jsx_automatic_runtime: false,
            jsx_classic_react: false,
            jsx_emit_none: false,
            stub_external_modules: false,
            jsx_factory_names: JsxFactoryNames {
                factory: None,
                factory_root: None,
                react_namespace: None,
                fragment_factory_root: None,
            },
        },
        current_file_kind: FileKind::RootSource,
        file_name: "a.ts".to_string(),
        jsx_namespace: None,
        jsx_namespace_modules: JsxNamespaceModules { implicit_imports: Vec::new(), umd_globals: Vec::new() },
        jsx_factory_uses: JsxFactoryUses { factory_pragma: None, fragment_pragma: None, first_tag: None },
        namespaces: Vec::new(),
        global_namespaces: Vec::new(),
        type_declarations: Vec::new(),
        type_declaration_scope: Vec::new(),
        ambient_global_type_declarations: Vec::new(),
        umd_global_value_names: Vec::new(),
        ambient_global_symbols: Vec::new(),
        unmodelled_jsx_props_depth: jsx_depth,
        degraded_expected_type_depth: 0,
        jsx_fragment_factory_resolved: false,
    }
}

fn name(n: &str, at: u32) -> BindingName {
    BindingName::Identifier { name: n.to_string(), span: span(at) }
}

fn parameter(binding: BindingName) -> FunctionParameter {
    FunctionParameter { binding_name: binding, has_declared_type: false, optional: false, has_initializer: false, rest: false }
}

fn binding(n: &str, at: u32) -> ImplicitAnyReport {
    ImplicitAnyReport::Binding { name: n.to_string(), span: span(at) }
}

#[test]
fn untyped_parameter_is_implicitly_any() {
    let mut out = Vec::new();
    emit_parameter_diagnostics(&parameter(name("x", 1)), None, false, &ctx(true, 0), &mut out);
    assert_eq!(out, vec![ImplicitAnyReport::Parameter { name: "x".to_string(), span: span(1) }]);
}

#[test]
fn exemptions_report_nothing() {
    let mut out = Vec::new();
    emit_parameter_diagnostics(&parameter(name("x", 1)), None, false, &ctx(false, 0), &mut out);
    emit_parameter_diagnostics(&parameter(name("x", 1)), Some(&Type::String), false, &ctx(true, 0), &mut out);
    emit_parameter_diagnostics(&parameter(name("x", 1)), None, false, &ctx(true, 2), &mut out);
    let mut annotated = parameter(name("x", 1));
    annotated.has_declared_type = true;
    emit_parameter_diagnostics(&annotated, None, false, &ctx(true, 0), &mut out);
    let mut defaulted = parameter(name("x", 1));
    defaulted.has_initializer = true;
    emit_parameter_diagnostics(&defaulted, None, false, &ctx(true, 0), &mut out);
    emit_parameter_diagnostics(&parameter(BindingName::Unsupported), None, false, &ctx(true, 0), &mut out);
    assert!(out.is_empty());
    emit_parameter_diagnostics(&parameter(name("x", 1)), None, true, &ctx(true, 2), &mut out);
    assert_eq!(out.len(), 1);
}

#[test]
fn pattern_bindings_are_implicitly_any() {
    let inner = ArrayBindingPattern { elements: vec![Some(name("c", 3)), None, Some(name("d", 4))], rest: None, span: span(40) };
    let pattern = ObjectBindingPattern {
        elements: vec![
            ObjectBindingElement { binding_name: name("a", 1), shorthand: true, name_span: span(90) },
            ObjectBindingElement {
                binding_name: BindingName::Identifier { name: "b".to_string(), span: None },
                shorthand: false,
                name_span: span(91),
            },
            ObjectBindingElement { binding_name: BindingName::ArrayPattern(inner), shorthand: false, name_span: span(92) },
        ],
        rest: Some(Box::new(name("rest", 5))),
        span: span(50),
    };
    let mut out = Vec::new();
    emit_object_binding_pattern_diagnostics(&pattern, &mut out);
    assert_eq!(out, vec![binding("a", 1), binding("b", 91), binding("c", 3), binding("d", 4)]);
    let mut through_parameter = Vec::new();
    emit_parameter_diagnostics(&parameter(BindingName::ObjectPattern(pattern)), None, false, &ctx(true, 0), &mut through_parameter);
    assert_eq!(through_parameter, out);
}

#[test]
fn array_pattern_rest_is_not_reported() {
    let pattern = ArrayBindingPattern { elements: vec![Some(name("a", 1))], rest: Some(Box::new(name("r", 2))), span: span(40) };
    let mut out = Vec::new();
    emit_array_binding_pattern_diagnostics(&pattern, &mut out);
    assert_eq!(out, vec![binding("a", 1)]);
}
