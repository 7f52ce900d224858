use lib::body::{BodyStatement, SwitchCase};
use lib::context::{
    CheckerContext, CheckerOptions, FileKind, JsxFactoryNames, JsxFactoryUses, JsxNamespaceModules,
};
use lib::parameters::{
    ArrayBindingPattern, BindingName, FunctionParameter, ObjectBindingElement, ObjectBindingPattern,
};
use lib::syntax::TextSpan;
use lib::unused::{
    collect_local_type_declarations, collect_local_var_declarations, emit_unused_array_pattern_bindings,
    emit_unused_locals, emit_unused_object_pattern_bindings, emit_unused_parameters, report_pattern_group,
    UnusedReport,
};

fn span(start: u32) -> Option<TextSpan> {
    Some(TextSpan { start, end: start + 1 })
}

fn ctx(no_unused_locals: bool, kind: FileKind) -> CheckerContext {
    CheckerContext {
        options: CheckerOptions {
            no_unused_parameters: true,
            no_unused_locals,
            no_implicit_any: false,
            jsx_automatic_runtime: false,
            jsx_classic_react: false,
            jsx_emit_none: false,
            stub_external_modules: false,
            jsx_factory_names: JsxFactoryNames {
                factory: None,
                factory_root: None,
                react_namespace: None,
                fragment_factory_root: None,
            },
        },
        current_file_kind: kind,
        file_name: "a.ts".to_string(),
        jsx_namespace: None,
        jsx_namespace_modules: JsxNamespaceModules { implicit_imports: Vec::new(), umd_globals: Vec::new() },
        jsx_factory_uses: JsxFactoryUses { factory_pragma: None, fragment_pragma: None, first_tag: None },
        namespaces: Vec::new(),
        global_namespaces: Vec::new(),
        type_declarations: Vec::new(),
        type_declaration_scope: Vec::new(),
        ambient_global_type_declarations: Vec::new(),
        umd_global_value_names: Vec::new(),
        ambient_global_symbols: Vec::new(),
        unmodelled_jsx_props_depth: 0,
        degraded_expected_type_depth: 0,
        jsx_fragment_factory_resolved: false,
    }
}

fn reads(v: &[&str]) -> Vec<String> {
    let mut r: Vec<String> = v.iter().map(|s| s.to_string()).collect();
    r.sort();
    r
}

fn name(n: &str, at: u32) -> BindingName {
    BindingName::Identifier { name: n.to_string(), span: span(at) }
}

fn element(binding: BindingName, shorthand: bool) -> ObjectBindingElement {
    ObjectBindingElement { binding_name: binding, shorthand, name_span: span(99) }
}

fn unused(n: &str, at: u32) -> UnusedReport {
    UnusedReport::Unused { name: n.to_string(), span: span(at) }
}

fn var(n: &str, at: u32) -> BodyStatement {
    BodyStatement::VariableDeclaration {
        name: n.to_string(),
        name_span: span(at),
        is_declare: false,
        from_binding_pattern: false,
    }
}

fn parameter(binding: BindingName) -> FunctionParameter {
    FunctionParameter { binding_name: binding, has_declared_type: true, optional: false, has_initializer: false, rest: false }
}

#[test]
fn unread_parameters_are_reported() {
    let parameters = vec![
        parameter(name("this", 1)),
        parameter(name("used", 2)),
        parameter(name("_ignored", 3)),
        parameter(name("idle", 4)),
        parameter(BindingName::Unsupported),
    ];
    let mut out = Vec::new();
    emit_unused_parameters(&parameters, &reads(&["used"]), &mut out);
    assert_eq!(out, vec![unused("idle", 4)]);
}

#[test]
fn a_pattern_whose_elements_are_all_unused_is_one_report() {
    let pattern = ObjectBindingPattern {
        elements: vec![element(name("a", 1), true), element(name("b", 2), true)],
        rest: None,
        span: span(50),
    };
    let mut out = Vec::new();
    emit_unused_object_pattern_bindings(&pattern, &reads(&[]), &mut out);
    assert_eq!(out, vec![UnusedReport::AllDestructuredUnused { span: span(50) }]);
    let mut partly = Vec::new();
    emit_unused_object_pattern_bindings(&pattern, &reads(&["b"]), &mut partly);
    assert_eq!(partly, vec![unused("a", 1)]);
}

#[test]
fn a_single_unused_element_is_named() {
    let pattern = ObjectBindingPattern { elements: vec![element(name("a", 1), true)], rest: None, span: span(50) };
    let mut out = Vec::new();
    emit_unused_object_pattern_bindings(&pattern, &reads(&[]), &mut out);
    assert_eq!(out, vec![unused("a", 1)]);
}

#[test]
fn object_rest_keeps_its_siblings_and_renamed_underscore_is_spared() {
    let with_rest = ObjectBindingPattern {
        elements: vec![element(name("a", 1), true), element(name("b", 2), true)],
        rest: Some(Box::new(name("rest", 3))),
        span: span(50),
    };
    let mut out = Vec::new();
    emit_unused_object_pattern_bindings(&with_rest, &reads(&[]), &mut out);
    assert_eq!(out, vec![unused("rest", 3)]);
    let renamed = ObjectBindingPattern {
        elements: vec![element(name("_a", 1), false), element(name("_b", 2), true), element(name("c", 3), true)],
        rest: Some(Box::new(name("_rest", 4))),
        span: span(50),
    };
    let mut out = Vec::new();
    emit_unused_object_pattern_bindings(&renamed, &reads(&["c"]), &mut out);
    assert_eq!(out, vec![unused("_rest", 4)]);
}

#[test]
fn element_without_its_own_span_points_at_the_property() {
    let pattern = ObjectBindingPattern {
        elements: vec![
            element(BindingName::Identifier { name: "a".to_string(), span: None }, false),
            element(name("b", 2), true),
        ],
        rest: None,
        span: span(50),
    };
    let mut out = Vec::new();
    emit_unused_object_pattern_bindings(&pattern, &reads(&["b"]), &mut out);
    assert_eq!(out, vec![unused("a", 99)]);
}

#[test]
fn array_patterns_skip_holes_and_spare_underscores() {
    let pattern = ArrayBindingPattern {
        elements: vec![Some(name("a", 1)), None, Some(name("_b", 2))],
        rest: Some(Box::new(name("_rest", 3))),
        span: span(60),
    };
    let mut out = Vec::new();
    emit_unused_array_pattern_bindings(&pattern, &reads(&[]), &mut out);
    assert_eq!(out, vec![unused("a", 1)]);
    let all = ArrayBindingPattern { elements: vec![Some(name("a", 1)), Some(name("b", 2))], rest: None, span: span(60) };
    let mut out = Vec::new();
    emit_unused_array_pattern_bindings(&all, &reads(&[]), &mut out);
    assert_eq!(out, vec![UnusedReport::AllDestructuredUnused { span: span(60) }]);
}

#[test]
fn nested_patterns_report_before_their_parent_group() {
    let inner = ArrayBindingPattern { elements: vec![Some(name("x", 5)), Some(name("y", 6))], rest: None, span: span(70) };
    let outer = ObjectBindingPattern {
        elements: vec![element(BindingName::ArrayPattern(inner), false), element(name("a", 1), true), element(name("b", 2), true)],
        rest: None,
        span: span(50),
    };
    let mut out = Vec::new();
    emit_unused_parameters(&vec![parameter(BindingName::ObjectPattern(outer))], &reads(&["b"]), &mut out);
    assert_eq!(out, vec![UnusedReport::AllDestructuredUnused { span: span(70) }, unused("a", 1)]);
}

#[test]
fn pattern_group_counts_the_rest() {
    let unused_pair = vec![("a".to_string(), span(1)), ("b".to_string(), span(2))];
    let mut out = Vec::new();
    report_pattern_group(unused_pair.clone(), 1, true, span(9), &mut out);
    assert_eq!(out, vec![UnusedReport::AllDestructuredUnused { span: span(9) }]);
    let mut out = Vec::new();
    report_pattern_group(unused_pair, 3, false, span(9), &mut out);
    assert_eq!(out, vec![unused("a", 1), unused("b", 2)]);
    let mut out = Vec::new();
    report_pattern_group(vec![], 0, false, span(9), &mut out);
    assert!(out.is_empty());
}

fn body() -> Vec<BodyStatement> {
    vec![
        var("top", 1),
        BodyStatement::VariableDeclaration { name: "declared".to_string(), name_span: span(2), is_declare: true, from_binding_pattern: false },
        BodyStatement::VariableDeclaration { name: "_skip".to_string(), name_span: span(3), is_declare: false, from_binding_pattern: true },
        BodyStatement::VariableDeclaration { name: "_kept".to_string(), name_span: span(4), is_declare: false, from_binding_pattern: false },
        BodyStatement::If { then_body: vec![var("inThen", 5)], else_body: vec![BodyStatement::Block(vec![var("inElse", 6)])] },
        BodyStatement::While { body: vec![var("inWhile", 7)] },
        BodyStatement::ForOf { body: vec![BodyStatement::TypeAlias { name: "Alias".to_string(), name_span: span(8), is_declare: false }] },
        BodyStatement::Switch { cases: vec![SwitchCase { has_test: true, consequent: vec![var("inCase", 9)] }] },
        BodyStatement::Try {
            block: vec![var("inTry", 10)],
            handler: Some(vec![BodyStatement::Interface { name: "Shape".to_string(), name_span: span(11), is_declare: false }]),
            finalizer: vec![var("inFinally", 12), BodyStatement::Interface { name: "Ambient".to_string(), name_span: span(13), is_declare: true }],
        },
        BodyStatement::Other,
    ]
}

#[test]
fn local_declarations_are_collected_through_nesting() {
    let mut vars = Vec::new();
    collect_local_var_declarations(&body(), &mut vars);
    let names: Vec<&str> = vars.iter().map(|(n, _)| n.as_str()).collect();
    assert_eq!(names, vec!["top", "_kept", "inThen", "inElse", "inWhile", "inCase", "inTry", "inFinally"]);
    let mut types = Vec::new();
    collect_local_type_declarations(&body(), &mut types);
    assert_eq!(types, vec![("Alias".to_string(), span(8)), ("Shape".to_string(), span(11))]);
}

#[test]
fn unused_locals_are_reported_when_the_option_is_on() {
    let read = reads(&["top", "inThen", "inElse", "inWhile", "inCase", "inTry", "Shape"]);
    let mut out = Vec::new();
    emit_unused_locals(&body(), &read, &ctx(true, FileKind::RootSource), &mut out);
    assert_eq!(
        out,
        vec![
            unused("_kept", 4),
            unused("inFinally", 12),
            UnusedReport::UnusedType { name: "Alias".to_string(), span: span(8) },
        ]
    );
    let mut off = Vec::new();
    emit_unused_locals(&body(), &read, &ctx(false, FileKind::RootSource), &mut off);
    assert!(off.is_empty());
    let mut declaration_file = Vec::new();
    emit_unused_locals(&body(), &read, &ctx(true, FileKind::Declaration), &mut declaration_file);
    assert!(declaration_file.is_empty());
}
