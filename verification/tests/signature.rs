use lib::context::{
    CheckerContext, CheckerOptions, FileKind, JsxFactoryNames, JsxFactoryUses, JsxNamespaceModules,
};
use lib::predicate::predicate_signature_of;
use lib::reference::is_unnarrowable_binding;
use lib::signature::{
    attach_overload_alternative, attach_predicate_overload, body_reads_name,
    debug_assert_reads_sorted, reads_are_sorted, declares_type_predicate, mark_overloaded,
    should_track_unused_parameters, MAX_ALTERNATIVES,
};
use lib::symbols::{FunctionSignatureInfo, SymbolInfo, SymbolKind, TypePredicate};
use lib::types::Type;

fn signature(types: usize, predicate: Option<TypePredicate>) -> FunctionSignatureInfo {
    FunctionSignatureInfo {
        overloaded: false,
        type_parameter_count: types,
        parameter_names: vec![Some("v".to_string())],
        rest: false,
        predicate,
        declaring_file: None,
        predicate_overload: None,
        overload_alternatives: Vec::new(),
    }
}

fn is_predicate(asserts: bool, has_type: bool) -> Option<TypePredicate> {
    Some(TypePredicate { asserts, parameter_name: "v".to_string(), has_type })
}

fn ctx(no_unused_parameters: bool, kind: FileKind) -> CheckerContext {
    CheckerContext {
        options: CheckerOptions {
            no_unused_parameters,
            no_unused_locals: false,
            no_implicit_any: false,
            jsx_automatic_runtime: false,
            jsx_classic_react: false,
            jsx_emit_none: false,
            stub_external_modules: false,
            jsx_factory_names: JsxFactoryNames {
                factory: None,
                factory_root: None,
                react_namespace: None,
                fragment_factory_root: None,
            },
        },
        current_file_kind: kind,
        file_name: "a.ts".to_string(),
        jsx_namespace: None,
        jsx_namespace_modules: JsxNamespaceModules { implicit_imports: Vec::new(), umd_globals: Vec::new() },
        jsx_factory_uses: JsxFactoryUses { factory_pragma: None, fragment_pragma: None, first_tag: None },
        namespaces: Vec::new(),
        global_namespaces: Vec::new(),
        type_declarations: Vec::new(),
        type_declaration_scope: Vec::new(),
        ambient_global_type_declarations: Vec::new(),
        umd_global_value_names: Vec::new(),
        ambient_global_symbols: Vec::new(),
        unmodelled_jsx_props_depth: 0,
        degraded_expected_type_depth: 0,
        jsx_fragment_factory_resolved: false,
    }
}

fn strings(v: &[&str]) -> Vec<String> {
    v.iter().map(|s| s.to_string()).collect()
}

#[test]
fn type_predicates_are_declared_by_is_clauses_only() {
    assert!(declares_type_predicate(&signature(0, is_predicate(false, true))));
    assert!(!declares_type_predicate(&signature(0, is_predicate(true, true))));
    assert!(!declares_type_predicate(&signature(0, is_predicate(false, false))));
    assert!(!declares_type_predicate(&signature(0, None)));
}

#[test]
fn the_first_predicate_overload_is_carried() {
    let kept = signature(0, None);
    let incoming = signature(1, is_predicate(false, true));
    let carried = attach_predicate_overload(Some(kept), Some(&incoming)).unwrap();
    let overload = carried.predicate_overload.as_ref().unwrap();
    assert_eq!(overload.type_parameter_count, 1);
    // A later predicate overload does not replace it.
    let later = signature(2, is_predicate(false, true));
    let again = attach_predicate_overload(Some(carried), Some(&later)).unwrap();
    assert_eq!(again.predicate_overload.as_ref().unwrap().type_parameter_count, 1);
}

#[test]
fn predicate_overloads_need_a_predicate_and_a_kept_signature() {
    let plain = signature(3, None);
    let kept = attach_predicate_overload(Some(signature(0, None)), Some(&plain)).unwrap();
    assert!(kept.predicate_overload.is_none());
    let own = attach_predicate_overload(Some(signature(0, is_predicate(false, true))), Some(&signature(5, is_predicate(false, true)))).unwrap();
    assert!(own.predicate_overload.is_none());
    assert!(attach_predicate_overload(None, Some(&plain)).is_none());
    let alone = attach_predicate_overload(Some(signature(4, None)), None).unwrap();
    assert_eq!(alone.type_parameter_count, 4);
}

#[test]
fn overload_alternatives_are_bounded() {
    let mut kept = Some(signature(0, None));
    for i in 0..10 {
        let incoming = signature(i + 1, None);
        kept = attach_overload_alternative(kept, Some(&incoming));
    }
    let kept = kept.unwrap();
    assert_eq!(kept.overload_alternatives.len(), MAX_ALTERNATIVES);
    assert_eq!(kept.overload_alternatives[0].type_parameter_count, 1);
    assert_eq!(kept.overload_alternatives[5].type_parameter_count, 6);
    assert!(attach_overload_alternative(Some(signature(0, None)), None).is_none());
    assert!(attach_overload_alternative(None, Some(&signature(0, None))).is_none());
}

#[test]
fn overload_templates_are_flagged() {
    let flagged = mark_overloaded(Some(signature(2, None))).unwrap();
    assert!(flagged.overloaded);
    assert_eq!(flagged.type_parameter_count, 2);
    assert!(mark_overloaded(Some(flagged)).unwrap().overloaded);
    assert!(mark_overloaded(None).is_none());
}

#[test]
fn unused_parameters_are_tracked_in_root_sources() {
    assert!(should_track_unused_parameters(&ctx(true, FileKind::RootSource)));
    assert!(!should_track_unused_parameters(&ctx(true, FileKind::Declaration)));
    assert!(!should_track_unused_parameters(&ctx(false, FileKind::RootSource)));
}

#[test]
fn body_reads_are_binary_searched() {
    let reads = strings(&["a", "ab", "b", "value", "zeta"]);
    assert!(reads_are_sorted(&reads));
    debug_assert_reads_sorted(&reads);
    assert!(body_reads_name(&reads, "a"));
    assert!(body_reads_name(&reads, "value"));
    assert!(body_reads_name(&reads, "zeta"));
    assert!(!body_reads_name(&reads, "abc"));
    assert!(!body_reads_name(&reads, ""));
    assert!(!body_reads_name(&reads, "zz"));
    assert!(!body_reads_name(&Vec::new(), "a"));
}

#[test]
fn read_lists_must_be_strictly_sorted() {
    assert!(reads_are_sorted(&Vec::new()));
    assert!(reads_are_sorted(&strings(&["x"])));
    assert!(!reads_are_sorted(&strings(&["b", "a"])));
    assert!(!reads_are_sorted(&strings(&["a", "a"])));
    assert!(reads_are_sorted(&strings(&["Z", "a", "\u{e9}"])));
}

#[test]
fn predicate_signature_prefers_the_declaration() {
    let declared = SymbolInfo {
        ty: Type::Function,
        kind: SymbolKind::Function,
        function_signature: Some(signature(1, None)),
    };
    let written = signature(2, is_predicate(false, true));
    assert_eq!(predicate_signature_of(&declared, Some(written)).unwrap().type_parameter_count, 1);
    let value = SymbolInfo { ty: Type::Function, kind: SymbolKind::Const, function_signature: None };
    let written = signature(2, is_predicate(false, true));
    assert_eq!(predicate_signature_of(&value, Some(written)).unwrap().type_parameter_count, 2);
    assert!(predicate_signature_of(&value, None).is_none());
}

#[test]
fn function_declarations_are_not_narrowed() {
    let function = SymbolInfo { ty: Type::Function, kind: SymbolKind::Function, function_signature: None };
    assert!(is_unnarrowable_binding(&function, &Vec::new()));
    assert!(!is_unnarrowable_binding(&function, &strings(&["p"])));
    let value = SymbolInfo { ty: Type::Function, kind: SymbolKind::Const, function_signature: None };
    assert!(!is_unnarrowable_binding(&value, &Vec::new()));
}
