use lib::context::{
    CheckerContext, CheckerOptions, FileKind, JsxFactoryNames, JsxFactoryUses, JsxImplicitImport,
    JsxNamespace, JsxNamespaceModules,
};
use lib::jsx::{
    exported_jsx_namespace, global_jsx_namespace, global_jsx_namespace_exists,
    is_hyphenated_jsx_name, jsx_attributes_container_member, jsx_children_property_name,
    jsx_factory_namespace_name, jsx_namespace, namespace_is_visible, resolve_jsx_namespace,
    ChildrenPropertyName, ContainerMember, JsxMember,
};
use lib::jsx::{
    check_jsx_factory_reference, check_jsx_preconditions, check_jsx_runtime_import, FactoryMessage,
    FactoryReference, JsxReport,
};
use lib::syntax::TextSpan;
use lib::types::{ObjectProperty, ObjectType, Type};

fn ctx() -> CheckerContext {
    CheckerContext {
        options: CheckerOptions {
            no_unused_parameters: false,
            no_unused_locals: false,
            no_implicit_any: false,
            jsx_automatic_runtime: false,
            jsx_classic_react: false,
            jsx_emit_none: false,
            stub_external_modules: false,
            jsx_factory_names: JsxFactoryNames {
                factory: None,
                factory_root: None,
                react_namespace: None,
                fragment_factory_root: None,
            },
        },
        current_file_kind: FileKind::RootSource,
        file_name: "a.tsx".to_string(),
        jsx_namespace: None,
        jsx_namespace_modules: JsxNamespaceModules { implicit_imports: Vec::new(), umd_globals: Vec::new() },
        jsx_factory_uses: JsxFactoryUses { factory_pragma: None, fragment_pragma: None, first_tag: None },
        namespaces: Vec::new(),
        global_namespaces: Vec::new(),
        type_declarations: Vec::new(),
        type_declaration_scope: Vec::new(),
        ambient_global_type_declarations: Vec::new(),
        umd_global_value_names: Vec::new(),
        ambient_global_symbols: Vec::new(),
        unmodelled_jsx_props_depth: 0,
        degraded_expected_type_depth: 0,
        jsx_fragment_factory_resolved: false,
    }
}

fn qualified(n: &JsxNamespace) -> Option<&str> {
    match n {
        JsxNamespace::Qualified(p) => Some(p.as_str()),
        _ => None,
    }
}

fn object(names: &[&str], open: bool) -> Type {
    Type::Object(ObjectType {
        properties: names
            .iter()
            .map(|n| ObjectProperty {
                name: n.to_string(),
                ty: Type::Any,
                optional: false,
                readonly: false,
                method: false,
            })
            .collect(),
        string_index: None,
        callable: false,
        alias_name: None,
        synthetic_open_index: open,
    })
}

#[test]
fn factory_namespace_defaults_to_react() {
    let c = ctx();
    assert_eq!(jsx_factory_namespace_name(false, &c), "React");
    assert_eq!(jsx_factory_namespace_name(true, &c), "React");
}

#[test]
fn factory_namespace_reads_pragmas_and_options() {
    let mut c = ctx();
    c.options.jsx_factory_names.factory = Some("preact.h".to_string());
    c.options.jsx_factory_names.factory_root = Some("preact".to_string());
    assert_eq!(jsx_factory_namespace_name(false, &c), "preact");
    c.options.jsx_factory_names.factory_root = None;
    assert_eq!(jsx_factory_namespace_name(false, &c), "React");
    c.options.jsx_factory_names.factory = Some(String::new());
    c.options.jsx_factory_names.react_namespace = Some("MyReact".to_string());
    assert_eq!(jsx_factory_namespace_name(false, &c), "MyReact");
    c.jsx_factory_uses.factory_pragma = Some("h".to_string());
    assert_eq!(jsx_factory_namespace_name(false, &c), "h");
    // A fragment never reads the `@jsx` pragma.
    assert_eq!(jsx_factory_namespace_name(true, &c), "MyReact");
    c.options.jsx_factory_names.fragment_factory_root = Some("Frag".to_string());
    assert_eq!(jsx_factory_namespace_name(true, &c), "Frag");
    c.jsx_factory_uses.fragment_pragma = Some("F".to_string());
    assert_eq!(jsx_factory_namespace_name(true, &c), "F");
}

#[test]
fn namespace_visibility() {
    let mut c = ctx();
    assert!(!namespace_is_visible("React.JSX", &c));
    c.namespaces.push("React.JSX".to_string());
    assert!(namespace_is_visible("React.JSX", &c));
    let mut c = ctx();
    c.type_declarations.push("React.JSX.Element".to_string());
    assert!(namespace_is_visible("React.JSX", &c));
    assert!(!namespace_is_visible("React.JS", &c));
    let mut c = ctx();
    c.type_declaration_scope.push(vec!["Preact.JSX.Whatever".to_string()]);
    assert!(namespace_is_visible("Preact.JSX", &c));
    let mut c = ctx();
    c.ambient_global_type_declarations.push("X.JSX.IntrinsicElements".to_string());
    assert!(namespace_is_visible("X.JSX", &c));
}

#[test]
fn global_jsx_namespace_only_counts_globals() {
    let mut c = ctx();
    assert!(!global_jsx_namespace_exists(&c));
    assert!(matches!(global_jsx_namespace(&c), JsxNamespace::Missing));
    c.type_declarations.push("JSX.Element".to_string());
    assert!(!global_jsx_namespace_exists(&c));
    c.ambient_global_type_declarations.push("JSX.Element".to_string());
    assert!(global_jsx_namespace_exists(&c));
    assert_eq!(qualified(&global_jsx_namespace(&c)), Some("JSX"));
    let mut c = ctx();
    c.global_namespaces.push("JSX".to_string());
    assert!(global_jsx_namespace_exists(&c));
}

#[test]
fn exported_namespace_is_declared_jsx() {
    match exported_jsx_namespace(42) {
        JsxNamespace::Declared { exports, prefix } => {
            assert_eq!(exports, 42);
            assert_eq!(prefix, "JSX");
        }
        _ => panic!("a module's JSX is declared"),
    }
}

#[test]
fn resolution_prefers_the_implicit_runtime() {
    let mut c = ctx();
    c.jsx_namespace_modules.implicit_imports.push(("a.tsx".to_string(), JsxImplicitImport::Resolved(Some(9))));
    c.namespaces.push("React.JSX".to_string());
    assert!(matches!(resolve_jsx_namespace(&c), JsxNamespace::Declared { exports: 9, .. }));
    let mut c = ctx();
    c.jsx_namespace_modules.implicit_imports.push(("a.tsx".to_string(), JsxImplicitImport::Resolved(None)));
    c.global_namespaces.push("JSX".to_string());
    assert_eq!(qualified(&resolve_jsx_namespace(&c)), Some("JSX"));
    // Another file's runtime is not this file's.
    let mut c = ctx();
    c.jsx_namespace_modules.implicit_imports.push(("b.tsx".to_string(), JsxImplicitImport::Resolved(Some(9))));
    c.jsx_namespace_modules.implicit_imports.push(("a.tsx".to_string(), JsxImplicitImport::Untyped));
    assert!(matches!(resolve_jsx_namespace(&c), JsxNamespace::Missing));
}

#[test]
fn resolution_reads_the_factory_namespace() {
    let mut c = ctx();
    c.namespaces.push("React.JSX".to_string());
    assert_eq!(qualified(&resolve_jsx_namespace(&c)), Some("React.JSX"));
}

#[test]
fn resolution_reads_a_umd_global() {
    let mut c = ctx();
    c.umd_global_value_names.push("React".to_string());
    assert!(matches!(resolve_jsx_namespace(&c), JsxNamespace::Unmodelled));
    c.jsx_namespace_modules.umd_globals.push(("React".to_string(), Some(3)));
    assert!(matches!(resolve_jsx_namespace(&c), JsxNamespace::Declared { exports: 3, .. }));
    let mut c = ctx();
    c.umd_global_value_names.push("React".to_string());
    c.jsx_namespace_modules.umd_globals.push(("React".to_string(), None));
    assert!(matches!(resolve_jsx_namespace(&c), JsxNamespace::Missing));
}

#[test]
fn jsx_namespace_is_cached_per_file() {
    let mut c = ctx();
    c.global_namespaces.push("JSX".to_string());
    assert_eq!(qualified(&jsx_namespace(&mut c)), Some("JSX"));
    // The cached answer stands though the declarations change.
    c.global_namespaces.clear();
    assert_eq!(qualified(&jsx_namespace(&mut c)), Some("JSX"));
    // Another file resolves afresh.
    c.file_name = "b.tsx".to_string();
    assert!(matches!(jsx_namespace(&mut c), JsxNamespace::Missing));
}

#[test]
fn attributes_container_members() {
    assert!(matches!(
        jsx_attributes_container_member(&JsxMember::Found(object(&[], false))),
        ContainerMember::Empty
    ));
    match jsx_attributes_container_member(&JsxMember::Found(object(&["kids"], false))) {
        ContainerMember::Name(n) => assert_eq!(n, "kids"),
        _ => panic!("one member names the property"),
    }
    assert!(matches!(
        jsx_attributes_container_member(&JsxMember::Found(object(&["a", "b"], false))),
        ContainerMember::Missing
    ));
    assert!(matches!(
        jsx_attributes_container_member(&JsxMember::Found(object(&["a"], true))),
        ContainerMember::Unmodelled
    ));
    assert!(matches!(
        jsx_attributes_container_member(&JsxMember::Found(Type::String)),
        ContainerMember::Unmodelled
    ));
    assert!(matches!(jsx_attributes_container_member(&JsxMember::Missing), ContainerMember::Missing));
}

#[test]
fn children_property_name() {
    let mut c = ctx();
    match jsx_children_property_name(&c, &JsxMember::Found(object(&["kids"], false))) {
        ChildrenPropertyName::Name(n) => assert_eq!(n, "kids"),
        _ => panic!("the container names it"),
    }
    assert!(matches!(
        jsx_children_property_name(&c, &JsxMember::Unmodelled),
        ChildrenPropertyName::Unmodelled
    ));
    c.options.jsx_automatic_runtime = true;
    match jsx_children_property_name(&c, &JsxMember::Missing) {
        ChildrenPropertyName::Name(n) => assert_eq!(n, "children"),
        _ => panic!("the automatic runtime fixes it"),
    }
}

#[test]
fn hyphenated_names() {
    assert!(is_hyphenated_jsx_name("data-id"));
    assert!(is_hyphenated_jsx_name("aria-label"));
    assert!(!is_hyphenated_jsx_name("onClick"));
}

fn at(start: u32) -> Option<TextSpan> {
    Some(TextSpan { start, end: start + 3 })
}

fn reference(name: &str, start: u32, message: FactoryMessage) -> FactoryReference {
    FactoryReference { name: name.to_string(), span: at(start), message }
}

#[test]
fn factory_references_need_the_classic_runtime() {
    let mut c = ctx();
    assert!(check_jsx_factory_reference(false, at(1), None, &mut c).is_empty());
    c.options.jsx_classic_react = true;
    c.jsx_namespace_modules.implicit_imports.push(("a.tsx".to_string(), JsxImplicitImport::Resolved(None)));
    assert!(check_jsx_factory_reference(true, at(1), None, &mut c).is_empty());
    assert!(!c.jsx_fragment_factory_resolved);
}

#[test]
fn an_element_references_its_factory_namespace() {
    let mut c = ctx();
    c.options.jsx_classic_react = true;
    let refs = check_jsx_factory_reference(false, None, at(7), &mut c);
    assert_eq!(refs, vec![reference("React", 7, FactoryMessage::ElementFactory)]);
    c.jsx_factory_uses.factory_pragma = Some("h".to_string());
    let refs = check_jsx_factory_reference(false, at(2), at(7), &mut c);
    assert_eq!(refs, vec![reference("h", 2, FactoryMessage::ElementFactory)]);
    assert!(!c.jsx_fragment_factory_resolved);
}

#[test]
fn a_fragment_resolves_its_factory_once_more_the_first_time() {
    let mut c = ctx();
    c.options.jsx_classic_react = true;
    c.jsx_factory_uses.factory_pragma = Some("h".to_string());
    c.jsx_factory_uses.fragment_pragma = Some("Fragment".to_string());
    let refs = check_jsx_factory_reference(true, at(4), None, &mut c);
    assert_eq!(
        refs,
        vec![
            reference("Fragment", 4, FactoryMessage::ElementFactory),
            reference("Fragment", 4, FactoryMessage::FragmentFactory),
            reference("h", 4, FactoryMessage::ElementFactory),
        ]
    );
    assert!(c.jsx_fragment_factory_resolved);
    let refs = check_jsx_factory_reference(true, at(9), None, &mut c);
    assert_eq!(
        refs,
        vec![reference("Fragment", 9, FactoryMessage::ElementFactory), reference("h", 9, FactoryMessage::ElementFactory)]
    );
}

#[test]
fn a_null_fragment_factory_names_no_binding() {
    let mut c = ctx();
    c.options.jsx_classic_react = true;
    c.options.jsx_factory_names.fragment_factory_root = Some("null".to_string());
    let refs = check_jsx_factory_reference(true, at(4), None, &mut c);
    assert_eq!(refs, vec![reference("React", 4, FactoryMessage::ElementFactory)]);
    assert!(!c.jsx_fragment_factory_resolved);
}

#[test]
fn a_fragment_of_the_same_namespace_references_it_once() {
    let mut c = ctx();
    c.options.jsx_classic_react = true;
    c.jsx_fragment_factory_resolved = true;
    let refs = check_jsx_factory_reference(true, at(4), None, &mut c);
    assert_eq!(refs, vec![reference("React", 4, FactoryMessage::ElementFactory)]);
}

#[test]
fn jsx_without_a_jsx_option_is_reported() {
    let mut c = ctx();
    assert_eq!(check_jsx_preconditions(at(1), at(5), &c), None);
    c.options.jsx_emit_none = true;
    assert_eq!(check_jsx_preconditions(None, at(5), &c), Some(JsxReport::MissingJsxOption { span: at(5) }));
}

#[test]
fn an_unresolved_runtime_import_is_reported_at_the_first_tag() {
    let mut c = ctx();
    c.jsx_namespace_modules
        .implicit_imports
        .push(("a.tsx".to_string(), JsxImplicitImport::NotFound("preact/jsx-runtime".to_string())));
    assert_eq!(check_jsx_runtime_import(&c, false), None);
    c.jsx_factory_uses.first_tag = Some(TextSpan { start: 3, end: 4 });
    assert_eq!(
        check_jsx_runtime_import(&c, false),
        Some(JsxReport::RuntimeImportNotFound {
            specifier: "preact/jsx-runtime".to_string(),
            span: TextSpan { start: 3, end: 4 },
        })
    );
    c.options.stub_external_modules = true;
    assert_eq!(check_jsx_runtime_import(&c, true), None);
    assert!(check_jsx_runtime_import(&c, false).is_some());
    c.file_name = "b.tsx".to_string();
    assert_eq!(check_jsx_runtime_import(&c, false), None);
}
