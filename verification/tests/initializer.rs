use lib::context::{CheckerContext, CheckerOptions, FileKind, JsxFactoryNames, JsxFactoryUses, JsxNamespaceModules};
use lib::initializer::{
    check_variable_declaration_against_symbols, initializer_type_is_fresh, is_auto_array_candidate,
    VariableCheckOptions, is_symbol_constructor_call, report_redeclared_var_type,
    writes_object_literal_union, VariableDeclaration, VariableReport,
};
use lib::ops::InferredExpression;
use lib::symbols::{SymbolEntry, SymbolInfo, SymbolKind, SymbolTable};
use lib::syntax::{ArrayLiteralElement, Expr, LogicalOperator, TextSpan};
use lib::types::Type;


fn ident(name: &str) -> Expr {
    Expr::Identifier(name.to_string())
}

fn conditional(when_true: Expr, when_false: Expr) -> Expr {
    Expr::Conditional { condition: Box::new(ident("c")), when_true: Box::new(when_true), when_false: Box::new(when_false) }
}

fn array(elements: Vec<(Expr, bool)>) -> Expr {
    Expr::ArrayLiteral {
        elements: elements.into_iter().map(|(expression, spread)| ArrayLiteralElement { expression, spread }).collect(),
    }
}

#[test]
fn fresh_initializers() {
    assert!(initializer_type_is_fresh(&Expr::StringLiteral("a".to_string())));
    assert!(initializer_type_is_fresh(&Expr::BigIntLiteral("1n".to_string())));
    assert!(initializer_type_is_fresh(&Expr::ObjectLiteral));
    assert!(initializer_type_is_fresh(&array(vec![])));
    assert!(initializer_type_is_fresh(&conditional(Expr::NullLiteral, Expr::TemplateLiteral)));
    assert!(!initializer_type_is_fresh(&conditional(Expr::NullLiteral, ident("x"))));
    let coalesced = Expr::Logical {
        left: Box::new(Expr::UndefinedLiteral),
        operator: LogicalOperator::Coalesce,
        right: Box::new(Expr::NumberLiteral("1".to_string())),
    };
    assert!(initializer_type_is_fresh(&coalesced));
    assert!(!initializer_type_is_fresh(&ident("x")));
}

#[test]
fn object_literals_written_together() {
    assert!(writes_object_literal_union(&conditional(Expr::ObjectLiteral, Expr::ObjectLiteral)));
    assert!(!writes_object_literal_union(&conditional(Expr::ObjectLiteral, ident("x"))));
    assert!(!writes_object_literal_union(&Expr::ObjectLiteral));
    assert!(writes_object_literal_union(&array(vec![(Expr::ObjectLiteral, false), (Expr::ObjectLiteral, false)])));
    assert!(!writes_object_literal_union(&array(vec![(Expr::ObjectLiteral, false), (Expr::ObjectLiteral, true)])));
    let indexed = Expr::ElementAccess {
        object: Box::new(array(vec![(Expr::ObjectLiteral, false), (conditional(Expr::ObjectLiteral, Expr::ObjectLiteral), false)])),
        index: Box::new(Expr::NumberLiteral("0".to_string())),
    };
    assert!(writes_object_literal_union(&indexed));
}

#[test]
fn symbol_constructor_calls() {
    let call = Expr::Call { callee_name: "Symbol".to_string(), type_argument_count: 0, arguments: vec![] };
    assert!(is_symbol_constructor_call(&call));
    let for_call = Expr::PropertyCall { type_argument_count: 0, object: Box::new(ident("Symbol")), property_name: "for".to_string(), arguments: vec![] };
    assert!(is_symbol_constructor_call(&for_call));
    let other = Expr::PropertyCall { type_argument_count: 0, object: Box::new(ident("Symbol")), property_name: "keyFor".to_string(), arguments: vec![] };
    assert!(!is_symbol_constructor_call(&other));
    let not_symbol = Expr::Call { callee_name: "symbol".to_string(), type_argument_count: 0, arguments: vec![] };
    assert!(!is_symbol_constructor_call(&not_symbol));
}

fn ctx(no_implicit_any: bool) -> CheckerContext {
    CheckerContext {
        options: CheckerOptions {
            no_unused_parameters: true,
            no_unused_locals: false,
            no_implicit_any,
            jsx_automatic_runtime: false,
            jsx_classic_react: false,
            jsx_emit_none: false,
            stub_external_modules: false,
            jsx_factory_names: JsxFactoryNames {
                factory: None,
                factory_root: None,
                react_namespace: None,
                fragment_factory_root: None,
            },
        },
        current_file_kind: FileKind::RootSource,
        file_name: "a.ts".to_string(),
        jsx_namespace: None,
        jsx_namespace_modules: JsxNamespaceModules { implicit_imports: Vec::new(), umd_globals: Vec::new() },
        jsx_factory_uses: JsxFactoryUses { factory_pragma: None, fragment_pragma: None, first_tag: None },
        namespaces: Vec::new(),
        global_namespaces: Vec::new(),
        type_declarations: Vec::new(),
        type_declaration_scope: Vec::new(),
        ambient_global_type_declarations: Vec::new(),
        umd_global_value_names: Vec::new(),
        ambient_global_symbols: Vec::new(),
        unmodelled_jsx_props_depth: 0,
        degraded_expected_type_depth: 0,
        jsx_fragment_factory_resolved: false,
    }
}

fn declaration(initializer: Option<Expr>) -> VariableDeclaration {
    VariableDeclaration {
        name: "xs".to_string(),
        name_span: None,
        kind: SymbolKind::Let,
        is_declare: false,
        has_declared_type: false,
        initializer,
        initializer_span: None,
        from_binding_pattern: false,
        array_pattern_span: None,
    }
}

#[test]
fn empty_array_initializers_evolve_under_no_implicit_any() {
    let d = declaration(Some(Expr::ArrayLiteral { elements: Vec::new() }));
    assert!(is_auto_array_candidate(&d, &ctx(true)));
    assert!(!is_auto_array_candidate(&d, &ctx(false)));
    let mut annotated = declaration(Some(Expr::ArrayLiteral { elements: Vec::new() }));
    annotated.has_declared_type = true;
    assert!(!is_auto_array_candidate(&annotated, &ctx(true)));
    let mut destructured = declaration(Some(Expr::ArrayLiteral { elements: Vec::new() }));
    destructured.from_binding_pattern = true;
    assert!(!is_auto_array_candidate(&destructured, &ctx(true)));
    let mut ambient = declaration(Some(Expr::ArrayLiteral { elements: Vec::new() }));
    ambient.is_declare = true;
    assert!(!is_auto_array_candidate(&ambient, &ctx(true)));
    assert!(!is_auto_array_candidate(&declaration(Some(array(vec![(ident("a"), false)]))), &ctx(true)));
    assert!(!is_auto_array_candidate(&declaration(None), &ctx(true)));
}

fn symbol(ty: Type, kind: SymbolKind) -> SymbolInfo {
    SymbolInfo { ty, kind, function_signature: None }
}

#[test]
fn a_var_redeclared_with_another_type_is_reported() {
    let span = Some(TextSpan { start: 4, end: 5 });
    let current = symbol(Type::String, SymbolKind::Var);
    let previous = symbol(Type::Number, SymbolKind::Var);
    assert_eq!(
        report_redeclared_var_type("x", span, &current, Some(&previous)),
        Some(VariableReport::RedeclaredVarType {
            name: "x".to_string(),
            previous: Type::Number,
            current: Type::String,
            span,
        })
    );
    assert_eq!(report_redeclared_var_type("x", span, &current, Some(&symbol(Type::String, SymbolKind::Var))), None);
    assert_eq!(report_redeclared_var_type("x", span, &current, Some(&symbol(Type::Unknown, SymbolKind::Var))), None);
    assert_eq!(report_redeclared_var_type("x", span, &current, Some(&symbol(Type::Number, SymbolKind::Let))), None);
    assert_eq!(report_redeclared_var_type("x", span, &symbol(Type::String, SymbolKind::Let), Some(&previous)), None);
    assert_eq!(report_redeclared_var_type("x", span, &current, None), None);
}

fn bound(name: &str, ty: Type, kind: SymbolKind) -> SymbolTable {
    SymbolTable {
        entries: vec![SymbolEntry { name: name.to_string(), info: SymbolInfo { ty, kind, function_signature: None } }],
        narrowed: Vec::new(),
    }
}

fn checking() -> VariableCheckOptions {
    VariableCheckOptions { report_duplicate_let_const: true, check_initializer: true }
}

#[test]
fn a_let_redeclared_in_scope_is_reported() {
    let span = Some(TextSpan { start: 4, end: 6 });
    let mut d = declaration(Some(Expr::NumberLiteral("1".to_string())));
    d.name_span = span;
    let symbols = bound("xs", Type::Number, SymbolKind::Const);
    let (reports, symbol) = check_variable_declaration_against_symbols(
        &d,
        &symbols,
        &ctx(false),
        &checking(),
        None,
        InferredExpression::Known(Type::NumberLiteral("1".to_string())),
        Type::Number,
        Type::Unknown,
        None,
        None,
        None,
        false,
    );
    assert_eq!(reports, vec![VariableReport::RedeclaredBlockScoped { name: "xs".to_string(), span }]);
    assert_eq!(symbol.ty, Type::Number);
    let mut c = ctx(false);
    c.ambient_global_symbols.push("xs".to_string());
    let (reports, _) = check_variable_declaration_against_symbols(
        &d,
        &symbols,
        &c,
        &checking(),
        None,
        InferredExpression::Unknown,
        Type::Number,
        Type::Unknown,
        None,
        None,
        None,
        false,
    );
    assert!(reports.is_empty());
}

#[test]
fn a_binding_takes_its_annotation_else_what_its_initializer_gives() {
    let d = declaration(Some(ident("f")));
    let empty = SymbolTable { entries: Vec::new(), narrowed: Vec::new() };
    let check = |declared: Option<Type>, inferred: InferredExpression, flowing: Option<Type>| {
        check_variable_declaration_against_symbols(
            &d, &empty, &ctx(false), &checking(), declared, inferred, Type::String, Type::Any, flowing, None, None, false,
        )
        .1
        .ty
    };
    assert_eq!(check(Some(Type::Boolean), InferredExpression::Known(Type::String), None), Type::Boolean);
    assert_eq!(check(None, InferredExpression::Known(Type::StringLiteral("a".to_string())), None), Type::String);
    assert_eq!(check(None, InferredExpression::Known(Type::ErrorType), None), Type::Any);
    assert_eq!(check(None, InferredExpression::Known(Type::Unknown), None), Type::Unknown);
    assert_eq!(
        check(None, InferredExpression::UnresolvedIdentifier { name: "f".to_string() }, Some(Type::ErrorType)),
        Type::ErrorType
    );
    assert_eq!(check(None, InferredExpression::Unknown, None), Type::Unknown);
    let bare = declaration(None);
    let (_, symbol) = check_variable_declaration_against_symbols(
        &bare, &empty, &ctx(false), &checking(), None, InferredExpression::Unknown, Type::String, Type::Any, None, None, None, false,
    );
    assert_eq!(symbol.ty, Type::Any);
}

#[test]
fn an_annotated_var_redeclared_with_another_type_is_reported() {
    let mut d = declaration(None);
    d.kind = SymbolKind::Var;
    d.has_declared_type = true;
    let symbols = bound("xs", Type::Number, SymbolKind::Var);
    let (reports, symbol) = check_variable_declaration_against_symbols(
        &d, &symbols, &ctx(false), &checking(), Some(Type::String), InferredExpression::Unknown, Type::Any, Type::Any, None, None, None, false,
    );
    assert_eq!(symbol.kind, SymbolKind::Var);
    assert_eq!(
        reports,
        vec![VariableReport::RedeclaredVarType {
            name: "xs".to_string(),
            previous: Type::Number,
            current: Type::String,
            span: None,
        }]
    );
}

#[test]
fn a_non_iterable_pattern_source_is_reported_and_read_as_any() {
    let pattern = TextSpan { start: 6, end: 9 };
    let mut d = declaration(Some(Expr::ElementAccess {
        object: Box::new(ident("n")),
        index: Box::new(Expr::NumberLiteral("0".to_string())),
    }));
    d.array_pattern_span = Some(pattern);
    let empty = SymbolTable { entries: Vec::new(), narrowed: Vec::new() };
    let (reports, symbol) = check_variable_declaration_against_symbols(
        &d,
        &empty,
        &ctx(false),
        &checking(),
        None,
        InferredExpression::Known(Type::Number),
        Type::Any,
        Type::Any,
        None,
        None,
        Some(Type::Number),
        false,
    );
    assert_eq!(reports, vec![VariableReport::NonIterablePattern { source: Type::Number, span: pattern }]);
    assert_eq!(symbol.ty, Type::Any);
}

#[test]
fn an_initializer_that_mismatches_its_annotation_is_reported() {
    let name = Some(TextSpan { start: 4, end: 6 });
    let mut d = declaration(Some(Expr::NumberLiteral("1".to_string())));
    d.has_declared_type = true;
    d.name_span = name;
    let empty = SymbolTable { entries: Vec::new(), narrowed: Vec::new() };
    let run = |mismatch: bool, options: &VariableCheckOptions| {
        check_variable_declaration_against_symbols(
            &d,
            &empty,
            &ctx(false),
            options,
            Some(Type::String),
            InferredExpression::Known(Type::NumberLiteral("1".to_string())),
            Type::Number,
            Type::Any,
            None,
            None,
            None,
            mismatch,
        )
    };
    let (reports, symbol) = run(true, &checking());
    assert_eq!(
        reports,
        vec![VariableReport::InitializerMismatch {
            initializer: Type::NumberLiteral("1".to_string()),
            declared: Type::String,
            span: name,
        }]
    );
    assert_eq!(symbol.ty, Type::String);
    assert!(run(false, &checking()).0.is_empty());
    let unchecked = VariableCheckOptions { report_duplicate_let_const: true, check_initializer: false };
    assert!(run(true, &unchecked).0.is_empty());
}
