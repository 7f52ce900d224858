//! What a variable declaration, as written, says about its binding: how its
//! initializer's type widens, and the declarations it conflicts with.

use vstd::prelude::*;
use crate::symbols::{SymbolInfo, SymbolKind, SymbolTable};
use crate::syntax::{ArrayLiteralElement, Expr, TextSpan};
use crate::types::{copy_type, is_unknown, spec_is_unknown, type_eq, SpecType, Type};
use crate::context::CheckerContext;
use crate::text::{chars_are, chars_of};

verus! {

/// Whether the initializer's type is fresh, written as a literal here (the
/// only kind tsc widens): a literal, an object, array or template literal,
/// a unary expression, or a conditional or logical expression whose
/// operands both are.
pub open spec fn spec_initializer_type_is_fresh(e: Expr) -> bool
    decreases e,
{
    match e {
        Expr::StringLiteral(_) => true,
        Expr::NumberLiteral(_) => true,
        Expr::BigIntLiteral(_) => true,
        Expr::BooleanLiteral(_) => true,
        Expr::NullLiteral => true,
        Expr::UndefinedLiteral => true,
        Expr::ObjectLiteral => true,
        Expr::ArrayLiteral { .. } => true,
        Expr::TemplateLiteral => true,
        Expr::Unary { .. } => true,
        Expr::Conditional { when_true, when_false, .. } => spec_initializer_type_is_fresh(*when_true)
            && spec_initializer_type_is_fresh(*when_false),
        Expr::Logical { left, right, .. } => spec_initializer_type_is_fresh(*left)
            && spec_initializer_type_is_fresh(*right),
        _ => false,
    }
}

/// See [`spec_initializer_type_is_fresh`].
pub fn initializer_type_is_fresh(initializer: &Expr) -> (r: bool)
    ensures
        r == spec_initializer_type_is_fresh(*initializer),
    decreases initializer,
{
    match initializer {
        Expr::StringLiteral(_) | Expr::NumberLiteral(_) | Expr::BigIntLiteral(_) | Expr::BooleanLiteral(_)
        | Expr::NullLiteral | Expr::UndefinedLiteral | Expr::ObjectLiteral | Expr::ArrayLiteral { .. }
        | Expr::TemplateLiteral | Expr::Unary { .. } => true,
        Expr::Conditional { when_true, when_false, .. } => initializer_type_is_fresh(when_true)
            && initializer_type_is_fresh(when_false),
        Expr::Logical { left, right, .. } => initializer_type_is_fresh(left) && initializer_type_is_fresh(
            right,
        ),
        _ => false,
    }
}

/// How many object literals an initializer writes so that they widen
/// together: the branches of a conditional or logical expression, the
/// non-spread elements of an array literal, and the object of an element
/// access.
pub open spec fn spec_written_object_literals(e: Expr) -> nat
    decreases e, 0nat,
{
    match e {
        Expr::ObjectLiteral => 1,
        Expr::Conditional { when_true, when_false, .. } => spec_written_object_literals(*when_true)
            + spec_written_object_literals(*when_false),
        Expr::Logical { left, right, .. } => spec_written_object_literals(*left)
            + spec_written_object_literals(*right),
        Expr::ArrayLiteral { elements } => spec_written_in_elements(elements@),
        Expr::ElementAccess { object, .. } => spec_written_object_literals(*object),
        _ => 0,
    }
}

/// The object literals the non-spread elements of an array literal write.
pub open spec fn spec_written_in_elements(es: Seq<ArrayLiteralElement>) -> nat
    decreases es, 1nat,
{
    if es.len() == 0 {
        0
    } else {
        spec_written_in_elements(es.drop_last()) + if es.last().spread {
            0
        } else {
            spec_written_object_literals(es.last().expression)
        }
    }
}

/// Whether the initializer writes two or more object literals that widen
/// together.
pub open spec fn spec_writes_object_literal_union(e: Expr) -> bool {
    spec_written_object_literals(e) >= 2
}

/// The count, capped at two.
pub open spec fn capped(n: nat) -> nat {
    if n >= 2 {
        2
    } else {
        n
    }
}

fn written(e: &Expr) -> (r: u8)
    ensures
        r == capped(spec_written_object_literals(*e)),
    decreases e, 0nat,
{
    match e {
        Expr::ObjectLiteral => 1,
        Expr::Conditional { when_true, when_false, .. } => {
            let a = written(when_true);
            let b = written(when_false);
            if a + b >= 2 {
                2
            } else {
                a + b
            }
        },
        Expr::Logical { left, right, .. } => {
            let a = written(left);
            let b = written(right);
            if a + b >= 2 {
                2
            } else {
                a + b
            }
        },
        Expr::ArrayLiteral { elements } => written_in_elements(elements),
        Expr::ElementAccess { object, .. } => written(object),
        _ => 0,
    }
}

fn written_in_elements(elements: &Vec<ArrayLiteralElement>) -> (r: u8)
    ensures
        r == capped(spec_written_in_elements(elements@)),
    decreases elements, 1nat,
{
    let mut total: u8 = 0;
    let mut i: usize = 0;
    assert(elements@.take(0) =~= Seq::<ArrayLiteralElement>::empty());
    while i < elements.len()
        invariant
            0 <= i <= elements.len(),
            total == capped(spec_written_in_elements(elements@.take(i as int))),
        decreases elements.len() - i,
    {
        proof {
            assert(elements@.take(i + 1).drop_last() =~= elements@.take(i as int));
            assert(elements@.take(i + 1).last() == elements@[i as int]);
            assert(decreases_to!(*elements => elements@));
            assert(decreases_to!(elements@ => elements@[i as int]));
        }
        if !elements[i].spread {
            let w = written(&elements[i].expression);
            total = if total + w >= 2 {
                2
            } else {
                total + w
            };
        }
        i = i + 1;
    }
    assert(elements@.take(elements.len() as int) =~= elements@);
    total
}

/// See [`spec_writes_object_literal_union`].
pub fn writes_object_literal_union(initializer: &Expr) -> (r: bool)
    ensures
        r == spec_writes_object_literal_union(*initializer),
{
    written(initializer) >= 2
}

/// `Symbol`, as a name.
pub open spec fn symbol_name() -> Seq<char> {
    seq!['S', 'y', 'm', 'b', 'o', 'l']
}

/// A call that makes a symbol: `Symbol(...)` or `Symbol.for(...)`.
pub open spec fn spec_is_symbol_constructor_call(e: Expr) -> bool {
    match e {
        Expr::Call { callee_name, .. } => callee_name@ == symbol_name(),
        Expr::PropertyCall { object, property_name, .. } => property_name@ == seq!['f', 'o', 'r']
            && match *object {
            Expr::Identifier(name) => name@ == symbol_name(),
            _ => false,
        },
        _ => false,
    }
}

/// See [`spec_is_symbol_constructor_call`].
pub fn is_symbol_constructor_call(expression: &Expr) -> (r: bool)
    ensures
        r == spec_is_symbol_constructor_call(*expression),
{
    proof {
        reveal_strlit("Symbol");
        reveal_strlit("for");
        assert("Symbol"@ =~= symbol_name());
        assert("for"@ =~= seq!['f', 'o', 'r']);
    }
    match expression {
        Expr::Call { callee_name, .. } => chars_are(&chars_of(callee_name.as_str()), "Symbol"),
        Expr::PropertyCall { object, property_name, .. } => {
            chars_are(&chars_of(property_name.as_str()), "for") && match &**object {
                Expr::Identifier(name) => chars_are(&chars_of(name.as_str()), "Symbol"),
                _ => false,
            }
        },
        _ => false,
    }
}


/// A variable declaration, one binding of it.
pub struct VariableDeclaration {
    pub name: String,
    pub name_span: Option<TextSpan>,
    /// `const`, `let` or `var`.
    pub kind: SymbolKind,
    /// `declare var name`.
    pub is_declare: bool,
    /// The declaration is annotated with a type.
    pub has_declared_type: bool,
    pub initializer: Option<Expr>,
    pub initializer_span: Option<TextSpan>,
    /// The binding comes out of a destructuring pattern.
    pub from_binding_pattern: bool,
    /// The `[...]` pattern the binding comes out of, when it is one.
    pub array_pattern_span: Option<TextSpan>,
}

/// A declaration that starts as an evolving `any[]`: under `noImplicitAny`,
/// an unannotated, non-ambient, non-destructured variable initialized with
/// `[]`.
pub open spec fn spec_is_auto_array_candidate(variable: VariableDeclaration, ctx: CheckerContext) -> bool {
    &&& ctx.options.no_implicit_any
    &&& !variable.has_declared_type
    &&& !variable.is_declare
    &&& !variable.from_binding_pattern
    &&& variable.initializer matches Some(Expr::ArrayLiteral { elements }) && elements@.len() == 0
}

/// See [`spec_is_auto_array_candidate`].
pub fn is_auto_array_candidate(variable: &VariableDeclaration, ctx: &CheckerContext) -> (r: bool)
    ensures
        r == spec_is_auto_array_candidate(*variable, *ctx),
{
    ctx.options.no_implicit_any && !variable.has_declared_type && !variable.is_declare
        && !variable.from_binding_pattern && match &variable.initializer {
        Some(Expr::ArrayLiteral { elements }) => elements.len() == 0,
        _ => false,
    }
}

/// A conflict a variable declaration reports.
#[derive(Debug, PartialEq, Eq)]
#[allow(inconsistent_fields)]
pub enum VariableReport {
    /// A `var` redeclared with another type than its earlier declaration
    /// gave it (TS2403), at the declared name.
    RedeclaredVarType { name: String, previous: Type, current: Type, span: Option<TextSpan> },
    /// A `let` or `const` declared again in scope (TS2451), at the declared
    /// name.
    RedeclaredBlockScoped { name: String, span: Option<TextSpan> },
    /// An array pattern whose source is not iterable (TS2488), at the
    /// pattern: the source's type.
    NonIterablePattern { source: Type, span: TextSpan },
    /// An initializer whose type is not assignable to the annotation
    /// (TS2322), at the declared name (else the initializer).
    InitializerMismatch { initializer: Type, declared: Type, span: Option<TextSpan> },
}

/// The mathematical value of a [`VariableReport`].
#[allow(inconsistent_fields)]
pub enum SpecVariableReport {
    RedeclaredVarType { name: Seq<char>, previous: SpecType, current: SpecType, span: Option<TextSpan> },
    RedeclaredBlockScoped { name: Seq<char>, span: Option<TextSpan> },
    NonIterablePattern { source: SpecType, span: TextSpan },
    InitializerMismatch { initializer: SpecType, declared: SpecType, span: Option<TextSpan> },
}

impl View for VariableReport {
    type V = SpecVariableReport;

    open spec fn view(&self) -> SpecVariableReport {
        match self {
            VariableReport::RedeclaredVarType { name, previous, current, span } => {
                SpecVariableReport::RedeclaredVarType {
                    name: name@,
                    previous: previous@,
                    current: current@,
                    span: *span,
                }
            },
            VariableReport::RedeclaredBlockScoped { name, span } => SpecVariableReport::RedeclaredBlockScoped {
                name: name@,
                span: *span,
            },
            VariableReport::NonIterablePattern { source, span } => SpecVariableReport::NonIterablePattern {
                source: source@,
                span: *span,
            },
            VariableReport::InitializerMismatch { initializer, declared, span } => {
                SpecVariableReport::InitializerMismatch {
                    initializer: initializer@,
                    declared: declared@,
                    span: *span,
                }
            },
        }
    }
}

/// A `var` may be redeclared, but every declaration has to give it the same
/// type. `previous` is what the name is bound to in the declaring scope. The
/// redeclaration is reported when both bindings are `var`s, neither type is
/// a degradation, and the types differ.
pub open spec fn spec_report_redeclared_var_type(
    name: Seq<char>,
    span: Option<TextSpan>,
    symbol: SymbolInfo,
    previous: Option<SymbolInfo>,
) -> Option<SpecVariableReport> {
    match previous {
        Some(p) => if symbol.kind == SymbolKind::Var && p.kind == SymbolKind::Var && !spec_is_unknown(p.ty@)
            && !spec_is_unknown(symbol.ty@) && p.ty@ != symbol.ty@ {
            Some(SpecVariableReport::RedeclaredVarType {
                name,
                previous: p.ty@,
                current: symbol.ty@,
                span,
            })
        } else {
            None
        },
        None => None,
    }
}

/// See [`spec_report_redeclared_var_type`]; `Some` is the report to push.
pub fn report_redeclared_var_type(
    name: &str,
    span: Option<TextSpan>,
    symbol: &SymbolInfo,
    previous: Option<&SymbolInfo>,
) -> (r: Option<VariableReport>)
    ensures
        match r {
            Some(report) => spec_report_redeclared_var_type(
                name@,
                span,
                *symbol,
                match previous {
                    Some(p) => Some(*p),
                    None => None,
                },
            ) == Some(report@),
            None => spec_report_redeclared_var_type(
                name@,
                span,
                *symbol,
                match previous {
                    Some(p) => Some(*p),
                    None => None,
                },
            ) is None,
        },
{
    if symbol.kind != SymbolKind::Var {
        return None;
    }
    let p = match previous {
        Some(p) => p,
        None => return None,
    };
    if p.kind != SymbolKind::Var {
        return None;
    }
    if is_unknown(&p.ty) || is_unknown(&symbol.ty) || type_eq(&p.ty, &symbol.ty) {
        return None;
    }
    Some(VariableReport::RedeclaredVarType {
        name: name.to_string(),
        previous: copy_type(&p.ty),
        current: copy_type(&symbol.ty),
        span,
    })
}


/// [`spec_report_redeclared_var_type`] over symbol views.
pub open spec fn spec_report_redeclared_var_type_view(
    name: Seq<char>,
    span: Option<TextSpan>,
    symbol: crate::symbols::SpecSymbol,
    previous: crate::symbols::SpecSymbol,
) -> Option<SpecVariableReport> {
    if symbol.kind == SymbolKind::Var && previous.kind == SymbolKind::Var && !spec_is_unknown(previous.ty)
        && !spec_is_unknown(symbol.ty) && previous.ty != symbol.ty {
        Some(SpecVariableReport::RedeclaredVarType { name, previous: previous.ty, current: symbol.ty, span })
    } else {
        None
    }
}

/// How a variable declaration is checked.
pub struct VariableCheckOptions {
    pub report_duplicate_let_const: bool,
    pub check_initializer: bool,
}

/// Whether the declaration is a `let`/`const` redeclared in scope: reported
/// when asked for, for a non-ambient `let` or `const` whose name the table
/// already binds as a `let` or `const`, unless the name is an ambient global
/// (a module-scoped binding shadows one without conflict).
pub open spec fn spec_redeclares_block_scoped(
    variable: VariableDeclaration,
    symbols: SymbolTable,
    ctx: CheckerContext,
    options: VariableCheckOptions,
) -> bool {
    &&& options.report_duplicate_let_const
    &&& !variable.is_declare
    &&& (variable.kind == SymbolKind::Let || variable.kind == SymbolKind::Const)
    &&& crate::symbols::spec_get(symbols, variable.name@) matches Some(existing) && (existing.kind
        == SymbolKind::Let || existing.kind == SymbolKind::Const)
    &&& !crate::context::spec_has_key(ctx.ambient_global_symbols@, variable.name@)
}

/// The type a declaration binds its name to. `declared` is its annotation
/// as resolved; `inferred` what its initializer was evaluated to (read as
/// nothing unless initializers are checked); `widened` the type the inferred
/// initializer type widens to for an unannotated binding; `error_type` the
/// type a binding of a failed import carries; `flowing` the type a failed
/// lookup still lets through.
/// - An annotation wins.
/// - Otherwise an initializer inferred to the error type binds `error_type`;
///   any other known, non-degraded initializer binds `widened`; a failed
///   lookup binds `flowing`; anything else binds the degradation sentinel.
/// - An unannotated declaration without an initializer is `any`.
pub open spec fn spec_variable_binding_type(
    variable: VariableDeclaration,
    options: VariableCheckOptions,
    declared: Option<SpecType>,
    inferred: crate::ops::InferredExpression,
    widened: SpecType,
    error_type: SpecType,
    flowing: Option<SpecType>,
) -> SpecType {
    match declared {
        Some(d) => d,
        None => if variable.initializer is None {
            SpecType::Any
        } else if !options.check_initializer {
            SpecType::Unknown
        } else {
            match inferred {
                crate::ops::InferredExpression::Known(t) => if t@ == SpecType::ErrorType {
                    error_type
                } else if !spec_is_unknown(t@) {
                    widened
                } else {
                    SpecType::Unknown
                },
                crate::ops::InferredExpression::UnresolvedIdentifier { .. }
                | crate::ops::InferredExpression::MissingProperty { .. } => match flowing {
                    Some(f) => f,
                    None => SpecType::Unknown,
                },
                crate::ops::InferredExpression::Unknown => SpecType::Unknown,
            }
        },
    }
}

/// Whether the initializer reads from an array pattern's source that is not
/// iterable: checked initializers only, for a declaration out of a `[...]`
/// pattern whose source `non_iterable_source` says is not iterable.
pub open spec fn spec_reads_non_iterable(variable: VariableDeclaration, options: VariableCheckOptions, non_iterable_source: Option<SpecType>) -> bool {
    options.check_initializer && variable.array_pattern_span is Some && non_iterable_source is Some
}

/// The initializer as the binding reads it: `any` from a non-iterable
/// pattern source (every element of which is `any`), else as evaluated.
pub open spec fn spec_effective_inferred(
    variable: VariableDeclaration,
    options: VariableCheckOptions,
    inferred: crate::ops::InferredExpression,
    non_iterable_source: Option<SpecType>,
) -> crate::ops::InferredExpression {
    if spec_reads_non_iterable(variable, options, non_iterable_source) {
        crate::ops::InferredExpression::Known(Type::Any)
    } else {
        inferred
    }
}

/// Checks a variable declaration against the bindings in scope. Its
/// reports, in order:
/// - a `let`/`const` redeclaration (see [`spec_redeclares_block_scoped`]);
/// - an array pattern whose source `non_iterable_source` is (the source's
///   type, when the checker finds it definitely not iterable), at the
///   pattern;
/// - for an annotated declaration whose initializer was evaluated (and not
///   read as `any` from a non-iterable source), the initializer's type
///   against the annotation, where `initializer_mismatch` (the checker's
///   assignability judgement of the two) says they mismatch, at the name,
///   else the initializer;
/// - for an annotated non-ambient declaration, a `var` redeclared with
///   another type (see [`spec_report_redeclared_var_type`]).
///
/// And the symbol it binds: its kind, the type
/// [`spec_variable_binding_type`] gives for the initializer as read (see
/// [`spec_effective_inferred`]), and `function_signature`.
pub fn check_variable_declaration_against_symbols(
    variable: &VariableDeclaration,
    symbols: &SymbolTable,
    ctx: &CheckerContext,
    options: &VariableCheckOptions,
    declared: Option<Type>,
    inferred: crate::ops::InferredExpression,
    widened: Type,
    error_type: Type,
    flowing: Option<Type>,
    function_signature: Option<crate::symbols::FunctionSignatureInfo>,
    non_iterable_source: Option<Type>,
    initializer_mismatch: bool,
) -> (r: (Vec<VariableReport>, SymbolInfo))
    ensures
        ({
            let effective = spec_effective_inferred(
                *variable,
                *options,
                inferred,
                crate::types::opt_view(non_iterable_source),
            );
            let ty = spec_variable_binding_type(
                *variable,
                *options,
                crate::types::opt_view(declared),
                effective,
                widened@,
                error_type@,
                crate::types::opt_view(flowing),
            );
            let symbol = SymbolInfo { ty: r.1.ty, kind: variable.kind, function_signature };
            let duplicate: Seq<SpecVariableReport> = if spec_redeclares_block_scoped(*variable, *symbols, *ctx, *options) {
                seq![SpecVariableReport::RedeclaredBlockScoped { name: variable.name@, span: variable.name_span }]
            } else {
                Seq::empty()
            };
            let previous = match crate::symbols::spec_get(*symbols, variable.name@) {
                Some(p) => spec_report_redeclared_var_type_view(variable.name@, variable.name_span, symbol@, p),
                None => None,
            };
            let redeclared: Seq<SpecVariableReport> = if !variable.is_declare && variable.has_declared_type {
                match previous {
                    Some(report) => seq![report],
                    None => Seq::empty(),
                }
            } else {
                Seq::empty()
            };
            let pattern: Seq<SpecVariableReport> = if spec_reads_non_iterable(
                *variable,
                *options,
                crate::types::opt_view(non_iterable_source),
            ) {
                seq![SpecVariableReport::NonIterablePattern {
                    source: crate::types::opt_view(non_iterable_source).unwrap(),
                    span: variable.array_pattern_span.unwrap(),
                }]
            } else {
                Seq::empty()
            };
            let mismatch: Seq<SpecVariableReport> = match (declared, inferred) {
                (Some(d), crate::ops::InferredExpression::Known(t)) => if options.check_initializer
                    && variable.initializer is Some && initializer_mismatch && !spec_reads_non_iterable(
                    *variable,
                    *options,
                    crate::types::opt_view(non_iterable_source),
                ) {
                    seq![SpecVariableReport::InitializerMismatch {
                        initializer: t@,
                        declared: d@,
                        span: crate::ops::spec_span_or(variable.name_span, variable.initializer_span),
                    }]
                } else {
                    Seq::empty()
                },
                _ => Seq::empty(),
            };
            &&& r.1.ty@ == ty
            &&& r.1.kind == variable.kind
            &&& r.1@ == symbol@
            &&& r.0@.map_values(|v: VariableReport| v@) == duplicate + pattern + mismatch + redeclared
        }),
{
    let mut reports: Vec<VariableReport> = Vec::new();
    let duplicate = options.report_duplicate_let_const && !variable.is_declare && (variable.kind
        == SymbolKind::Let || variable.kind == SymbolKind::Const) && match symbols.get(variable.name.as_str()) {
        Some(existing) => existing.kind == SymbolKind::Let || existing.kind == SymbolKind::Const,
        None => false,
    } && !crate::context::has_key(&ctx.ambient_global_symbols, variable.name.as_str());
    if duplicate {
        reports.push(VariableReport::RedeclaredBlockScoped { name: variable.name.clone(), span: variable.name_span });
    }
    let non_iterable = options.check_initializer && variable.array_pattern_span.is_some()
        && non_iterable_source.is_some();
    if non_iterable {
        let source = match non_iterable_source {
            Some(t) => t,
            None => Type::Any,
        };
        let span = match variable.array_pattern_span {
            Some(s) => s,
            None => TextSpan { start: 0, end: 0 },
        };
        reports.push(VariableReport::NonIterablePattern { source, span });
    }
    let inferred = if non_iterable {
        crate::ops::InferredExpression::Known(Type::Any)
    } else {
        inferred
    };
    if !non_iterable && options.check_initializer && variable.initializer.is_some() && initializer_mismatch {
        if let (Some(d), crate::ops::InferredExpression::Known(t)) = (&declared, &inferred) {
            reports.push(VariableReport::InitializerMismatch {
                initializer: copy_type(t),
                declared: copy_type(d),
                span: crate::ops::span_or(variable.name_span, variable.initializer_span),
            });
        }
    }
    let ty = match declared {
        Some(d) => d,
        None => if variable.initializer.is_none() {
            Type::Any
        } else if !options.check_initializer {
            Type::Unknown
        } else {
            match inferred {
                crate::ops::InferredExpression::Known(t) => if matches!(t, Type::ErrorType) {
                    error_type
                } else if !is_unknown(&t) {
                    widened
                } else {
                    Type::Unknown
                },
                crate::ops::InferredExpression::UnresolvedIdentifier { .. }
                | crate::ops::InferredExpression::MissingProperty { .. } => match flowing {
                    Some(f) => f,
                    None => Type::Unknown,
                },
                crate::ops::InferredExpression::Unknown => Type::Unknown,
            }
        },
    };
    let symbol = SymbolInfo { ty, kind: variable.kind, function_signature };
    if !variable.is_declare && variable.has_declared_type {
        if let Some(report) = report_redeclared_var_type(
            variable.name.as_str(),
            variable.name_span,
            &symbol,
            symbols.get(variable.name.as_str()),
        ) {
            reports.push(report);
        }
    }
    proof {
        assert(reports@.map_values(|v: VariableReport| v@).len() == reports@.len());
    }
    (reports, symbol)
}

} // verus!
