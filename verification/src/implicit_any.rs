//! Which parameters and destructured bindings are implicitly `any`: the
//! parameter reports `noImplicitAny` asks for.

use vstd::prelude::*;
use crate::context::CheckerContext;
use crate::parameters::{ArrayBindingPattern, BindingName, FunctionParameter, ObjectBindingElement, ObjectBindingPattern};
use crate::syntax::TextSpan;
use crate::types::Type;

verus! {

/// An implicitly `any` declaration to report.
#[derive(PartialEq, Eq, Debug)]
pub enum ImplicitAnyReport {
    /// A parameter whose type is implicitly `any`.
    Parameter { name: String, span: Option<TextSpan> },
    /// A destructured binding whose type is implicitly `any`.
    Binding { name: String, span: Option<TextSpan> },
}

/// The mathematical value of an [`ImplicitAnyReport`].
pub enum SpecImplicitAny {
    Parameter { name: Seq<char>, span: Option<TextSpan> },
    Binding { name: Seq<char>, span: Option<TextSpan> },
}

impl View for ImplicitAnyReport {
    type V = SpecImplicitAny;

    open spec fn view(&self) -> SpecImplicitAny {
        match *self {
            ImplicitAnyReport::Parameter { name, span } => SpecImplicitAny::Parameter { name: name@, span },
            ImplicitAnyReport::Binding { name, span } => SpecImplicitAny::Binding { name: name@, span },
        }
    }
}

/// The views of a list of reports.
pub open spec fn view_implicit_any(s: Seq<ImplicitAnyReport>) -> Seq<SpecImplicitAny> {
    s.map_values(|r: ImplicitAnyReport| r@)
}

/// The reports for an untyped object pattern, appended to `acc`: each named
/// element (at its binding's span, else its property name's) and the
/// elements of nested patterns, in order. The rest binding is an object,
/// not implicitly `any`.
pub open spec fn spec_object_pattern_implicit_any(p: ObjectBindingPattern, acc: Seq<SpecImplicitAny>) -> Seq<SpecImplicitAny>
    decreases p, 2nat,
{
    spec_object_elements_implicit_any(p.elements@, acc)
}

/// The reports for the elements of an untyped object pattern.
pub open spec fn spec_object_elements_implicit_any(es: Seq<ObjectBindingElement>, acc: Seq<SpecImplicitAny>) -> Seq<SpecImplicitAny>
    decreases es, 1nat,
{
    if es.len() == 0 {
        acc
    } else {
        spec_object_element_implicit_any(es.last(), spec_object_elements_implicit_any(es.drop_last(), acc))
    }
}

/// The reports for one element of an untyped object pattern.
pub open spec fn spec_object_element_implicit_any(e: ObjectBindingElement, acc: Seq<SpecImplicitAny>) -> Seq<SpecImplicitAny>
    decreases e, 3nat,
{
    match e.binding_name {
        BindingName::Identifier { name, span } => acc.push(
            SpecImplicitAny::Binding {
                name: name@,
                span: match span {
                    Some(s) => Some(s),
                    None => e.name_span,
                },
            },
        ),
        BindingName::ObjectPattern(nested) => spec_object_pattern_implicit_any(nested, acc),
        BindingName::ArrayPattern(nested) => spec_array_pattern_implicit_any(nested, acc),
        BindingName::Unsupported => acc,
    }
}

/// The reports for an untyped array pattern, appended to `acc`: each named
/// element and the elements of nested patterns, holes skipped.
pub open spec fn spec_array_pattern_implicit_any(p: ArrayBindingPattern, acc: Seq<SpecImplicitAny>) -> Seq<SpecImplicitAny>
    decreases p, 2nat,
{
    spec_array_elements_implicit_any(p.elements@, acc)
}

/// The reports for the elements of an untyped array pattern.
pub open spec fn spec_array_elements_implicit_any(es: Seq<Option<BindingName>>, acc: Seq<SpecImplicitAny>) -> Seq<SpecImplicitAny>
    decreases es, 1nat,
{
    if es.len() == 0 {
        acc
    } else {
        let before = spec_array_elements_implicit_any(es.drop_last(), acc);
        match es.last() {
            Some(b) => spec_array_element_implicit_any(b, before),
            None => before,
        }
    }
}

/// The reports for one element of an untyped array pattern.
pub open spec fn spec_array_element_implicit_any(b: BindingName, acc: Seq<SpecImplicitAny>) -> Seq<SpecImplicitAny>
    decreases b, 3nat,
{
    match b {
        BindingName::Identifier { name, span } => acc.push(SpecImplicitAny::Binding { name: name@, span }),
        BindingName::ObjectPattern(nested) => spec_object_pattern_implicit_any(nested, acc),
        BindingName::ArrayPattern(nested) => spec_array_pattern_implicit_any(nested, acc),
        BindingName::Unsupported => acc,
    }
}

/// The reports for one parameter, appended to `acc`. Nothing unless
/// implicit `any` is reported, the parameter has neither an annotation nor
/// a default, and (outside tsc's own rule, `tsc_rule`) no JSX element with
/// unmodelled props nor degraded expected type encloses it; nothing either
/// when a contextual type (`has_contextual_type`) types it. Otherwise a
/// named parameter is reported, and a pattern's bindings are.
pub open spec fn spec_parameter_implicit_any(
    ctx: CheckerContext,
    p: FunctionParameter,
    has_contextual_type: bool,
    tsc_rule: bool,
    acc: Seq<SpecImplicitAny>,
) -> Seq<SpecImplicitAny> {
    if !ctx.options.no_implicit_any || p.has_declared_type || p.has_initializer || (!tsc_rule && (
    ctx.unmodelled_jsx_props_depth > 0 || ctx.degraded_expected_type_depth > 0)) {
        acc
    } else if has_contextual_type {
        acc
    } else {
        match p.binding_name {
            BindingName::Identifier { name, span } => acc.push(SpecImplicitAny::Parameter { name: name@, span }),
            BindingName::ObjectPattern(pattern) => spec_object_pattern_implicit_any(pattern, acc),
            BindingName::ArrayPattern(pattern) => spec_array_pattern_implicit_any(pattern, acc),
            BindingName::Unsupported => acc,
        }
    }
}

fn push_report(out: &mut Vec<ImplicitAnyReport>, report: ImplicitAnyReport)
    ensures
        view_implicit_any(final(out)@) == view_implicit_any(old(out)@).push(report@),
{
    let ghost before = view_implicit_any(out@);
    let ghost v = report@;
    out.push(report);
    assert(view_implicit_any(out@) =~= before.push(v));
}

/// See [`spec_object_pattern_implicit_any`].
pub fn emit_object_binding_pattern_diagnostics(pattern: &ObjectBindingPattern, out: &mut Vec<ImplicitAnyReport>)
    ensures
        view_implicit_any(final(out)@) == spec_object_pattern_implicit_any(*pattern, view_implicit_any(old(out)@)),
    decreases pattern, 2nat,
{
    let ghost start = view_implicit_any(out@);
    let ghost es = pattern.elements@;
    let mut i: usize = 0;
    assert(es.take(0) =~= Seq::<ObjectBindingElement>::empty());
    while i < pattern.elements.len()
        invariant
            0 <= i <= pattern.elements.len(),
            es == pattern.elements@,
            view_implicit_any(out@) == spec_object_elements_implicit_any(es.take(i as int), start),
        decreases pattern.elements.len() - i,
    {
        proof {
            assert(es.take(i + 1).drop_last() =~= es.take(i as int));
            assert(es.take(i + 1).last() == es[i as int]);
            assert(decreases_to!(*pattern => pattern.elements));
            assert(decreases_to!(pattern.elements => pattern.elements@));
            assert(decreases_to!(pattern.elements@ => pattern.elements@[i as int]));
        }
        emit_object_binding_element_diagnostic(&pattern.elements[i], out);
        i = i + 1;
    }
    assert(es.take(pattern.elements.len() as int) =~= es);
}

/// The reports for one element of an untyped object pattern (see
/// [`spec_object_elements_implicit_any`]).
pub fn emit_object_binding_element_diagnostic(element: &ObjectBindingElement, out: &mut Vec<ImplicitAnyReport>)
    ensures
        view_implicit_any(final(out)@) == spec_object_element_implicit_any(*element, view_implicit_any(old(out)@)),
    decreases element, 3nat,
{
    match &element.binding_name {
        BindingName::Identifier { name, span } => {
            let at = match span {
                Some(s) => Some(*s),
                None => element.name_span,
            };
            push_report(out, ImplicitAnyReport::Binding { name: name.clone(), span: at });
        },
        BindingName::ObjectPattern(pattern) => emit_object_binding_pattern_diagnostics(pattern, out),
        BindingName::ArrayPattern(pattern) => emit_array_binding_pattern_diagnostics(pattern, out),
        BindingName::Unsupported => {},
    }
}

/// See [`spec_array_pattern_implicit_any`].
pub fn emit_array_binding_pattern_diagnostics(pattern: &ArrayBindingPattern, out: &mut Vec<ImplicitAnyReport>)
    ensures
        view_implicit_any(final(out)@) == spec_array_pattern_implicit_any(*pattern, view_implicit_any(old(out)@)),
    decreases pattern, 2nat,
{
    let ghost start = view_implicit_any(out@);
    let ghost es = pattern.elements@;
    let mut i: usize = 0;
    assert(es.take(0) =~= Seq::<Option<BindingName>>::empty());
    while i < pattern.elements.len()
        invariant
            0 <= i <= pattern.elements.len(),
            es == pattern.elements@,
            view_implicit_any(out@) == spec_array_elements_implicit_any(es.take(i as int), start),
        decreases pattern.elements.len() - i,
    {
        proof {
            assert(es.take(i + 1).drop_last() =~= es.take(i as int));
            assert(es.take(i + 1).last() == es[i as int]);
            assert(decreases_to!(*pattern => pattern.elements));
            assert(decreases_to!(pattern.elements => pattern.elements@));
            assert(decreases_to!(pattern.elements@ => pattern.elements@[i as int]));
        }
        match &pattern.elements[i] {
            Some(element) => emit_array_binding_element_diagnostic(element, out),
            None => {},
        }
        i = i + 1;
    }
    assert(es.take(pattern.elements.len() as int) =~= es);
}

/// The reports for one element of an untyped array pattern (see
/// [`spec_array_elements_implicit_any`]).
pub fn emit_array_binding_element_diagnostic(binding_name: &BindingName, out: &mut Vec<ImplicitAnyReport>)
    ensures
        view_implicit_any(final(out)@) == spec_array_element_implicit_any(*binding_name, view_implicit_any(old(out)@)),
    decreases binding_name, 3nat,
{
    match binding_name {
        BindingName::Identifier { name, span } => {
            push_report(out, ImplicitAnyReport::Binding { name: name.clone(), span: *span });
        },
        BindingName::ObjectPattern(pattern) => emit_object_binding_pattern_diagnostics(pattern, out),
        BindingName::ArrayPattern(pattern) => emit_array_binding_pattern_diagnostics(pattern, out),
        BindingName::Unsupported => {},
    }
}

/// See [`spec_parameter_implicit_any`]; `tsc_rule` is whether tsc's own
/// implicit-`any` rule is asked for.
pub fn emit_parameter_diagnostics(
    parameter: &FunctionParameter,
    contextual_type: Option<&Type>,
    tsc_rule: bool,
    ctx: &CheckerContext,
    out: &mut Vec<ImplicitAnyReport>,
)
    ensures
        view_implicit_any(final(out)@) == spec_parameter_implicit_any(
            *ctx,
            *parameter,
            contextual_type is Some,
            tsc_rule,
            view_implicit_any(old(out)@),
        ),
{
    if !ctx.options.no_implicit_any || parameter.has_declared_type || parameter.has_initializer || (!tsc_rule
        && (ctx.unmodelled_jsx_props_depth > 0 || ctx.degraded_expected_type_depth > 0)) {
        return;
    }
    if contextual_type.is_some() {
        return;
    }
    match &parameter.binding_name {
        BindingName::Identifier { name, span } => {
            push_report(out, ImplicitAnyReport::Parameter { name: name.clone(), span: *span });
        },
        BindingName::ObjectPattern(pattern) => emit_object_binding_pattern_diagnostics(pattern, out),
        BindingName::ArrayPattern(pattern) => emit_array_binding_pattern_diagnostics(pattern, out),
        BindingName::Unsupported => {},
    }
}

} // verus!
