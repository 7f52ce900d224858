//! Which declared names a function body never reads: the parameters (and
//! the bindings of destructuring parameters), the local variables and the
//! local types the unused-declaration reports name.

use vstd::prelude::*;
use crate::aliases::this_name;
use crate::body::{BodyStatement, SwitchCase};
use crate::context::{CheckerContext, FileKind};
use crate::parameters::{ArrayBindingPattern, BindingName, FunctionParameter, ObjectBindingElement, ObjectBindingPattern};
use crate::signature::{body_reads_name, spec_strictly_sorted};
use crate::syntax::TextSpan;
use crate::text::{chars_are, chars_of};

verus! {

/// An unused declaration to report.
#[derive(PartialEq, Eq, Debug)]
pub enum UnusedReport {
    /// A value (parameter, binding, local) that is declared but never read.
    Unused { name: String, span: Option<TextSpan> },
    /// A local type that is declared but never used.
    UnusedType { name: String, span: Option<TextSpan> },
    /// Every element of a destructuring pattern is unused: one report for the
    /// whole pattern.
    AllDestructuredUnused { span: Option<TextSpan> },
}

/// The mathematical value of an [`UnusedReport`].
pub enum SpecReport {
    Unused { name: Seq<char>, span: Option<TextSpan> },
    UnusedType { name: Seq<char>, span: Option<TextSpan> },
    AllDestructuredUnused { span: Option<TextSpan> },
}

impl View for UnusedReport {
    type V = SpecReport;

    open spec fn view(&self) -> SpecReport {
        match *self {
            UnusedReport::Unused { name, span } => SpecReport::Unused { name: name@, span },
            UnusedReport::UnusedType { name, span } => SpecReport::UnusedType { name: name@, span },
            UnusedReport::AllDestructuredUnused { span } => SpecReport::AllDestructuredUnused { span },
        }
    }
}

/// The views of a list of reports.
pub open spec fn view_reports(s: Seq<UnusedReport>) -> Seq<SpecReport> {
    s.map_values(|r: UnusedReport| r@)
}

/// A declared name with where it is written.
pub open spec fn view_declared(s: Seq<(String, Option<TextSpan>)>) -> Seq<(Seq<char>, Option<TextSpan>)> {
    s.map_values(|d: (String, Option<TextSpan>)| (d.0@, d.1))
}

/// Whether the body reads `name`.
pub open spec fn spec_is_read(reads: Seq<String>, name: Seq<char>) -> bool {
    exists|i: int| 0 <= i < reads.len() && #[trigger] reads[i]@ == name
}

/// A name starting with `_`, the spelling that marks a binding as
/// deliberately unused.
pub open spec fn spec_underscored(name: Seq<char>) -> bool {
    name.len() > 0 && name[0] == '_'
}

fn starts_with_underscore(name: &str) -> (r: bool)
    ensures
        r == spec_underscored(name@),
{
    let c = chars_of(name);
    c.len() > 0 && c[0] == '_'
}

fn is_read(reads: &Vec<String>, name: &str) -> (r: bool)
    requires
        spec_strictly_sorted(reads@),
    ensures
        r == spec_is_read(reads@, name@),
{
    body_reads_name(reads, name)
}

// ---------------------------------------------------------------------------
// Local declarations

/// The `const`/`let`/`var` bindings a body declares, through its blocks,
/// branches, loops, `switch` cases and `try` clauses (not nested functions),
/// in order, appended to `acc`; an ambient (`declare`) one and a `_`-prefixed
/// destructured one are left out.
pub open spec fn spec_local_vars(statements: Seq<BodyStatement>, acc: Seq<(Seq<char>, Option<TextSpan>)>) -> Seq<(Seq<char>, Option<TextSpan>)>
    decreases statements, 1nat,
{
    if statements.len() == 0 {
        acc
    } else {
        spec_statement_vars(statements.last(), spec_local_vars(statements.drop_last(), acc))
    }
}

/// The bindings one statement declares (see [`spec_local_vars`]).
pub open spec fn spec_statement_vars(s: BodyStatement, acc: Seq<(Seq<char>, Option<TextSpan>)>) -> Seq<(Seq<char>, Option<TextSpan>)>
    decreases s, 0nat,
{
    match s {
        BodyStatement::VariableDeclaration { name, name_span, is_declare, from_binding_pattern } => if !is_declare
            && !(from_binding_pattern && spec_underscored(name@)) {
            acc.push((name@, name_span))
        } else {
            acc
        },
        BodyStatement::Block(b) => spec_local_vars(b@, acc),
        BodyStatement::If { then_body, else_body } => spec_local_vars(
            else_body@,
            spec_local_vars(then_body@, acc),
        ),
        BodyStatement::While { body } => spec_local_vars(body@, acc),
        BodyStatement::ForOf { body } => spec_local_vars(body@, acc),
        BodyStatement::Switch { cases } => spec_case_vars(cases@, acc),
        BodyStatement::Try { block, handler, finalizer } => {
            let after_block = spec_local_vars(block@, acc);
            let after_handler = match handler {
                Some(h) => spec_local_vars(h@, after_block),
                None => after_block,
            };
            spec_local_vars(finalizer@, after_handler)
        },
        _ => acc,
    }
}

/// The bindings the cases of a `switch` declare, case by case.
pub open spec fn spec_case_vars(cases: Seq<SwitchCase>, acc: Seq<(Seq<char>, Option<TextSpan>)>) -> Seq<(Seq<char>, Option<TextSpan>)>
    decreases cases, 1nat,
{
    if cases.len() == 0 {
        acc
    } else {
        spec_local_vars(cases.last().consequent@, spec_case_vars(cases.drop_last(), acc))
    }
}

/// The `type` aliases and interfaces a body declares (not ambient ones),
/// through the same statements as [`spec_local_vars`], in order, appended
/// to `acc`.
pub open spec fn spec_local_types(statements: Seq<BodyStatement>, acc: Seq<(Seq<char>, Option<TextSpan>)>) -> Seq<(Seq<char>, Option<TextSpan>)>
    decreases statements, 1nat,
{
    if statements.len() == 0 {
        acc
    } else {
        spec_statement_types(statements.last(), spec_local_types(statements.drop_last(), acc))
    }
}

/// The local types one statement declares (see [`spec_local_types`]).
pub open spec fn spec_statement_types(s: BodyStatement, acc: Seq<(Seq<char>, Option<TextSpan>)>) -> Seq<(Seq<char>, Option<TextSpan>)>
    decreases s, 0nat,
{
    match s {
        BodyStatement::TypeAlias { name, name_span, is_declare } => if !is_declare {
            acc.push((name@, name_span))
        } else {
            acc
        },
        BodyStatement::Interface { name, name_span, is_declare } => if !is_declare {
            acc.push((name@, name_span))
        } else {
            acc
        },
        BodyStatement::Block(b) => spec_local_types(b@, acc),
        BodyStatement::If { then_body, else_body } => spec_local_types(
            else_body@,
            spec_local_types(then_body@, acc),
        ),
        BodyStatement::While { body } => spec_local_types(body@, acc),
        BodyStatement::ForOf { body } => spec_local_types(body@, acc),
        BodyStatement::Switch { cases } => spec_case_types(cases@, acc),
        BodyStatement::Try { block, handler, finalizer } => {
            let after_block = spec_local_types(block@, acc);
            let after_handler = match handler {
                Some(h) => spec_local_types(h@, after_block),
                None => after_block,
            };
            spec_local_types(finalizer@, after_handler)
        },
        _ => acc,
    }
}

/// The local types the cases of a `switch` declare, case by case.
pub open spec fn spec_case_types(cases: Seq<SwitchCase>, acc: Seq<(Seq<char>, Option<TextSpan>)>) -> Seq<(Seq<char>, Option<TextSpan>)>
    decreases cases, 1nat,
{
    if cases.len() == 0 {
        acc
    } else {
        spec_local_types(cases.last().consequent@, spec_case_types(cases.drop_last(), acc))
    }
}

fn push_declared(out: &mut Vec<(String, Option<TextSpan>)>, name: &String, span: Option<TextSpan>)
    ensures
        view_declared(final(out)@) == view_declared(old(out)@).push((name@, span)),
{
    let ghost before = view_declared(out@);
    out.push((name.clone(), span));
    assert(view_declared(out@) =~= before.push((name@, span)));
}

fn statement_vars(s: &BodyStatement, out: &mut Vec<(String, Option<TextSpan>)>)
    ensures
        view_declared(final(out)@) == spec_statement_vars(*s, view_declared(old(out)@)),
    decreases s, 0nat,
{
    match s {
        BodyStatement::VariableDeclaration { name, name_span, is_declare, from_binding_pattern } => {
            if !*is_declare && !(*from_binding_pattern && starts_with_underscore(name.as_str())) {
                push_declared(out, name, *name_span);
            }
        },
        BodyStatement::Block(b) => collect_local_var_declarations(b, out),
        BodyStatement::If { then_body, else_body } => {
            collect_local_var_declarations(then_body, out);
            collect_local_var_declarations(else_body, out);
        },
        BodyStatement::While { body } => collect_local_var_declarations(body, out),
        BodyStatement::ForOf { body } => collect_local_var_declarations(body, out),
        BodyStatement::Switch { cases } => case_vars(cases, out),
        BodyStatement::Try { block, handler, finalizer } => {
            collect_local_var_declarations(block, out);
            match handler {
                Some(h) => collect_local_var_declarations(h, out),
                None => {},
            }
            collect_local_var_declarations(finalizer, out);
        },
        _ => {},
    }
}

fn case_vars(cases: &Vec<SwitchCase>, out: &mut Vec<(String, Option<TextSpan>)>)
    ensures
        view_declared(final(out)@) == spec_case_vars(cases@, view_declared(old(out)@)),
    decreases cases, 1nat,
{
    let ghost start = view_declared(out@);
    let mut i: usize = 0;
    assert(cases@.take(0) =~= Seq::<SwitchCase>::empty());
    while i < cases.len()
        invariant
            0 <= i <= cases.len(),
            view_declared(out@) == spec_case_vars(cases@.take(i as int), start),
        decreases cases.len() - i,
    {
        proof {
            assert(cases@.take(i + 1).drop_last() =~= cases@.take(i as int));
            assert(cases@.take(i + 1).last() == cases@[i as int]);
            assert(decreases_to!(*cases => cases@));
            assert(decreases_to!(cases@ => cases@[i as int]));
            assert(decreases_to!(cases@[i as int] => cases@[i as int].consequent));
        }
        collect_local_var_declarations(&cases[i].consequent, out);
        i = i + 1;
    }
    assert(cases@.take(cases.len() as int) =~= cases@);
}

/// See [`spec_local_vars`].
pub fn collect_local_var_declarations(statements: &Vec<BodyStatement>, out: &mut Vec<(String, Option<TextSpan>)>)
    ensures
        view_declared(final(out)@) == spec_local_vars(statements@, view_declared(old(out)@)),
    decreases statements, 1nat,
{
    let ghost start = view_declared(out@);
    let mut i: usize = 0;
    assert(statements@.take(0) =~= Seq::<BodyStatement>::empty());
    while i < statements.len()
        invariant
            0 <= i <= statements.len(),
            view_declared(out@) == spec_local_vars(statements@.take(i as int), start),
        decreases statements.len() - i,
    {
        proof {
            assert(statements@.take(i + 1).drop_last() =~= statements@.take(i as int));
            assert(statements@.take(i + 1).last() == statements@[i as int]);
            assert(decreases_to!(*statements => statements@));
            assert(decreases_to!(statements@ => statements@[i as int]));
        }
        statement_vars(&statements[i], out);
        i = i + 1;
    }
    assert(statements@.take(statements.len() as int) =~= statements@);
}

fn statement_types(s: &BodyStatement, out: &mut Vec<(String, Option<TextSpan>)>)
    ensures
        view_declared(final(out)@) == spec_statement_types(*s, view_declared(old(out)@)),
    decreases s, 0nat,
{
    match s {
        BodyStatement::TypeAlias { name, name_span, is_declare } => {
            if !*is_declare {
                push_declared(out, name, *name_span);
            }
        },
        BodyStatement::Interface { name, name_span, is_declare } => {
            if !*is_declare {
                push_declared(out, name, *name_span);
            }
        },
        BodyStatement::Block(b) => collect_local_type_declarations(b, out),
        BodyStatement::If { then_body, else_body } => {
            collect_local_type_declarations(then_body, out);
            collect_local_type_declarations(else_body, out);
        },
        BodyStatement::While { body } => collect_local_type_declarations(body, out),
        BodyStatement::ForOf { body } => collect_local_type_declarations(body, out),
        BodyStatement::Switch { cases } => case_types(cases, out),
        BodyStatement::Try { block, handler, finalizer } => {
            collect_local_type_declarations(block, out);
            match handler {
                Some(h) => collect_local_type_declarations(h, out),
                None => {},
            }
            collect_local_type_declarations(finalizer, out);
        },
        _ => {},
    }
}

fn case_types(cases: &Vec<SwitchCase>, out: &mut Vec<(String, Option<TextSpan>)>)
    ensures
        view_declared(final(out)@) == spec_case_types(cases@, view_declared(old(out)@)),
    decreases cases, 1nat,
{
    let ghost start = view_declared(out@);
    let mut i: usize = 0;
    assert(cases@.take(0) =~= Seq::<SwitchCase>::empty());
    while i < cases.len()
        invariant
            0 <= i <= cases.len(),
            view_declared(out@) == spec_case_types(cases@.take(i as int), start),
        decreases cases.len() - i,
    {
        proof {
            assert(cases@.take(i + 1).drop_last() =~= cases@.take(i as int));
            assert(cases@.take(i + 1).last() == cases@[i as int]);
            assert(decreases_to!(*cases => cases@));
            assert(decreases_to!(cases@ => cases@[i as int]));
            assert(decreases_to!(cases@[i as int] => cases@[i as int].consequent));
        }
        collect_local_type_declarations(&cases[i].consequent, out);
        i = i + 1;
    }
    assert(cases@.take(cases.len() as int) =~= cases@);
}

/// See [`spec_local_types`].
pub fn collect_local_type_declarations(statements: &Vec<BodyStatement>, out: &mut Vec<(String, Option<TextSpan>)>)
    ensures
        view_declared(final(out)@) == spec_local_types(statements@, view_declared(old(out)@)),
    decreases statements, 1nat,
{
    let ghost start = view_declared(out@);
    let mut i: usize = 0;
    assert(statements@.take(0) =~= Seq::<BodyStatement>::empty());
    while i < statements.len()
        invariant
            0 <= i <= statements.len(),
            view_declared(out@) == spec_local_types(statements@.take(i as int), start),
        decreases statements.len() - i,
    {
        proof {
            assert(statements@.take(i + 1).drop_last() =~= statements@.take(i as int));
            assert(statements@.take(i + 1).last() == statements@[i as int]);
            assert(decreases_to!(*statements => statements@));
            assert(decreases_to!(statements@ => statements@[i as int]));
        }
        statement_types(&statements[i], out);
        i = i + 1;
    }
    assert(statements@.take(statements.len() as int) =~= statements@);
}


// ---------------------------------------------------------------------------
// Reports

/// Each declared name `reads` lacks, reported as an unused value, appended
/// to `acc` in order.
pub open spec fn spec_report_unread(declared: Seq<(Seq<char>, Option<TextSpan>)>, reads: Seq<String>, acc: Seq<SpecReport>) -> Seq<SpecReport>
    decreases declared.len(),
{
    if declared.len() == 0 {
        acc
    } else {
        let before = spec_report_unread(declared.drop_last(), reads, acc);
        let (name, span) = declared.last();
        if spec_is_read(reads, name) {
            before
        } else {
            before.push(SpecReport::Unused { name, span })
        }
    }
}

/// Each declared type `reads` lacks, reported as an unused type, appended to
/// `acc` in order.
pub open spec fn spec_report_unread_types(declared: Seq<(Seq<char>, Option<TextSpan>)>, reads: Seq<String>, acc: Seq<SpecReport>) -> Seq<SpecReport>
    decreases declared.len(),
{
    if declared.len() == 0 {
        acc
    } else {
        let before = spec_report_unread_types(declared.drop_last(), reads, acc);
        let (name, span) = declared.last();
        if spec_is_read(reads, name) {
            before
        } else {
            before.push(SpecReport::UnusedType { name, span })
        }
    }
}

/// The reports for a body's unused locals, appended to `acc`: nothing
/// unless unused locals are reported (the option is on and the file is a
/// source of the program); else its unread local variables, then its unread
/// local types.
pub open spec fn spec_unused_locals(ctx: CheckerContext, statements: Seq<BodyStatement>, reads: Seq<String>, acc: Seq<SpecReport>) -> Seq<SpecReport> {
    if !ctx.options.no_unused_locals || ctx.current_file_kind != FileKind::RootSource {
        acc
    } else {
        spec_report_unread_types(
            spec_local_types(statements, Seq::empty()),
            reads,
            spec_report_unread(spec_local_vars(statements, Seq::empty()), reads, acc),
        )
    }
}

fn report_unread(declared: &Vec<(String, Option<TextSpan>)>, reads: &Vec<String>, types: bool, out: &mut Vec<UnusedReport>)
    requires
        spec_strictly_sorted(reads@),
    ensures
        view_reports(final(out)@) == (if types {
            spec_report_unread_types(view_declared(declared@), reads@, view_reports(old(out)@))
        } else {
            spec_report_unread(view_declared(declared@), reads@, view_reports(old(out)@))
        }),
{
    let ghost start = view_reports(out@);
    let ghost ds = view_declared(declared@);
    let mut i: usize = 0;
    assert(ds.take(0) =~= Seq::<(Seq<char>, Option<TextSpan>)>::empty());
    while i < declared.len()
        invariant
            0 <= i <= declared.len(),
            spec_strictly_sorted(reads@),
            ds == view_declared(declared@),
            view_reports(out@) == (if types {
                spec_report_unread_types(ds.take(i as int), reads@, start)
            } else {
                spec_report_unread(ds.take(i as int), reads@, start)
            }),
        decreases declared.len() - i,
    {
        proof {
            assert(ds.take(i + 1).drop_last() =~= ds.take(i as int));
            assert(ds.take(i + 1).last() == (declared@[i as int].0@, declared@[i as int].1));
        }
        let (name, span) = &declared[i];
        if !is_read(reads, name.as_str()) {
            let ghost before = view_reports(out@);
            let report = if types {
                UnusedReport::UnusedType { name: name.clone(), span: *span }
            } else {
                UnusedReport::Unused { name: name.clone(), span: *span }
            };
            out.push(report);
            assert(view_reports(out@) =~= before.push(report@));
        }
        i = i + 1;
    }
    assert(ds.take(declared.len() as int) =~= ds);
}

/// See [`spec_unused_locals`]; `reads` are the names the body reads, sorted.
pub fn emit_unused_locals(statements: &Vec<BodyStatement>, reads: &Vec<String>, ctx: &CheckerContext, out: &mut Vec<UnusedReport>)
    requires
        spec_strictly_sorted(reads@),
    ensures
        view_reports(final(out)@) == spec_unused_locals(*ctx, statements@, reads@, view_reports(old(out)@)),
{
    if !ctx.options.no_unused_locals || ctx.current_file_kind != FileKind::RootSource {
        return;
    }
    let mut locals: Vec<(String, Option<TextSpan>)> = Vec::new();
    let mut local_types: Vec<(String, Option<TextSpan>)> = Vec::new();
    assert(view_declared(locals@) =~= Seq::<(Seq<char>, Option<TextSpan>)>::empty());
    assert(view_declared(local_types@) =~= Seq::<(Seq<char>, Option<TextSpan>)>::empty());
    collect_local_var_declarations(statements, &mut locals);
    collect_local_type_declarations(statements, &mut local_types);
    report_unread(&locals, reads, false, out);
    report_unread(&local_types, reads, true, out);
}

/// The reports for one level of a destructuring pattern, appended to `acc`:
/// nothing when no binding is unused, one report for the whole pattern when
/// two or more bindings are and they are all of its `element_count`
/// elements, otherwise one per unused binding.
pub open spec fn spec_report_group(unused: Seq<(Seq<char>, Option<TextSpan>)>, element_count: int, pattern_span: Option<TextSpan>, acc: Seq<SpecReport>) -> Seq<SpecReport> {
    if unused.len() == 0 {
        acc
    } else if unused.len() >= 2 && unused.len() == element_count {
        acc.push(SpecReport::AllDestructuredUnused { span: pattern_span })
    } else {
        acc + unused.map_values(|u: (Seq<char>, Option<TextSpan>)| SpecReport::Unused { name: u.0, span: u.1 })
    }
}

/// A pattern's rest binding added to its unused bindings when it is a name
/// the body never reads; `underscore_exempts` (an array rest) spares a
/// `_`-prefixed one.
pub open spec fn spec_unused_rest(rest: Option<Box<BindingName>>, reads: Seq<String>, underscore_exempts: bool, unused: Seq<(Seq<char>, Option<TextSpan>)>) -> Seq<(Seq<char>, Option<TextSpan>)> {
    match rest {
        Some(b) => match *b {
            BindingName::Identifier { name, span } => if (underscore_exempts && spec_underscored(name@))
                || spec_is_read(reads, name@) {
                unused
            } else {
                unused.push((name@, span))
            },
            _ => unused,
        },
        None => unused,
    }
}

/// The reports for an object pattern, appended to `acc`: its nested
/// patterns' reports as its elements are read, then its own group. A
/// named element is unused when the body never reads it, unless the
/// pattern has a rest (the siblings of a rest keep their properties out of
/// it) or it renames its property to a `_`-prefixed name; the rest itself
/// is unused when never read.
pub open spec fn spec_object_pattern_reports(p: ObjectBindingPattern, reads: Seq<String>, acc: Seq<SpecReport>) -> Seq<SpecReport>
    decreases p, 2nat,
{
    let has_rest = p.rest is Some;
    let (out, unused) = spec_object_elements(p.elements@, has_rest, reads, acc);
    spec_report_group(
        spec_unused_rest(p.rest, reads, false, unused),
        p.elements@.len() + if has_rest {
            1int
        } else {
            0int
        },
        p.span,
        out,
    )
}

/// The elements of an object pattern read in order: the nested reports
/// appended to `acc`, and the unused named elements (each at its binding's
/// span, else its property name's).
pub open spec fn spec_object_elements(es: Seq<ObjectBindingElement>, has_rest: bool, reads: Seq<String>, acc: Seq<SpecReport>) -> (Seq<SpecReport>, Seq<(Seq<char>, Option<TextSpan>)>)
    decreases es, 1nat,
{
    if es.len() == 0 {
        (acc, Seq::empty())
    } else {
        let (out, unused) = spec_object_elements(es.drop_last(), has_rest, reads, acc);
        let e = es.last();
        match e.binding_name {
            BindingName::Identifier { name, span } => if has_rest || (!e.shorthand && spec_underscored(
                name@,
            )) || spec_is_read(reads, name@) {
                (out, unused)
            } else {
                (
                    out,
                    unused.push(
                        (
                            name@,
                            match span {
                                Some(s) => Some(s),
                                None => e.name_span,
                            },
                        ),
                    ),
                )
            },
            BindingName::ObjectPattern(nested) => (spec_object_pattern_reports(nested, reads, out), unused),
            BindingName::ArrayPattern(nested) => (spec_array_pattern_reports(nested, reads, out), unused),
            BindingName::Unsupported => (out, unused),
        }
    }
}

/// The reports for an array pattern, appended to `acc`: its nested
/// patterns' reports as its elements are read (holes skipped), then its own
/// group; a named element or rest is unused when never read and not
/// `_`-prefixed.
pub open spec fn spec_array_pattern_reports(p: ArrayBindingPattern, reads: Seq<String>, acc: Seq<SpecReport>) -> Seq<SpecReport>
    decreases p, 2nat,
{
    let (out, unused) = spec_array_elements(p.elements@, reads, acc);
    spec_report_group(
        spec_unused_rest(p.rest, reads, true, unused),
        p.elements@.len() + if p.rest is Some {
            1int
        } else {
            0int
        },
        p.span,
        out,
    )
}

/// The elements of an array pattern read in order (see
/// [`spec_array_pattern_reports`]).
pub open spec fn spec_array_elements(es: Seq<Option<BindingName>>, reads: Seq<String>, acc: Seq<SpecReport>) -> (Seq<SpecReport>, Seq<(Seq<char>, Option<TextSpan>)>)
    decreases es, 1nat,
{
    if es.len() == 0 {
        (acc, Seq::empty())
    } else {
        let (out, unused) = spec_array_elements(es.drop_last(), reads, acc);
        match es.last() {
            Some(b) => match b {
                BindingName::Identifier { name, span } => if spec_underscored(name@) || spec_is_read(
                    reads,
                    name@,
                ) {
                    (out, unused)
                } else {
                    (out, unused.push((name@, span)))
                },
                BindingName::ObjectPattern(nested) => (spec_object_pattern_reports(nested, reads, out), unused),
                BindingName::ArrayPattern(nested) => (spec_array_pattern_reports(nested, reads, out), unused),
                BindingName::Unsupported => (out, unused),
            },
            None => (out, unused),
        }
    }
}

/// The reports for the parameters, appended to `acc` in order: a named
/// parameter the body never reads (not `this`, not `_`-prefixed), and the
/// reports of each destructuring parameter's pattern.
pub open spec fn spec_unused_parameters(parameters: Seq<FunctionParameter>, reads: Seq<String>, acc: Seq<SpecReport>) -> Seq<SpecReport>
    decreases parameters.len(),
{
    if parameters.len() == 0 {
        acc
    } else {
        let before = spec_unused_parameters(parameters.drop_last(), reads, acc);
        match parameters.last().binding_name {
            BindingName::Identifier { name, span } => if name@ == this_name() || spec_underscored(name@)
                || spec_is_read(reads, name@) {
                before
            } else {
                before.push(SpecReport::Unused { name: name@, span })
            },
            BindingName::ObjectPattern(p) => spec_object_pattern_reports(p, reads, before),
            BindingName::ArrayPattern(p) => spec_array_pattern_reports(p, reads, before),
            BindingName::Unsupported => before,
        }
    }
}

fn push_unused(unused: &mut Vec<(String, Option<TextSpan>)>, name: &String, span: Option<TextSpan>)
    ensures
        view_declared(final(unused)@) == view_declared(old(unused)@).push((name@, span)),
{
    push_declared(unused, name, span);
}

/// See [`spec_report_group`]: the pattern has `elements_len` elements and a
/// rest when `has_rest`.
pub fn report_pattern_group(
    unused: Vec<(String, Option<TextSpan>)>,
    elements_len: usize,
    has_rest: bool,
    pattern_span: Option<TextSpan>,
    out: &mut Vec<UnusedReport>,
)
    ensures
        view_reports(final(out)@) == spec_report_group(
            view_declared(unused@),
            elements_len + if has_rest {
                1int
            } else {
                0int
            },
            pattern_span,
            view_reports(old(out)@),
        ),
{
    let ghost us = view_declared(unused@);
    if unused.len() == 0 {
        return;
    }
    let every = if has_rest {
        unused.len() - 1 == elements_len
    } else {
        unused.len() == elements_len
    };
    if unused.len() >= 2 && every {
        let ghost before = view_reports(out@);
        out.push(UnusedReport::AllDestructuredUnused { span: pattern_span });
        assert(view_reports(out@) =~= before.push(SpecReport::AllDestructuredUnused { span: pattern_span }));
        return;
    }
    let ghost start = view_reports(out@);
    let ghost mapped = us.map_values(|u: (Seq<char>, Option<TextSpan>)| SpecReport::Unused { name: u.0, span: u.1 });
    let mut i: usize = 0;
    assert(start + mapped.take(0) =~= start);
    while i < unused.len()
        invariant
            0 <= i <= unused.len(),
            us == view_declared(unused@),
            mapped == us.map_values(|u: (Seq<char>, Option<TextSpan>)| SpecReport::Unused { name: u.0, span: u.1 }),
            view_reports(out@) == start + mapped.take(i as int),
        decreases unused.len() - i,
    {
        let ghost before = view_reports(out@);
        let report = UnusedReport::Unused { name: unused[i].0.clone(), span: unused[i].1 };
        out.push(report);
        assert(view_reports(out@) =~= before.push(report@));
        assert(start + mapped.take(i + 1) =~= (start + mapped.take(i as int)).push(mapped[i as int]));
        i = i + 1;
    }
    assert(mapped.take(unused.len() as int) =~= mapped);
}

fn collect_unused_rest(rest: &Option<Box<BindingName>>, reads: &Vec<String>, underscore_exempts: bool, unused: &mut Vec<(String, Option<TextSpan>)>)
    requires
        spec_strictly_sorted(reads@),
    ensures
        view_declared(final(unused)@) == spec_unused_rest(*rest, reads@, underscore_exempts, view_declared(old(unused)@)),
{
    match rest {
        Some(b) => match &**b {
            BindingName::Identifier { name, span } => {
                if (underscore_exempts && starts_with_underscore(name.as_str())) || is_read(reads, name.as_str()) {
                    return;
                }
                push_unused(unused, name, *span);
            },
            _ => {},
        },
        None => {},
    }
}

/// See [`spec_object_pattern_reports`]; `reads` are the names the body
/// reads, sorted.
pub fn emit_unused_object_pattern_bindings(pattern: &ObjectBindingPattern, reads: &Vec<String>, out: &mut Vec<UnusedReport>)
    requires
        spec_strictly_sorted(reads@),
    ensures
        view_reports(final(out)@) == spec_object_pattern_reports(*pattern, reads@, view_reports(old(out)@)),
    decreases pattern, 2nat,
{
    let has_rest = pattern.rest.is_some();
    let ghost start = view_reports(out@);
    let ghost es = pattern.elements@;
    let mut unused: Vec<(String, Option<TextSpan>)> = Vec::new();
    let mut i: usize = 0;
    assert(es.take(0) =~= Seq::<ObjectBindingElement>::empty());
    assert(view_declared(unused@) =~= Seq::<(Seq<char>, Option<TextSpan>)>::empty());
    while i < pattern.elements.len()
        invariant
            0 <= i <= pattern.elements.len(),
            spec_strictly_sorted(reads@),
            es == pattern.elements@,
            has_rest == (pattern.rest is Some),
            (view_reports(out@), view_declared(unused@)) == spec_object_elements(
                es.take(i as int),
                has_rest,
                reads@,
                start,
            ),
        decreases pattern.elements.len() - i,
    {
        proof {
            assert(es.take(i + 1).drop_last() =~= es.take(i as int));
            assert(es.take(i + 1).last() == es[i as int]);
            assert(decreases_to!(*pattern => pattern.elements));
            assert(decreases_to!(pattern.elements => pattern.elements@));
            assert(decreases_to!(pattern.elements@ => pattern.elements@[i as int]));
            assert(decreases_to!(pattern.elements@[i as int] => pattern.elements@[i as int].binding_name));
        }
        let element = &pattern.elements[i];
        match &element.binding_name {
            BindingName::Identifier { name, span } => {
                let renamed_to_ignore = !element.shorthand && starts_with_underscore(name.as_str());
                if !(has_rest || renamed_to_ignore || is_read(reads, name.as_str())) {
                    let at = match span {
                        Some(s) => Some(*s),
                        None => element.name_span,
                    };
                    push_unused(&mut unused, name, at);
                }
            },
            BindingName::ObjectPattern(nested) => {
                emit_unused_object_pattern_bindings(nested, reads, out);
            },
            BindingName::ArrayPattern(nested) => {
                emit_unused_array_pattern_bindings(nested, reads, out);
            },
            BindingName::Unsupported => {},
        }
        i = i + 1;
    }
    assert(es.take(pattern.elements.len() as int) =~= es);
    collect_unused_rest(&pattern.rest, reads, false, &mut unused);
    report_pattern_group(unused, pattern.elements.len(), has_rest, pattern.span, out);
}

/// See [`spec_array_pattern_reports`]; `reads` are the names the body
/// reads, sorted.
pub fn emit_unused_array_pattern_bindings(pattern: &ArrayBindingPattern, reads: &Vec<String>, out: &mut Vec<UnusedReport>)
    requires
        spec_strictly_sorted(reads@),
    ensures
        view_reports(final(out)@) == spec_array_pattern_reports(*pattern, reads@, view_reports(old(out)@)),
    decreases pattern, 2nat,
{
    let ghost start = view_reports(out@);
    let ghost es = pattern.elements@;
    let mut unused: Vec<(String, Option<TextSpan>)> = Vec::new();
    let mut i: usize = 0;
    assert(es.take(0) =~= Seq::<Option<BindingName>>::empty());
    assert(view_declared(unused@) =~= Seq::<(Seq<char>, Option<TextSpan>)>::empty());
    while i < pattern.elements.len()
        invariant
            0 <= i <= pattern.elements.len(),
            spec_strictly_sorted(reads@),
            es == pattern.elements@,
            (view_reports(out@), view_declared(unused@)) == spec_array_elements(es.take(i as int), reads@, start),
        decreases pattern.elements.len() - i,
    {
        proof {
            assert(es.take(i + 1).drop_last() =~= es.take(i as int));
            assert(es.take(i + 1).last() == es[i as int]);
            assert(decreases_to!(*pattern => pattern.elements));
            assert(decreases_to!(pattern.elements => pattern.elements@));
            assert(decreases_to!(pattern.elements@ => pattern.elements@[i as int]));
        }
        match &pattern.elements[i] {
            Some(BindingName::Identifier { name, span }) => {
                if !(starts_with_underscore(name.as_str()) || is_read(reads, name.as_str())) {
                    push_unused(&mut unused, name, *span);
                }
            },
            Some(BindingName::ObjectPattern(nested)) => {
                emit_unused_object_pattern_bindings(nested, reads, out);
            },
            Some(BindingName::ArrayPattern(nested)) => {
                emit_unused_array_pattern_bindings(nested, reads, out);
            },
            Some(BindingName::Unsupported) => {},
            None => {},
        }
        i = i + 1;
    }
    assert(es.take(pattern.elements.len() as int) =~= es);
    collect_unused_rest(&pattern.rest, reads, true, &mut unused);
    report_pattern_group(unused, pattern.elements.len(), pattern.rest.is_some(), pattern.span, out);
}

/// See [`spec_unused_parameters`]; `reads` are the names the body reads,
/// sorted.
pub fn emit_unused_parameters(parameters: &Vec<FunctionParameter>, reads: &Vec<String>, out: &mut Vec<UnusedReport>)
    requires
        spec_strictly_sorted(reads@),
    ensures
        view_reports(final(out)@) == spec_unused_parameters(parameters@, reads@, view_reports(old(out)@)),
{
    let ghost start = view_reports(out@);
    let mut i: usize = 0;
    assert(parameters@.take(0) =~= Seq::<FunctionParameter>::empty());
    while i < parameters.len()
        invariant
            0 <= i <= parameters.len(),
            spec_strictly_sorted(reads@),
            view_reports(out@) == spec_unused_parameters(parameters@.take(i as int), reads@, start),
        decreases parameters.len() - i,
    {
        proof {
            assert(parameters@.take(i + 1).drop_last() =~= parameters@.take(i as int));
            assert(parameters@.take(i + 1).last() == parameters@[i as int]);
        }
        match &parameters[i].binding_name {
            BindingName::Identifier { name, span } => {
                proof {
                    reveal_strlit("this");
                    assert("this"@ =~= this_name());
                }
                let is_this = chars_are(&chars_of(name.as_str()), "this");
                if !(is_this || starts_with_underscore(name.as_str()) || is_read(reads, name.as_str())) {
                    let ghost before = view_reports(out@);
                    let report = UnusedReport::Unused { name: name.clone(), span: *span };
                    out.push(report);
                    assert(view_reports(out@) =~= before.push(report@));
                }
            },
            BindingName::ObjectPattern(p) => emit_unused_object_pattern_bindings(p, reads, out),
            BindingName::ArrayPattern(p) => emit_unused_array_pattern_bindings(p, reads, out),
            BindingName::Unsupported => {},
        }
        i = i + 1;
    }
    assert(parameters@.take(parameters.len() as int) =~= parameters@);
}

} // verus!
