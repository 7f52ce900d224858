//! A whole condition applied to a symbol table: `!`, a comparison with a
//! boolean literal, and `&&`/`||` chains are taken apart, and each single
//! guard narrows the binding it tests.

use vstd::prelude::*;
use crate::guards::discriminant::spec_parse_discriminant_condition;
use crate::narrowing::{spec_strip_boolean_literal_comparison, strip_boolean_literal_comparison, Side};
use crate::symbols::{lemma_get_same_entries, spec_get, view_entries, view_names, SpecSymbol, SymbolTable};
use crate::syntax::{Expr, LogicalOperator, UnaryOperator};
use crate::table_narrowing::{
    narrow_array_isarray_symbol_table, narrow_discriminant_symbol_table, narrow_instanceof_symbol_table,
    spec_discriminant_table_step,

    narrow_literal_equality_symbol_table, narrow_nullish_equality_symbol_table,
    narrow_property_presence_symbol_table, narrow_typeof_symbol_table, spec_disjunct_result,
    spec_disjunct_steps, spec_disjunct_names, spec_instanceof_table_step, spec_isarray_table_step,
    spec_literal_equality_table_step, spec_nullish_table_step, spec_presence_table_step,
    spec_step_result, spec_typeof_table_step, step_names, union_disjunct_narrowings, Narrowing,
};

verus! {

/// The narrowing a single guard makes to a table: the first of a
/// discriminant test, a literal comparison, a `typeof` test, an `instanceof`
/// test, `Array.isArray`, an `in` test and a nullish comparison that narrows
/// a binding. Guards on a property path below a binding, truthiness tests on
/// a reference, comparisons of two references, aliased conditions and
/// destructured discriminants are not consulted: such a condition narrows
/// nothing here.
pub open spec fn spec_single_guard_step(condition: Expr, symbols: SymbolTable, branch_is_true: bool) -> Narrowing {
    let discriminant = spec_discriminant_table_step(condition, symbols, branch_is_true);
    let literal = spec_literal_equality_table_step(condition, symbols, branch_is_true);
    let typeof_step = spec_typeof_table_step(condition, symbols, branch_is_true);
    let instanceof_step = spec_instanceof_table_step(condition, symbols, branch_is_true);
    let isarray = spec_isarray_table_step(condition, symbols, branch_is_true);
    let presence = spec_presence_table_step(condition, symbols, branch_is_true);
    if discriminant is Some {
        discriminant
    } else if literal is Some {
        literal
    } else if typeof_step is Some {
        typeof_step
    } else if instanceof_step is Some {
        instanceof_step
    } else if isarray is Some {
        isarray
    } else if presence is Some {
        presence
    } else {
        spec_nullish_table_step(condition, symbols, branch_is_true)
    }
}

/// What a table reads as: its bindings as names and symbols, innermost
/// last, and the names narrowed in it, in order.
pub struct TableView {
    pub entries: Seq<(Seq<char>, SpecSymbol)>,
    pub narrowed: Seq<Seq<char>>,
}

/// See [`TableView`].
pub open spec fn spec_view_of(t: SymbolTable) -> TableView {
    TableView { entries: view_entries(t.entries@), narrowed: view_names(t.narrowed@) }
}

/// The option view of a table.
pub open spec fn spec_opt_view(o: Option<SymbolTable>) -> Option<TableView> {
    match o {
        Some(t) => Some(spec_view_of(t)),
        None => None,
    }
}

/// A table that reads as `v`.
pub open spec fn spec_table_of(v: TableView) -> SymbolTable {
    choose|t: SymbolTable| spec_view_of(t) == v
}

/// The table a branch is checked in, given what narrowed it.
pub open spec fn spec_or_view(narrowed: Option<TableView>, v: TableView) -> TableView {
    match narrowed {
        Some(t) => t,
        None => v,
    }
}

/// The first narrowing that is there.
pub open spec fn spec_or_narrowed(first: Option<TableView>, second: Option<TableView>) -> Option<TableView> {
    match first {
        Some(t) => Some(t),
        None => second,
    }
}

/// A single guard (see [`spec_single_guard_step`]) on a table that reads as
/// `v`: the narrowed binding on top, recorded as narrowed.
pub open spec fn spec_single_guard_view(condition: Expr, v: TableView, branch_is_true: bool) -> Option<TableView> {
    match spec_single_guard_step(condition, spec_table_of(v), branch_is_true) {
        Some((name, symbol)) => Some(
            TableView { entries: v.entries.push((name, symbol)), narrowed: v.narrowed.push(name) },
        ),
        None => None,
    }
}

/// The merge of the tables two branches reach, over tables that read as `v`,
/// `left` and `right` (see [`spec_disjunct_result`]).
pub open spec fn spec_disjunct_view(v: TableView, left: TableView, right: TableView) -> Option<TableView> {
    let s = spec_table_of(v);
    let l = spec_table_of(left);
    let r = spec_table_of(right);
    let steps = spec_disjunct_steps(s, l, r, spec_disjunct_names(l, r));
    if steps.len() == 0 {
        None
    } else {
        Some(TableView { entries: v.entries + steps, narrowed: v.narrowed + step_names(steps) })
    }
}

/// What `condition` narrows a table that reads as `v` to in `branch_is_true`
/// (`None`: nothing):
/// - `!c` narrows as `c` does in the other branch, and a guard compared with
///   a boolean literal as the guard does in the branch the comparison gives;
/// - an `&&` in its true branch (an `||` in its false one) narrows by its left
///   operand, then by its right one over that;
/// - `A || B` holds where `A` does, or where `A` fails and `B` then holds: both
///   edges have to narrow, and the table is their merge; `A && B` fails where
///   `A` does, or where `A` holds and `B` then fails, which narrows when
///   either failure does, and the table is the merge of the two;
/// - any other condition is a single guard (see [`spec_single_guard_step`]).
pub open spec fn spec_narrow_condition(condition: Expr, v: TableView, branch_is_true: bool) -> Option<TableView>
    decreases condition,
{
    match condition {
        Expr::Unary { operator, operand } => if operator == UnaryOperator::Not {
            spec_narrow_condition(*operand, v, !branch_is_true)
        } else {
            spec_single_guard_view(condition, v, branch_is_true)
        },
        Expr::Binary { left, operator: _, right } => match spec_strip_boolean_literal_comparison(condition) {
            Some((side, flip)) => if side == Side::Left {
                spec_narrow_condition(*left, v, branch_is_true != flip)
            } else {
                spec_narrow_condition(*right, v, branch_is_true != flip)
            },
            None => spec_single_guard_view(condition, v, branch_is_true),
        },
        Expr::Logical { left, operator, right } => if operator == LogicalOperator::And && branch_is_true
            || operator == LogicalOperator::Or && !branch_is_true {
            let first = spec_narrow_condition(*left, v, branch_is_true);
            let second = spec_narrow_condition(*right, spec_or_view(first, v), branch_is_true);
            spec_or_narrowed(second, first)
        } else if operator == LogicalOperator::Or {
            let left_holds = spec_narrow_condition(*left, v, true);
            let left_fails = spec_narrow_condition(*left, v, false);
            let right_holds = spec_narrow_condition(*right, spec_or_view(left_fails, v), true);
            match (left_holds, right_holds) {
                (Some(lh), Some(rh)) => spec_disjunct_view(v, lh, rh),
                _ => None,
            }
        } else if operator == LogicalOperator::And {
            let left_fails = spec_narrow_condition(*left, v, false);
            let left_holds = spec_narrow_condition(*left, v, true);
            let right_fails = spec_narrow_condition(*right, spec_or_view(left_holds, v), false);
            if left_fails is None && right_fails is None {
                None
            } else {
                spec_disjunct_view(
                    v,
                    spec_or_view(left_fails, v),
                    spec_or_view(spec_or_narrowed(right_fails, left_holds), v),
                )
            }
        } else {
            spec_single_guard_view(condition, v, branch_is_true)
        },
        _ => spec_single_guard_view(condition, v, branch_is_true),
    }
}

/// A table reads as the table chosen for what it reads as.
proof fn lemma_table_of(t: SymbolTable)
    ensures
        spec_view_of(spec_table_of(spec_view_of(t))) == spec_view_of(t),
{
    let v = spec_view_of(t);
    assert(exists|u: SymbolTable| spec_view_of(u) == v);
}

proof fn lemma_same_get(a: SymbolTable, b: SymbolTable)
    requires
        view_entries(a.entries@) == view_entries(b.entries@),
    ensures
        forall|name: Seq<char>| #[trigger] spec_get(a, name) == spec_get(b, name),
{
    assert forall|name: Seq<char>| #[trigger] spec_get(a, name) == spec_get(b, name) by {
        lemma_get_same_entries(a, b, name);
    }
}

proof fn lemma_discriminant_same(condition: Expr, a: SymbolTable, b: SymbolTable, branch_is_true: bool)
    requires
        view_entries(a.entries@) == view_entries(b.entries@),
    ensures
        spec_discriminant_table_step(condition, a, branch_is_true) == spec_discriminant_table_step(condition, b, branch_is_true),
{
    assert(spec_parse_discriminant_condition(condition, a) == spec_parse_discriminant_condition(condition, b)) by {
        lemma_same_get(a, b);
    }
    match spec_parse_discriminant_condition(condition, a) {
        Some((object, _, _, _)) => match object {
            Expr::Identifier(name) => {
                lemma_get_same_entries(a, b, name@);
            },
            Expr::PropertyAccess { object: inner, property_name: _ } => match *inner {
                Expr::Identifier(name) => {
                    lemma_get_same_entries(a, b, name@);
                },
                Expr::This => {
                    lemma_get_same_entries(a, b, crate::aliases::this_name());
                },
                _ => {},
            },
            _ => {},
        },
        None => {},
    }
}

proof fn lemma_literal_equality_same(condition: Expr, a: SymbolTable, b: SymbolTable, branch_is_true: bool)
    requires
        view_entries(a.entries@) == view_entries(b.entries@),
    ensures
        spec_literal_equality_table_step(condition, a, branch_is_true) == spec_literal_equality_table_step(condition, b, branch_is_true),
{
    lemma_same_get(a, b);
}

proof fn lemma_typeof_same(condition: Expr, a: SymbolTable, b: SymbolTable, branch_is_true: bool)
    requires
        view_entries(a.entries@) == view_entries(b.entries@),
    ensures
        spec_typeof_table_step(condition, a, branch_is_true) == spec_typeof_table_step(condition, b, branch_is_true),
{
    lemma_same_get(a, b);
}

proof fn lemma_instanceof_same(condition: Expr, a: SymbolTable, b: SymbolTable, branch_is_true: bool)
    requires
        view_entries(a.entries@) == view_entries(b.entries@),
    ensures
        spec_instanceof_table_step(condition, a, branch_is_true) == spec_instanceof_table_step(condition, b, branch_is_true),
{
    lemma_same_get(a, b);
}

proof fn lemma_isarray_same(condition: Expr, a: SymbolTable, b: SymbolTable, branch_is_true: bool)
    requires
        view_entries(a.entries@) == view_entries(b.entries@),
    ensures
        spec_isarray_table_step(condition, a, branch_is_true) == spec_isarray_table_step(condition, b, branch_is_true),
{
    lemma_same_get(a, b);
}

proof fn lemma_presence_same(condition: Expr, a: SymbolTable, b: SymbolTable, branch_is_true: bool)
    requires
        view_entries(a.entries@) == view_entries(b.entries@),
    ensures
        spec_presence_table_step(condition, a, branch_is_true) == spec_presence_table_step(condition, b, branch_is_true),
{
    lemma_same_get(a, b);
}

proof fn lemma_nullish_same(condition: Expr, a: SymbolTable, b: SymbolTable, branch_is_true: bool)
    requires
        view_entries(a.entries@) == view_entries(b.entries@),
    ensures
        spec_nullish_table_step(condition, a, branch_is_true) == spec_nullish_table_step(condition, b, branch_is_true),
{
    lemma_same_get(a, b);
}

/// A single guard narrows tables with the same bindings alike.
proof fn lemma_single_guard_same(condition: Expr, a: SymbolTable, b: SymbolTable, branch_is_true: bool)
    requires
        view_entries(a.entries@) == view_entries(b.entries@),
    ensures
        spec_single_guard_step(condition, a, branch_is_true) == spec_single_guard_step(condition, b, branch_is_true),
{
    lemma_discriminant_same(condition, a, b, branch_is_true);
    lemma_literal_equality_same(condition, a, b, branch_is_true);
    lemma_typeof_same(condition, a, b, branch_is_true);
    lemma_instanceof_same(condition, a, b, branch_is_true);
    lemma_isarray_same(condition, a, b, branch_is_true);
    lemma_presence_same(condition, a, b, branch_is_true);
    lemma_nullish_same(condition, a, b, branch_is_true);
}

proof fn lemma_disjunct_steps_same(
    s1: SymbolTable,
    s2: SymbolTable,
    l1: SymbolTable,
    l2: SymbolTable,
    r1: SymbolTable,
    r2: SymbolTable,
    names: Seq<Seq<char>>,
)
    requires
        view_entries(s1.entries@) == view_entries(s2.entries@),
        view_entries(l1.entries@) == view_entries(l2.entries@),
        view_entries(r1.entries@) == view_entries(r2.entries@),
    ensures
        spec_disjunct_steps(s1, l1, r1, names) == spec_disjunct_steps(s2, l2, r2, names),
    decreases names.len(),
{
    if names.len() > 0 {
        lemma_disjunct_steps_same(s1, s2, l1, l2, r1, r2, names.drop_last());
        lemma_get_same_entries(s1, s2, names.last());
        lemma_get_same_entries(l1, l2, names.last());
        lemma_get_same_entries(r1, r2, names.last());
    }
}

/// Merging two branches reads as [`spec_disjunct_view`] says.
proof fn lemma_disjunct_view(r: Option<SymbolTable>, symbols: SymbolTable, left: SymbolTable, right: SymbolTable)
    requires
        spec_disjunct_result(r, symbols, left, right),
    ensures
        spec_opt_view(r) == spec_disjunct_view(spec_view_of(symbols), spec_view_of(left), spec_view_of(right)),
{
    lemma_table_of(symbols);
    lemma_table_of(left);
    lemma_table_of(right);
    let s = spec_table_of(spec_view_of(symbols));
    let l = spec_table_of(spec_view_of(left));
    let rr = spec_table_of(spec_view_of(right));
    assert(spec_disjunct_names(l, rr) == spec_disjunct_names(left, right));
    lemma_disjunct_steps_same(symbols, s, left, l, right, rr, spec_disjunct_names(left, right));
}

/// A single guard's table reads as [`spec_single_guard_view`] says.
proof fn lemma_single_guard_view(condition: Expr, symbols: SymbolTable, branch_is_true: bool, r: Option<SymbolTable>)
    requires
        spec_step_result(r, symbols, spec_single_guard_step(condition, symbols, branch_is_true)),
    ensures
        spec_opt_view(r) == spec_single_guard_view(condition, spec_view_of(symbols), branch_is_true),
{
    lemma_table_of(symbols);
    lemma_single_guard_same(condition, symbols, spec_table_of(spec_view_of(symbols)), branch_is_true);
}

fn narrow_single_guard(condition: &Expr, symbols: &SymbolTable, branch_is_true: bool) -> (r: Option<SymbolTable>)
    ensures
        spec_step_result(r, *symbols, spec_single_guard_step(*condition, *symbols, branch_is_true)),
{
    let discriminant = narrow_discriminant_symbol_table(condition, symbols, branch_is_true);
    if discriminant.is_some() {
        return discriminant;
    }
    let literal = narrow_literal_equality_symbol_table(condition, symbols, branch_is_true);
    if literal.is_some() {
        return literal;
    }
    let typeof_table = narrow_typeof_symbol_table(condition, symbols, branch_is_true);
    if typeof_table.is_some() {
        return typeof_table;
    }
    let instanceof_table = narrow_instanceof_symbol_table(condition, symbols, branch_is_true);
    if instanceof_table.is_some() {
        return instanceof_table;
    }
    let isarray = narrow_array_isarray_symbol_table(condition, symbols, branch_is_true);
    if isarray.is_some() {
        return isarray;
    }
    let presence = narrow_property_presence_symbol_table(condition, symbols, branch_is_true);
    if presence.is_some() {
        return presence;
    }
    narrow_nullish_equality_symbol_table(condition, symbols, branch_is_true)
}

/// What a condition narrows a table to in a branch, `None` when it narrows
/// nothing (see [`spec_narrow_condition`]).
pub fn narrow_condition_symbol_table_by_guard(condition: &Expr, symbols: &SymbolTable, branch_is_true: bool) -> (r: Option<SymbolTable>)
    ensures
        spec_opt_view(r) == spec_narrow_condition(*condition, spec_view_of(*symbols), branch_is_true),
    decreases condition,
{
    match condition {
        Expr::Unary { operator, operand } => {
            if *operator == UnaryOperator::Not {
                return narrow_condition_symbol_table_by_guard(operand, symbols, !branch_is_true);
            }
            let r = narrow_single_guard(condition, symbols, branch_is_true);
            proof {
                lemma_single_guard_view(*condition, *symbols, branch_is_true, r);
            }
            r
        },
        Expr::Binary { left, operator: _, right } => {
            match strip_boolean_literal_comparison(condition) {
                Some((inner, flip)) => {
                    assert(*inner == *left || *inner == *right);
                    narrow_condition_symbol_table_by_guard(inner, symbols, branch_is_true != flip)
                },
                None => {
                    let r = narrow_single_guard(condition, symbols, branch_is_true);
                    proof {
                        lemma_single_guard_view(*condition, *symbols, branch_is_true, r);
                    }
                    r
                },
            }
        },
        Expr::Logical { left, operator, right } => {
            if *operator == LogicalOperator::And && branch_is_true || *operator == LogicalOperator::Or
                && !branch_is_true {
                let first = narrow_condition_symbol_table_by_guard(left, symbols, branch_is_true);
                let second = match &first {
                    Some(t) => narrow_condition_symbol_table_by_guard(right, t, branch_is_true),
                    None => narrow_condition_symbol_table_by_guard(right, symbols, branch_is_true),
                };
                match second {
                    Some(t) => Some(t),
                    None => first,
                }
            } else if *operator == LogicalOperator::Or {
                let left_holds = narrow_condition_symbol_table_by_guard(left, symbols, true);
                let left_fails = narrow_condition_symbol_table_by_guard(left, symbols, false);
                let right_holds = match &left_fails {
                    Some(t) => narrow_condition_symbol_table_by_guard(right, t, true),
                    None => narrow_condition_symbol_table_by_guard(right, symbols, true),
                };
                match (&left_holds, &right_holds) {
                    (Some(lh), Some(rh)) => {
                        let r = union_disjunct_narrowings(symbols, lh, rh);
                        proof {
                            lemma_disjunct_view(r, *symbols, *lh, *rh);
                        }
                        r
                    },
                    _ => None,
                }
            } else if *operator == LogicalOperator::And {
                let left_fails = narrow_condition_symbol_table_by_guard(left, symbols, false);
                let left_holds = narrow_condition_symbol_table_by_guard(left, symbols, true);
                let right_fails = match &left_holds {
                    Some(t) => narrow_condition_symbol_table_by_guard(right, t, false),
                    None => narrow_condition_symbol_table_by_guard(right, symbols, false),
                };
                if left_fails.is_none() && right_fails.is_none() {
                    return None;
                }
                let failing_left = match &left_fails {
                    Some(t) => t,
                    None => symbols,
                };
                let failing_right = match &right_fails {
                    Some(t) => t,
                    None => match &left_holds {
                        Some(t) => t,
                        None => symbols,
                    },
                };
                let r = union_disjunct_narrowings(symbols, failing_left, failing_right);
                proof {
                    lemma_disjunct_view(r, *symbols, *failing_left, *failing_right);
                }
                r
            } else {
                let r = narrow_single_guard(condition, symbols, branch_is_true);
                proof {
                    lemma_single_guard_view(*condition, *symbols, branch_is_true, r);
                }
                r
            }
        },
        _ => {
            let r = narrow_single_guard(condition, symbols, branch_is_true);
            proof {
                lemma_single_guard_view(*condition, *symbols, branch_is_true, r);
            }
            r
        },
    }
}

} // verus!
