//! Element accesses (`xs[0]`, `db.posts[i]`) as narrowable references: the
//! key a narrowed access is remembered under, and the guards a condition
//! puts on accesses.

use vstd::prelude::*;
use crate::aliases::{is_assigned, reference_path, spec_kind_is_constant, spec_reference_path, view_strings};
use crate::guards::nullish::{parse_nullish_equality_condition, spec_parse_nullish_equality_condition};
use crate::narrowing::{parse_typeof_condition, spec_parse_typeof_condition};
use crate::reference_guard::{ReferenceGuard, SpecReferenceGuard};
use crate::symbols::{spec_get, SymbolTable};
use crate::syntax::{Expr, LogicalOperator, UnaryOperator};

verus! {

/// The key an index contributes: a number literal's spelling or an
/// identifier's name; any other index makes the access unkeyed.
pub open spec fn spec_index_key(index: Expr) -> Option<Seq<char>> {
    match index {
        Expr::NumberLiteral(v) => Some(v@),
        Expr::Identifier(n) => Some(n@),
        _ => None,
    }
}

/// The path's segments, each after a `.`.
pub open spec fn spec_join_path(path: Seq<Seq<char>>) -> Seq<char>
    decreases path.len(),
{
    if path.len() == 0 {
        Seq::empty()
    } else {
        spec_join_path(path.drop_last()) + seq!['.'] + path.last()
    }
}

/// The key of `base.path[index]`: `base`, each segment after a `.`, then the
/// index key in brackets.
pub open spec fn spec_element_reference_key_named(base: Seq<char>, path: Seq<Seq<char>>, index: Expr) -> Option<Seq<char>> {
    match spec_index_key(index) {
        Some(key) => Some(base + spec_join_path(path) + seq!['['] + key + seq![']']),
        None => None,
    }
}

/// The key of `object[index]`, when `object` is a reference.
pub open spec fn spec_element_reference_key(object: Expr, index: Expr) -> Option<Seq<char>> {
    match spec_reference_path(object) {
        Some((base, path)) => spec_element_reference_key_named(base, path, index),
        None => None,
    }
}

/// The key of an element access, `None` for any other expression.
pub open spec fn spec_element_access_parts(e: Expr) -> Option<Seq<char>> {
    match e {
        Expr::ElementAccess { object, index } => spec_element_reference_key(*object, *index),
        Expr::OptionalIndexAccess { object, index } => spec_element_reference_key(*object, *index),
        Expr::IndexAccess { object_name, index } => spec_element_reference_key_named(
            object_name@,
            Seq::empty(),
            *index,
        ),
        _ => None,
    }
}

/// See [`spec_element_reference_key_named`].
pub fn element_reference_key_named(base: &str, path: &Vec<String>, index: &Expr) -> (r: Option<String>)
    ensures
        match r {
            Some(k) => spec_element_reference_key_named(base@, view_strings(path@), *index) == Some(
                k@,
            ),
            None => spec_element_reference_key_named(base@, view_strings(path@), *index) is None,
        },
{
    let key: &str = match index {
        Expr::NumberLiteral(v) => v.as_str(),
        Expr::Identifier(n) => n.as_str(),
        _ => return None,
    };
    let ghost vpath = view_strings(path@);
    let mut rendered = String::from_str(base);
    let mut i: usize = 0;
    assert(vpath.take(0) =~= Seq::<Seq<char>>::empty());
    assert(rendered@ =~= base@ + spec_join_path(vpath.take(0)));
    while i < path.len()
        invariant
            0 <= i <= path.len(),
            vpath == view_strings(path@),
            vpath.len() == path.len(),
            rendered@ == base@ + spec_join_path(vpath.take(i as int)),
        decreases path.len() - i,
    {
        proof {
            reveal_strlit(".");
            assert(vpath.take(i + 1).drop_last() =~= vpath.take(i as int));
            assert(vpath.take(i + 1).last() == path@[i as int]@);
        }
        rendered.append(".");
        rendered.append(path[i].as_str());
        assert(rendered@ =~= base@ + spec_join_path(vpath.take(i + 1)));
        i = i + 1;
    }
    assert(vpath.take(path.len() as int) =~= vpath);
    proof {
        reveal_strlit("[");
        reveal_strlit("]");
    }
    rendered.append("[");
    rendered.append(key);
    rendered.append("]");
    assert(rendered@ =~= base@ + spec_join_path(vpath) + seq!['['] + key@ + seq![']']);
    Some(rendered)
}

/// See [`spec_element_reference_key`].
pub fn element_reference_key(object: &Expr, index: &Expr) -> (r: Option<String>)
    ensures
        match r {
            Some(k) => spec_element_reference_key(*object, *index) == Some(k@),
            None => spec_element_reference_key(*object, *index) is None,
        },
{
    let (base, path) = match reference_path(object) {
        Some(bp) => bp,
        None => return None,
    };
    element_reference_key_named(base.as_str(), &path, index)
}

/// See [`spec_element_access_parts`].
pub fn element_access_parts(expression: &Expr) -> (r: Option<String>)
    ensures
        match r {
            Some(k) => spec_element_access_parts(*expression) == Some(k@),
            None => spec_element_access_parts(*expression) is None,
        },
{
    match expression {
        Expr::ElementAccess { object, index } | Expr::OptionalIndexAccess { object, index } => {
            element_reference_key(object, index)
        },
        Expr::IndexAccess { object_name, index } => {
            let empty: Vec<String> = Vec::new();
            assert(view_strings(empty@) =~= Seq::<Seq<char>>::empty());
            element_reference_key_named(object_name.as_str(), &empty, index)
        },
        _ => None,
    }
}

/// An element access: `o[i]`, `o?.[i]`, or `name[i]`.
pub open spec fn spec_is_element_access(e: Expr) -> bool {
    e is ElementAccess || e is IndexAccess || e is OptionalIndexAccess
}

fn is_element_access(e: &Expr) -> (r: bool)
    ensures
        r == spec_is_element_access(*e),
{
    match e {
        Expr::ElementAccess { .. } | Expr::IndexAccess { .. } | Expr::OptionalIndexAccess { .. } => true,
        _ => false,
    }
}

/// tsc's `isMatchingReference` for an element access: its key is a number
/// or string literal, or a binding of `table` that never changes value (see
/// [`spec_kind_is_constant`], with `assigned` the bindings its container
/// assigns).
pub open spec fn spec_element_key_is_constant(access: Expr, table: SymbolTable, assigned: Seq<Seq<char>>) -> bool {
    let index = match access {
        Expr::ElementAccess { index, .. } => Some(*index),
        Expr::IndexAccess { index, .. } => Some(*index),
        Expr::OptionalIndexAccess { index, .. } => Some(*index),
        _ => None,
    };
    match index {
        Some(Expr::NumberLiteral(_)) => true,
        Some(Expr::StringLiteral(_)) => true,
        Some(Expr::Identifier(name)) => match spec_get(table, name@) {
            Some(symbol) => spec_kind_is_constant(symbol.kind, name@, assigned),
            None => false,
        },
        _ => false,
    }
}

/// See [`spec_element_key_is_constant`].
pub fn element_key_is_constant(access: &Expr, symbols: &SymbolTable, assigned: &Vec<String>) -> (r: bool)
    ensures
        r == spec_element_key_is_constant(*access, *symbols, view_strings(assigned@)),
{
    let index: &Expr = match access {
        Expr::ElementAccess { index, .. } | Expr::IndexAccess { index, .. } | Expr::OptionalIndexAccess {
            index,
            ..
        } => index,
        _ => return false,
    };
    match index {
        Expr::NumberLiteral(_) | Expr::StringLiteral(_) => true,
        Expr::Identifier(name) => match symbols.get(name.as_str()) {
            Some(symbol) => match symbol.kind {
                crate::symbols::SymbolKind::Const | crate::symbols::SymbolKind::ForInNumericKey => true,
                crate::symbols::SymbolKind::Parameter | crate::symbols::SymbolKind::Let => !is_assigned(
                    assigned,
                    name.as_str(),
                ),
                _ => false,
            },
            None => false,
        },
        _ => false,
    }
}

/// The keyed element accesses of an expression, read through unary,
/// binary and logical operands, member reads and `!`, each key once in the
/// order first read, appended to `acc` with the access it stands for.
pub open spec fn spec_collect_element_accesses(e: Expr, acc: Seq<(Seq<char>, Expr)>) -> Seq<(Seq<char>, Expr)>
    decreases e,
{
    if spec_is_element_access(e) {
        match spec_element_access_parts(e) {
            Some(key) => if exists|k: int| 0 <= k < acc.len() && #[trigger] acc[k].0 == key {
                acc
            } else {
                acc.push((key, e))
            },
            None => acc,
        }
    } else {
        match e {
            Expr::Unary { operand, .. } => spec_collect_element_accesses(*operand, acc),
            Expr::Binary { left, right, .. } => spec_collect_element_accesses(
                *right,
                spec_collect_element_accesses(*left, acc),
            ),
            Expr::Logical { left, right, .. } => spec_collect_element_accesses(
                *right,
                spec_collect_element_accesses(*left, acc),
            ),
            Expr::PropertyAccess { object, .. } => spec_collect_element_accesses(*object, acc),
            Expr::OptionalPropertyAccess { object, .. } => spec_collect_element_accesses(*object, acc),
            Expr::NonNullAssertion(inner) => spec_collect_element_accesses(*inner, acc),
            _ => acc,
        }
    }
}

/// Whether `r` is `e` with each keyed element access standing as a name,
/// its key: the shape the reference-guard collector reads as a base with a
/// property path.
pub open spec fn spec_rooted(e: Expr, r: Expr) -> bool
    decreases e,
{
    if spec_is_element_access(e) {
        match spec_element_access_parts(e) {
            Some(key) => r matches Expr::Identifier(n) && n@ == key,
            None => r == e,
        }
    } else {
        match e {
            Expr::Unary { operator, operand } => match r {
                Expr::Unary { operator: o, operand: p } => o == operator && spec_rooted(*operand, *p),
                _ => false,
            },
            Expr::Binary { left, operator, right } => match r {
                Expr::Binary { left: l, operator: o, right: rr } => o == operator && spec_rooted(
                    *left,
                    *l,
                ) && spec_rooted(*right, *rr),
                _ => false,
            },
            Expr::Logical { left, operator, right } => match r {
                Expr::Logical { left: l, operator: o, right: rr } => o == operator && spec_rooted(
                    *left,
                    *l,
                ) && spec_rooted(*right, *rr),
                _ => false,
            },
            Expr::PropertyAccess { object, property_name } => match r {
                Expr::PropertyAccess { object: o, property_name: p } => p == property_name
                    && spec_rooted(*object, *o),
                _ => false,
            },
            Expr::OptionalPropertyAccess { object, property_name } => match r {
                Expr::OptionalPropertyAccess { object: o, property_name: p } => p == property_name
                    && spec_rooted(*object, *o),
                _ => false,
            },
            Expr::NonNullAssertion(inner) => match r {
                Expr::NonNullAssertion(i) => spec_rooted(*inner, *i),
                _ => false,
            },
            _ => r == e,
        }
    }
}

/// The views of recorded accesses: each key's characters with its access.
pub open spec fn view_accesses(accesses: Seq<(String, Expr)>) -> Seq<(Seq<char>, Expr)> {
    accesses.map_values(|a: (String, Expr)| (a.0@, a.1))
}

fn record_access(key: &String, access: Expr, accesses: &mut Vec<(String, Expr)>)
    ensures
        view_accesses(final(accesses)@) == (if exists|k: int|
            0 <= k < view_accesses(old(accesses)@).len() && #[trigger] view_accesses(
                old(accesses)@,
            )[k].0 == key@ {
            view_accesses(old(accesses)@)
        } else {
            view_accesses(old(accesses)@).push((key@, access))
        }),
{
    let ghost before = view_accesses(accesses@);
    let target = crate::text::chars_of(key.as_str());
    let mut i: usize = 0;
    while i < accesses.len()
        invariant
            0 <= i <= accesses.len(),
            before == view_accesses(accesses@),
            target@ == key@,
            forall|k: int| 0 <= k < i ==> #[trigger] before[k].0 != key@,
        decreases accesses.len() - i,
    {
        let existing = crate::text::chars_of(accesses[i].0.as_str());
        assert(before[i as int].0 == accesses@[i as int].0@);
        if crate::text::chars_eq(&existing, &target) {
            assert(before[i as int].0 == key@);
            return;
        }
        i = i + 1;
    }
    assert(!exists|k: int| 0 <= k < before.len() && #[trigger] before[k].0 == key@);
    accesses.push((key.clone(), access));
    assert(view_accesses(accesses@) =~= before.push((key@, access)));
}

/// The condition read with each keyed element access standing as a name, its
/// key ([`spec_rooted`]); the accesses are recorded in `accesses` (see
/// [`spec_collect_element_accesses`]).
pub fn root_element_accesses(expression: Expr, accesses: &mut Vec<(String, Expr)>) -> (r: Expr)
    ensures
        spec_rooted(expression, r),
        view_accesses(final(accesses)@) == spec_collect_element_accesses(
            expression,
            view_accesses(old(accesses)@),
        ),
    decreases expression,
{
    if is_element_access(&expression) {
        let key = match element_access_parts(&expression) {
            Some(k) => k,
            None => return expression,
        };
        let name = key.clone();
        record_access(&key, expression, accesses);
        return Expr::Identifier(name);
    }
    match expression {
        Expr::Unary { operator, operand } => {
            let inner = root_element_accesses(*operand, accesses);
            Expr::Unary { operator, operand: Box::new(inner) }
        },
        Expr::Binary { left, operator, right } => {
            let l = root_element_accesses(*left, accesses);
            let r = root_element_accesses(*right, accesses);
            Expr::Binary { left: Box::new(l), operator, right: Box::new(r) }
        },
        Expr::Logical { left, operator, right } => {
            let l = root_element_accesses(*left, accesses);
            let r = root_element_accesses(*right, accesses);
            Expr::Logical { left: Box::new(l), operator, right: Box::new(r) }
        },
        Expr::PropertyAccess { object, property_name } => {
            let o = root_element_accesses(*object, accesses);
            Expr::PropertyAccess { object: Box::new(o), property_name }
        },
        Expr::OptionalPropertyAccess { object, property_name } => {
            let o = root_element_accesses(*object, accesses);
            Expr::OptionalPropertyAccess { object: Box::new(o), property_name }
        },
        Expr::NonNullAssertion(inner) => {
            let i = root_element_accesses(*inner, accesses);
            Expr::NonNullAssertion(Box::new(i))
        },
        other => other,
    }
}

/// The views of collected element guards: each access with its guard.
pub open spec fn view_element_guards(guards: Seq<(&Expr, ReferenceGuard)>) -> Seq<(Expr, SpecReferenceGuard)> {
    guards.map_values(|g: (&Expr, ReferenceGuard)| (*g.0, g.1@))
}

/// The guard a single test puts on an element access in the branch: a
/// `typeof` test of one, else a nullish test of one, appended to `acc`.
pub open spec fn spec_element_guard_leaf(condition: Expr, branch_is_true: bool, acc: Seq<(Expr, SpecReferenceGuard)>) -> Seq<(Expr, SpecReferenceGuard)> {
    match spec_parse_typeof_condition(condition) {
        Some((subject, tag, eq)) if spec_is_element_access(subject) => acc.push(
            (subject, SpecReferenceGuard::Typeof { tag, keep_matching: branch_is_true == eq }),
        ),
        _ => match spec_parse_nullish_equality_condition(condition) {
            Some((subject, eq, test)) if spec_is_element_access(subject) => acc.push(
                (subject, SpecReferenceGuard::Nullish { keep_matching: branch_is_true == eq, test }),
            ),
            _ => acc,
        },
    }
}

/// The guards a condition proves on element accesses in the branch: through
/// `!` (flipping the branch), the `&&` operands of a true branch and the `||`
/// operands of a false one; an access tested alone is truthy in a true
/// branch; a `typeof` or nullish test of an access guards it.
pub open spec fn spec_collect_element_reference_guards(condition: Expr, branch_is_true: bool, acc: Seq<(Expr, SpecReferenceGuard)>) -> Seq<(Expr, SpecReferenceGuard)>
    decreases condition,
{
    match condition {
        Expr::Unary { operator, operand } => if operator == UnaryOperator::Not {
            spec_collect_element_reference_guards(*operand, !branch_is_true, acc)
        } else {
            spec_element_guard_leaf(condition, branch_is_true, acc)
        },
        Expr::Logical { left, operator, right } => if (operator == LogicalOperator::And
            && branch_is_true) || (operator == LogicalOperator::Or && !branch_is_true) {
            spec_collect_element_reference_guards(
                *right,
                branch_is_true,
                spec_collect_element_reference_guards(*left, branch_is_true, acc),
            )
        } else {
            spec_element_guard_leaf(condition, branch_is_true, acc)
        },
        _ => if spec_is_element_access(condition) {
            if branch_is_true {
                acc.push((condition, SpecReferenceGuard::Truthy))
            } else {
                acc
            }
        } else {
            spec_element_guard_leaf(condition, branch_is_true, acc)
        },
    }
}

fn element_guard_leaf<'a>(condition: &'a Expr, branch_is_true: bool, guards: &mut Vec<(&'a Expr, ReferenceGuard<'a>)>)
    ensures
        view_element_guards(final(guards)@) == spec_element_guard_leaf(
            *condition,
            branch_is_true,
            view_element_guards(old(guards)@),
        ),
{
    let ghost before = view_element_guards(guards@);
    if let Some((subject, tag, eq)) = parse_typeof_condition(condition) {
        if is_element_access(subject) {
            let guard = ReferenceGuard::Typeof { tag, keep_matching: branch_is_true == eq };
            guards.push((subject, guard));
            assert(view_element_guards(guards@) =~= before.push((*subject, guard@)));
            return;
        }
    }
    if let Some((subject, eq, test)) = parse_nullish_equality_condition(condition) {
        if is_element_access(subject) {
            let guard = ReferenceGuard::Nullish { keep_matching: branch_is_true == eq, test };
            guards.push((subject, guard));
            assert(view_element_guards(guards@) =~= before.push((*subject, guard@)));
            return;
        }
    }
}

/// See [`spec_collect_element_reference_guards`].
pub fn collect_element_reference_guards<'a>(
    condition: &'a Expr,
    branch_is_true: bool,
    guards: &mut Vec<(&'a Expr, ReferenceGuard<'a>)>,
)
    ensures
        view_element_guards(final(guards)@) == spec_collect_element_reference_guards(
            *condition,
            branch_is_true,
            view_element_guards(old(guards)@),
        ),
    decreases condition,
{
    match condition {
        Expr::Unary { operator, operand } => {
            if *operator == UnaryOperator::Not {
                collect_element_reference_guards(operand, !branch_is_true, guards);
            } else {
                element_guard_leaf(condition, branch_is_true, guards);
            }
        },
        Expr::Logical { left, operator, right } => {
            if (*operator == LogicalOperator::And && branch_is_true) || (*operator
                == LogicalOperator::Or && !branch_is_true) {
                collect_element_reference_guards(left, branch_is_true, guards);
                collect_element_reference_guards(right, branch_is_true, guards);
            } else {
                element_guard_leaf(condition, branch_is_true, guards);
            }
        },
        _ => {
            if is_element_access(condition) {
                if branch_is_true {
                    let ghost before = view_element_guards(guards@);
                    guards.push((condition, ReferenceGuard::Truthy));
                    assert(view_element_guards(guards@) =~= before.push(
                        (*condition, SpecReferenceGuard::Truthy),
                    ));
                }
            } else {
                element_guard_leaf(condition, branch_is_true, guards);
            }
        },
    }
}

} // verus!
