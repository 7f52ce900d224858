//! The guards a condition establishes on references (`o.p`, `a?.b`, `x`) in
//! a branch: each as the binding it starts from, the property path below it,
//! and the guard.

use vstd::prelude::*;
use crate::aliases::{reference_path, spec_reference_path, view_strings};
use crate::guards::arrayness::{
    parse_array_isarray_condition, parse_arraybuffer_isview_condition, spec_static_call_argument,
};
use crate::guards::instanceof::{parse_instanceof_condition, spec_parse_instanceof_condition};
use crate::guards::literal_equality::{parse_reference_literal_equality, spec_parse_reference_literal_equality};
use crate::guards::nullish::{parse_nullish_equality_condition, spec_parse_nullish_equality_condition};
use crate::guards::property_presence::{parse_in_condition, spec_parse_in_condition};
use crate::narrowing::{parse_typeof_condition, spec_parse_typeof_condition};
use crate::reference_guard::{
    compared_operand_type, parse_constructor_equality, spec_compared_operand_type,
    spec_parse_constructor_equality, ReferenceGuard, SpecReferenceGuard,
};
use crate::symbols::SymbolTable;
use crate::syntax::{equality_polarity, BinaryOperator, Expr, LogicalOperator, UnaryOperator};
use crate::types::{is_unknown, peeled, spec_is_unknown, spec_peel, view_types, SpecType, Type};

verus! {

/// A guard on a reference as the binding it starts from, the path below it
/// and the guard.
pub type GuardEntry = (Seq<char>, Seq<Seq<char>>, SpecReferenceGuard);

/// The views of collected reference guards.
pub open spec fn view_reference_guards<'a>(s: Seq<(String, Vec<String>, ReferenceGuard<'a>)>) -> Seq<GuardEntry> {
    s.map_values(|g: (String, Vec<String>, ReferenceGuard<'a>)| (g.0@, view_strings(g.1@), g.2@))
}

/// The expression written before a chain's innermost `?.`: the receiver of
/// the `?.` access itself, or of one the chain continues through.
pub open spec fn spec_optional_chain_receiver(chain: Expr) -> Option<Expr>
    decreases chain,
{
    match chain {
        Expr::OptionalPropertyAccess { object, .. } => Some(*object),
        Expr::OptionalIndexAccess { object, .. } => Some(*object),
        Expr::PropertyAccess { object, .. } => spec_optional_chain_receiver(*object),
        Expr::ElementAccess { object, .. } => spec_optional_chain_receiver(*object),
        Expr::PropertyCall { object, .. } => spec_optional_chain_receiver(*object),
        _ => None,
    }
}

/// See [`spec_optional_chain_receiver`].
pub fn optional_chain_receiver(chain: &Expr) -> (r: Option<&Expr>)
    ensures
        match r {
            Some(e) => spec_optional_chain_receiver(*chain) == Some(*e),
            None => spec_optional_chain_receiver(*chain) is None,
        },
    decreases chain,
{
    match chain {
        Expr::OptionalPropertyAccess { object, .. } => Some(&**object),
        Expr::OptionalIndexAccess { object, .. } => Some(&**object),
        Expr::PropertyAccess { object, .. } => optional_chain_receiver(object),
        Expr::ElementAccess { object, .. } => optional_chain_receiver(object),
        Expr::PropertyCall { object, .. } => optional_chain_receiver(object),
        _ => None,
    }
}

/// Whether the value of `ty` counts as nullish for an equality: `undefined`
/// and `void` always, `null` only for `==`/`!=`.
pub open spec fn spec_chain_nullable(ty: SpecType, strict: bool) -> bool {
    match ty {
        SpecType::Undefined | SpecType::Void => true,
        SpecType::Null => !strict,
        _ => false,
    }
}

/// Whether a chain compared with a value of these members cannot have
/// short-circuited: where the comparison holds, no member is nullish, `any`
/// or a degradation; where it fails, every member is nullish.
pub open spec fn spec_removes_nullable(members: Seq<SpecType>, holds: bool, strict: bool) -> bool {
    if holds {
        forall|i: int|
            0 <= i < members.len() ==> !spec_chain_nullable(#[trigger] members[i], strict) && members[i]
                != SpecType::Any && !spec_is_unknown(members[i])
    } else {
        forall|i: int| 0 <= i < members.len() ==> spec_chain_nullable(#[trigger] members[i], strict)
    }
}

/// The type of the value a chain is compared with: `undefined`, `null`, or
/// what the table answers for an operand (see [`spec_compared_operand_type`]).
pub open spec fn spec_chain_value_type(value: Expr, table: SymbolTable) -> Option<SpecType> {
    match value {
        Expr::UndefinedLiteral => Some(SpecType::Undefined),
        Expr::NullLiteral => Some(SpecType::Null),
        _ => spec_compared_operand_type(table, value),
    }
}

/// The members of a type a comparison reads: a union's, or the type itself.
pub open spec fn spec_value_members(ty: SpecType) -> Seq<SpecType> {
    match spec_peel(ty) {
        SpecType::Union(ms) => ms,
        t => seq![t],
    }
}

/// tsc's optional-chain containment: the receiver a chain (`o?.p`,
/// `o?.p.q`) starts from is not nullish wherever the chain, compared with
/// `==`/`===` or their negations, is known not to have short-circuited (see
/// [`spec_removes_nullable`]). The chain is the left operand when it reads
/// through `?.`, else the right one.
pub open spec fn spec_optional_chain_contained_receiver(condition: Expr, branch_is_true: bool, table: SymbolTable) -> Option<Expr> {
    match condition {
        Expr::Binary { left, operator, right } => {
            let strict = operator == BinaryOperator::StrictEquals || operator
                == BinaryOperator::StrictNotEquals;
            match crate::syntax::spec_equality_polarity(operator) {
                Some(equals) => {
                    let (chain, value) = if spec_optional_chain_receiver(*left) is Some {
                        (Some(*left), *right)
                    } else if spec_optional_chain_receiver(*right) is Some {
                        (Some(*right), *left)
                    } else {
                        (None, *left)
                    };
                    match (chain, spec_chain_value_type(value, table)) {
                        (Some(c), Some(t)) => if spec_removes_nullable(
                            spec_value_members(t),
                            equals == branch_is_true,
                            strict,
                        ) {
                            spec_optional_chain_receiver(c)
                        } else {
                            None
                        },
                        _ => None,
                    }
                },
                None => None,
            }
        },
        _ => None,
    }
}

fn chain_value_type(value: &Expr, symbols: &SymbolTable) -> (r: Option<Type>)
    ensures
        crate::types::opt_view(r) == spec_chain_value_type(*value, *symbols),
{
    match value {
        Expr::UndefinedLiteral => Some(Type::Undefined),
        Expr::NullLiteral => Some(Type::Null),
        _ => compared_operand_type(symbols, value),
    }
}

fn chain_nullable(ty: &Type, strict: bool) -> (r: bool)
    ensures
        r == spec_chain_nullable(ty@, strict),
{
    match ty {
        Type::Undefined | Type::Void => true,
        Type::Null => !strict,
        _ => false,
    }
}

fn removes_nullable(ty: &Type, holds: bool, strict: bool) -> (r: bool)
    ensures
        r == spec_removes_nullable(spec_value_members(ty@), holds, strict),
{
    let p = peeled(ty);
    match p {
        Type::Union(ms) => {
            let ghost s = view_types(ms@);
            proof {
                crate::types::lemma_view_types(ms@);
            }
            assert(spec_value_members(ty@) == s);
            let mut i: usize = 0;
            while i < ms.len()
                invariant
                    0 <= i <= ms.len(),
                    s == view_types(ms@),
                    s.len() == ms.len(),
                    spec_value_members(ty@) == s,
                    forall|j: int| 0 <= j < ms.len() ==> #[trigger] s[j] == ms@[j]@,
                    holds ==> forall|j: int|
                        0 <= j < i ==> !spec_chain_nullable(#[trigger] s[j], strict) && s[j] != SpecType::Any
                            && !spec_is_unknown(s[j]),
                    !holds ==> forall|j: int| 0 <= j < i ==> spec_chain_nullable(#[trigger] s[j], strict),
                decreases ms.len() - i,
            {
                let m = &ms[i];
                assert(s[i as int] == m@);
                let ok = if holds {
                    !chain_nullable(m, strict) && !matches!(m, Type::Any) && !is_unknown(m)
                } else {
                    chain_nullable(m, strict)
                };
                if !ok {
                    assert(holds ==> !(!spec_chain_nullable(s[i as int], strict) && s[i as int] != SpecType::Any
                        && !spec_is_unknown(s[i as int])));
                    assert(!holds ==> !spec_chain_nullable(s[i as int], strict));
                    assert(!spec_removes_nullable(s, holds, strict));
                    return false;
                }
                i = i + 1;
            }
            assert(spec_removes_nullable(s, holds, strict));
            true
        },
        _ => {
            assert(spec_value_members(ty@) == seq![p@]);
            assert(seq![p@][0] == p@);
            let r = if holds {
                !chain_nullable(p, strict) && !matches!(p, Type::Any) && !is_unknown(p)
            } else {
                chain_nullable(p, strict)
            };
            assert(r == spec_removes_nullable(seq![p@], holds, strict));
            r
        },
    }
}

/// See [`spec_optional_chain_contained_receiver`].
pub fn optional_chain_contained_receiver<'a>(condition: &'a Expr, branch_is_true: bool, symbols: &SymbolTable) -> (r: Option<&'a Expr>)
    ensures
        match r {
            Some(e) => spec_optional_chain_contained_receiver(*condition, branch_is_true, *symbols) == Some(*e),
            None => spec_optional_chain_contained_receiver(*condition, branch_is_true, *symbols) is None,
        },
{
    match condition {
        Expr::Binary { left, operator, right } => {
            let strict = *operator == BinaryOperator::StrictEquals || *operator
                == BinaryOperator::StrictNotEquals;
            let equals = match equality_polarity(*operator) {
                Some(e) => e,
                None => return None,
            };
            let (chain, value): (&Expr, &Expr) = if optional_chain_receiver(left).is_some() {
                (left, right)
            } else if optional_chain_receiver(right).is_some() {
                (right, left)
            } else {
                return None;
            };
            let t = match chain_value_type(value, symbols) {
                Some(t) => t,
                None => return None,
            };
            if !removes_nullable(&t, equals == branch_is_true, strict) {
                return None;
            }
            optional_chain_receiver(chain)
        },
        _ => None,
    }
}

/// One guard at `base`'s `path`, when the expression is a reference.
pub open spec fn spec_guard_at(reference: Expr, guard: SpecReferenceGuard) -> Seq<GuardEntry> {
    match spec_reference_path(reference) {
        Some((base, path)) => seq![(base, path, guard)],
        None => Seq::empty(),
    }
}

/// A truthy guard on what a chain starts from, when it reads through `?.`
/// from a reference.
pub open spec fn spec_receiver_truthy(chain: Expr) -> Seq<GuardEntry> {
    match spec_optional_chain_receiver(chain) {
        Some(receiver) => spec_guard_at(receiver, SpecReferenceGuard::Truthy),
        None => Seq::empty(),
    }
}

/// The guards a single test (no `&&`, `||`, `!`) establishes in
/// `branch_is_true`, in order:
/// - a chain compared so that it cannot have short-circuited proves its
///   receiver truthy (see [`spec_optional_chain_contained_receiver`]);
/// - `x.constructor === C` holding: only what `C` constructs;
/// - `typeof r === "tag"`: the tag test, and where the chain's `typeof` is
///   anything but `"undefined"`, its receiver is present;
/// - `r instanceof C`: the test, and where it holds the chain's receiver is
///   present;
/// - `Array.isArray(r)`, `ArrayBuffer.isView(r)`, a nullish comparison and
///   `"p" in r`: their tests on `r`;
/// - `o.p === literal` with a property path: the literal test;
/// - any other reference: truthy where the branch holds, falsy where it fails.
pub open spec fn spec_single_reference_guards(condition: Expr, branch_is_true: bool, table: SymbolTable) -> Seq<GuardEntry> {
    let contained = match spec_optional_chain_contained_receiver(condition, branch_is_true, table) {
        Some(receiver) => spec_guard_at(receiver, SpecReferenceGuard::Truthy),
        None => Seq::empty(),
    };
    contained + if spec_parse_constructor_equality(condition) is Some {
        let ((base, path), ctor_name, eq) = spec_parse_constructor_equality(condition).unwrap();
        if eq == branch_is_true {
            seq![(base, path, SpecReferenceGuard::ConstructedBy { ctor_name })]
        } else {
            Seq::empty()
        }
    } else if spec_parse_typeof_condition(condition) is Some {
        let (operand, tag, eq) = spec_parse_typeof_condition(condition).unwrap();
        (if (branch_is_true == eq) != (tag == "undefined"@) {
            spec_receiver_truthy(operand)
        } else {
            Seq::empty()
        }) + spec_guard_at(operand, SpecReferenceGuard::Typeof { tag, keep_matching: branch_is_true == eq })
    } else if spec_parse_instanceof_condition(condition) is Some {
        let (operand, ctor_name) = spec_parse_instanceof_condition(condition).unwrap();
        (if branch_is_true {
            spec_receiver_truthy(operand)
        } else {
            Seq::empty()
        }) + spec_guard_at(operand, SpecReferenceGuard::Instanceof { ctor_name, keep_matching: branch_is_true })
    } else if spec_static_call_argument(condition, "Array"@, "isArray"@) is Some {
        spec_guard_at(
            spec_static_call_argument(condition, "Array"@, "isArray"@).unwrap(),
            SpecReferenceGuard::Arrayness { keep_arrays: branch_is_true },
        )
    } else if spec_static_call_argument(condition, "ArrayBuffer"@, "isView"@) is Some {
        spec_guard_at(
            spec_static_call_argument(condition, "ArrayBuffer"@, "isView"@).unwrap(),
            SpecReferenceGuard::ArrayBufferView { keep_views: branch_is_true },
        )
    } else if spec_parse_nullish_equality_condition(condition) is Some {
        let (subject, eq, test) = spec_parse_nullish_equality_condition(condition).unwrap();
        spec_guard_at(subject, SpecReferenceGuard::Nullish { keep_matching: branch_is_true == eq, test })
    } else if spec_parse_in_condition(condition) is Some {
        let (object, property) = spec_parse_in_condition(condition).unwrap();
        spec_guard_at(object, SpecReferenceGuard::PropertyPresence { property, keep_present: branch_is_true })
    } else if spec_parse_reference_literal_equality(condition) is Some {
        let (reference, literal, eq) = spec_parse_reference_literal_equality(condition).unwrap();
        match spec_reference_path(reference) {
            Some((base, path)) => if path.len() > 0 {
                seq![(base, path, SpecReferenceGuard::LiteralEquality { literal, keep_matching: branch_is_true == eq })]
            } else {
                Seq::empty()
            },
            None => Seq::empty(),
        }
    } else if branch_is_true {
        spec_guard_at(condition, SpecReferenceGuard::Truthy)
    } else {
        spec_guard_at(condition, SpecReferenceGuard::Falsy)
    }
}

/// The reference guards `condition` establishes in `branch_is_true`: every
/// operand of an `&&` where it holds, and by De Morgan every operand of an
/// `||` where it fails (`!a || !b` failing leaves both truthy); nothing for
/// the other edge of either. `!!c` is `c`, `!c` is `c` in the other branch,
/// and any other test is a single one (see [`spec_single_reference_guards`]).
pub open spec fn spec_reference_guards(condition: Expr, branch_is_true: bool, table: SymbolTable) -> Seq<GuardEntry>
    decreases condition,
{
    match condition {
        Expr::Logical { left, operator, right } => if operator == LogicalOperator::And {
            if branch_is_true {
                spec_reference_guards(*left, true, table) + spec_reference_guards(*right, true, table)
            } else {
                Seq::empty()
            }
        } else if operator == LogicalOperator::Or {
            if !branch_is_true {
                spec_reference_guards(*left, false, table) + spec_reference_guards(*right, false, table)
            } else {
                Seq::empty()
            }
        } else {
            spec_single_reference_guards(condition, branch_is_true, table)
        },
        Expr::Unary { operator, operand } => if operator == UnaryOperator::Not {
            match *operand {
                Expr::Unary { operator: inner_operator, operand: inner } => if inner_operator
                    == UnaryOperator::Not {
                    spec_reference_guards(*inner, branch_is_true, table)
                } else {
                    spec_reference_guards(*operand, !branch_is_true, table)
                },
                _ => spec_reference_guards(*operand, !branch_is_true, table),
            }
        } else {
            spec_single_reference_guards(condition, branch_is_true, table)
        },
        _ => spec_single_reference_guards(condition, branch_is_true, table),
    }
}

fn push_guard<'a>(guards: &mut Vec<(String, Vec<String>, ReferenceGuard<'a>)>, base: String, path: Vec<String>, guard: ReferenceGuard<'a>)
    ensures
        view_reference_guards(final(guards)@) == view_reference_guards(old(guards)@).push(
            (base@, view_strings(path@), guard@),
        ),
{
    let ghost before = guards@;
    let ghost entry = (base@, view_strings(path@), guard@);
    guards.push((base, path, guard));
    assert(view_reference_guards(guards@) =~= view_reference_guards(before).push(entry));
}

fn push_guard_at<'a>(guards: &mut Vec<(String, Vec<String>, ReferenceGuard<'a>)>, reference: &Expr, guard: ReferenceGuard<'a>)
    ensures
        view_reference_guards(final(guards)@) == view_reference_guards(old(guards)@) + spec_guard_at(
            *reference,
            guard@,
        ),
{
    match reference_path(reference) {
        Some((base, path)) => {
            let ghost before = view_reference_guards(guards@);
            push_guard(guards, base, path, guard);
            assert(before.push((base@, view_strings(path@), guard@)) =~= before + seq![(base@, view_strings(path@), guard@)]);
        },
        None => {
            assert(view_reference_guards(guards@) =~= view_reference_guards(guards@) + Seq::<GuardEntry>::empty());
        },
    }
}

fn push_receiver_truthy<'a>(guards: &mut Vec<(String, Vec<String>, ReferenceGuard<'a>)>, chain: &Expr)
    ensures
        view_reference_guards(final(guards)@) == view_reference_guards(old(guards)@) + spec_receiver_truthy(*chain),
{
    match optional_chain_receiver(chain) {
        Some(receiver) => push_guard_at(guards, receiver, ReferenceGuard::Truthy),
        None => {
            assert(view_reference_guards(guards@) =~= view_reference_guards(guards@) + Seq::<GuardEntry>::empty());
        },
    }
}

fn collect_single_reference_guards<'a>(
    condition: &'a Expr,
    branch_is_true: bool,
    symbols: &SymbolTable,
    guards: &mut Vec<(String, Vec<String>, ReferenceGuard<'a>)>,
)
    ensures
        view_reference_guards(final(guards)@) == view_reference_guards(old(guards)@)
            + spec_single_reference_guards(*condition, branch_is_true, *symbols),
{
    let ghost start = view_reference_guards(guards@);
    match optional_chain_contained_receiver(condition, branch_is_true, symbols) {
        Some(receiver) => push_guard_at(guards, receiver, ReferenceGuard::Truthy),
        None => {
            assert(view_reference_guards(guards@) =~= start + Seq::<GuardEntry>::empty());
        },
    }
    let ghost mid = view_reference_guards(guards@);
    let ghost whole = spec_single_reference_guards(*condition, branch_is_true, *symbols);
    if let Some(((base, path), ctor_name, eq)) = parse_constructor_equality(condition) {
        if eq == branch_is_true {
            push_guard(guards, base, path, ReferenceGuard::ConstructedBy { ctor_name });
        }
        assert(view_reference_guards(guards@) =~= start + whole);
        return;
    }
    if let Some((operand, tag, eq)) = parse_typeof_condition(condition) {
        let tag_chars = crate::text::chars_of(tag);
        let is_undefined = crate::text::chars_are(&tag_chars, "undefined");
        if (branch_is_true == eq) != is_undefined {
            push_receiver_truthy(guards, operand);
        }
        push_guard_at(guards, operand, ReferenceGuard::Typeof { tag, keep_matching: branch_is_true == eq });
        assert(view_reference_guards(guards@) =~= start + whole);
        return;
    }
    if let Some((operand, ctor_name)) = parse_instanceof_condition(condition) {
        if branch_is_true {
            push_receiver_truthy(guards, operand);
        }
        push_guard_at(guards, operand, ReferenceGuard::Instanceof { ctor_name, keep_matching: branch_is_true });
        assert(view_reference_guards(guards@) =~= start + whole);
        return;
    }
    if let Some(operand) = parse_array_isarray_condition(condition) {
        push_guard_at(guards, operand, ReferenceGuard::Arrayness { keep_arrays: branch_is_true });
        assert(view_reference_guards(guards@) =~= start + whole);
        return;
    }
    if let Some(operand) = parse_arraybuffer_isview_condition(condition) {
        push_guard_at(guards, operand, ReferenceGuard::ArrayBufferView { keep_views: branch_is_true });
        assert(view_reference_guards(guards@) =~= start + whole);
        return;
    }
    if let Some((subject, eq, test)) = parse_nullish_equality_condition(condition) {
        push_guard_at(guards, subject, ReferenceGuard::Nullish { keep_matching: branch_is_true == eq, test });
        assert(view_reference_guards(guards@) =~= start + whole);
        return;
    }
    if let Some((object, property)) = parse_in_condition(condition) {
        push_guard_at(guards, object, ReferenceGuard::PropertyPresence { property, keep_present: branch_is_true });
        assert(view_reference_guards(guards@) =~= start + whole);
        return;
    }
    if let Some((reference, literal, eq)) = parse_reference_literal_equality(condition) {
        if let Some((base, path)) = reference_path(reference) {
            if path.len() > 0 {
                push_guard(
                    guards,
                    base,
                    path,
                    ReferenceGuard::LiteralEquality { literal, keep_matching: branch_is_true == eq },
                );
            }
        }
        assert(view_reference_guards(guards@) =~= start + whole);
        return;
    }
    if branch_is_true {
        push_guard_at(guards, condition, ReferenceGuard::Truthy);
    } else {
        push_guard_at(guards, condition, ReferenceGuard::Falsy);
    }
    assert(view_reference_guards(guards@) =~= start + whole);
}

/// Appends the reference guards `condition` establishes in `branch_is_true`
/// (see [`spec_reference_guards`]); `symbols` answers the type of a value a
/// chain is compared with.
pub fn collect_reference_guards<'a>(
    condition: &'a Expr,
    branch_is_true: bool,
    symbols: &SymbolTable,
    guards: &mut Vec<(String, Vec<String>, ReferenceGuard<'a>)>,
)
    ensures
        view_reference_guards(final(guards)@) == view_reference_guards(old(guards)@) + spec_reference_guards(
            *condition,
            branch_is_true,
            *symbols,
        ),
    decreases condition,
{
    let ghost start = view_reference_guards(guards@);
    match condition {
        Expr::Logical { left, operator, right } => {
            if *operator == LogicalOperator::And || *operator == LogicalOperator::Or {
                if (*operator == LogicalOperator::And) == branch_is_true {
                    collect_reference_guards(left, branch_is_true, symbols, guards);
                    let ghost mid = view_reference_guards(guards@);
                    collect_reference_guards(right, branch_is_true, symbols, guards);
                    assert(view_reference_guards(guards@) =~= start + (spec_reference_guards(
                        **left,
                        branch_is_true,
                        *symbols,
                    ) + spec_reference_guards(**right, branch_is_true, *symbols)));
                } else {
                    assert(view_reference_guards(guards@) =~= start + Seq::<GuardEntry>::empty());
                }
                return;
            }
            collect_single_reference_guards(condition, branch_is_true, symbols, guards);
        },
        Expr::Unary { operator, operand } => {
            if *operator == UnaryOperator::Not {
                match &**operand {
                    Expr::Unary { operator: inner_operator, operand: inner } => {
                        if *inner_operator == UnaryOperator::Not {
                            collect_reference_guards(inner, branch_is_true, symbols, guards);
                        } else {
                            collect_reference_guards(operand, !branch_is_true, symbols, guards);
                        }
                    },
                    _ => collect_reference_guards(operand, !branch_is_true, symbols, guards),
                }
                return;
            }
            collect_single_reference_guards(condition, branch_is_true, symbols, guards);
        },
        _ => collect_single_reference_guards(condition, branch_is_true, symbols, guards),
    }
}

} // verus!
