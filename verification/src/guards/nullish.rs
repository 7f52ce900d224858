//! `x === null` / `x == undefined` guards.

use vstd::prelude::*;
use crate::syntax::{equality_polarity, spec_equality_polarity, BinaryOperator, Expr};
use crate::types::{
    filter_members, lemma_filter_all, lemma_filter_none, lemma_view_types, opt_view, spec_union,
    union_of, view_type, view_types, SpecType, Type,
};

verus! {

/// Which nullish values an equality test against `null`/`undefined` selects.
/// A strict test names one value; a loose `==` against either names both.
#[derive(PartialEq, Eq, Structural, Clone, Copy, Debug)]
pub struct NullishTest {
    pub null: bool,
    pub undefined: bool,
}

/// Whether the test selects a value of type `member`.
pub open spec fn spec_selects(test: NullishTest, member: SpecType) -> bool {
    match member {
        SpecType::Null => test.null,
        SpecType::Undefined => test.undefined,
        _ => false,
    }
}

impl NullishTest {
    /// See [`spec_selects`].
    pub fn selects(self, member: &Type) -> (r: bool)
        ensures
            r == spec_selects(self, member@),
    {
        match member {
            Type::Null => self.null,
            Type::Undefined => self.undefined,
            _ => false,
        }
    }
}

/// A `null` or `undefined` literal.
pub open spec fn spec_is_nullish_literal(e: Expr) -> bool {
    e is NullLiteral || e is UndefinedLiteral
}

fn is_nullish_literal(e: &Expr) -> (r: bool)
    ensures
        r == spec_is_nullish_literal(*e),
{
    match e {
        Expr::NullLiteral | Expr::UndefinedLiteral => true,
        _ => false,
    }
}

/// The values a comparison with the nullish literal `literal` selects.
pub open spec fn spec_nullish_test(literal: Expr, strict: bool) -> NullishTest {
    let is_null = literal is NullLiteral;
    NullishTest { null: is_null || !strict, undefined: !is_null || !strict }
}

/// Whether an equality operator is strict (`===`, `!==`).
pub open spec fn spec_is_strict(op: BinaryOperator) -> bool {
    op == BinaryOperator::StrictEquals || op == BinaryOperator::StrictNotEquals
}

/// An `expr === null` / `expr == undefined` (or negated) test: the tested
/// expression, whether the operator is an equality, and the values it selects.
pub open spec fn spec_parse_nullish_equality_condition(condition: Expr) -> Option<(Expr, bool, NullishTest)> {
    match condition {
        Expr::Binary { left, operator, right } => match spec_equality_polarity(operator) {
            Some(eq) => {
                let strict = spec_is_strict(operator);
                if spec_is_nullish_literal(*right) && !spec_is_nullish_literal(*left) {
                    Some((*left, eq, spec_nullish_test(*right, strict)))
                } else if spec_is_nullish_literal(*left) && !spec_is_nullish_literal(*right) {
                    Some((*right, eq, spec_nullish_test(*left, strict)))
                } else {
                    None
                }
            },
            None => None,
        },
        _ => None,
    }
}

/// See [`spec_parse_nullish_equality_condition`].
pub fn parse_nullish_equality_condition(condition: &Expr) -> (r: Option<(&Expr, bool, NullishTest)>)
    ensures
        match r {
            Some((e, eq, test)) => spec_parse_nullish_equality_condition(*condition) == Some(
                (*e, eq, test),
            ),
            None => spec_parse_nullish_equality_condition(*condition) is None,
        },
{
    match condition {
        Expr::Binary { left, operator, right } => match equality_polarity(*operator) {
            Some(eq) => {
                let strict = *operator == BinaryOperator::StrictEquals || *operator
                    == BinaryOperator::StrictNotEquals;
                let left_nullish = is_nullish_literal(left);
                let right_nullish = is_nullish_literal(right);
                if right_nullish && !left_nullish {
                    let is_null = match &**right {
                        Expr::NullLiteral => true,
                        _ => false,
                    };
                    Some((&**left, eq, NullishTest { null: is_null || !strict, undefined: !is_null || !strict }))
                } else if left_nullish && !right_nullish {
                    let is_null = match &**left {
                        Expr::NullLiteral => true,
                        _ => false,
                    };
                    Some((&**right, eq, NullishTest { null: is_null || !strict, undefined: !is_null || !strict }))
                } else {
                    None
                }
            },
            None => None,
        },
        _ => None,
    }
}

/// [`spec_selects`] compared with the branch, as a member test.
pub open spec fn nullish_test_keeps(test: NullishTest, keep_matching: bool) -> spec_fn(SpecType) -> bool {
    |m: SpecType| spec_selects(test, m) == keep_matching
}

/// Narrowing by a nullish equality test: the matching branch keeps the
/// selected nullish members, the complement drops them. A lone value that is
/// exactly the tested one is `never` where the test fails. `None` when there is
/// nothing to split on.
pub open spec fn spec_narrow_union_by_nullish(ty: SpecType, keep_matching: bool, test: NullishTest) -> Option<SpecType> {
    match ty {
        SpecType::Union(members) => {
            if !(exists|i: int| 0 <= i < members.len() && spec_selects(test, #[trigger] members[i])) {
                None
            } else {
                let kept = members.filter(nullish_test_keeps(test, keep_matching));
                if kept.len() == 0 {
                    None
                } else {
                    Some(spec_union(kept))
                }
            }
        },
        _ => if !keep_matching && spec_selects(test, ty) {
            Some(SpecType::Never)
        } else {
            None
        },
    }
}

/// See [`spec_narrow_union_by_nullish`].
pub fn narrow_union_by_nullish(ty: &Type, keep_matching: bool, test: NullishTest) -> (r: Option<Type>)
    ensures
        opt_view(r) == spec_narrow_union_by_nullish(ty@, keep_matching, test),
{
    let ms = match ty {
        Type::Union(ms) => ms,
        _ => {
            return if !keep_matching && test.selects(ty) {
                Some(Type::Never)
            } else {
                None
            };
        },
    };
    let ghost members = view_types(ms@);
    let ghost pred = nullish_test_keeps(test, keep_matching);
    proof {
        lemma_view_types(ms@);
    }
    let mut any_selected = false;
    let mut mask: Vec<bool> = Vec::new();
    let mut i: usize = 0;
    while i < ms.len()
        invariant
            0 <= i <= ms.len(),
            mask@.len() == i,
            members == view_types(ms@),
            members.len() == ms.len(),
            forall|j: int| 0 <= j < ms.len() ==> #[trigger] members[j] == view_type(ms@[j]),
            pred == nullish_test_keeps(test, keep_matching),
            forall|j: int| 0 <= j < i ==> mask@[j] == pred(#[trigger] view_type(ms@[j])),
            any_selected == (exists|j: int| 0 <= j < i && spec_selects(test, #[trigger] members[j])),
        decreases ms.len() - i,
    {
        let selected = test.selects(&ms[i]);
        if selected {
            assert(spec_selects(test, members[i as int]));
        }
        any_selected = any_selected || selected;
        mask.push(selected == keep_matching);
        i = i + 1;
    }
    if !any_selected {
        return None;
    }
    let kept = filter_members(ms, &mask, Ghost(pred));
    proof {
        lemma_view_types(kept@);
    }
    if kept.len() == 0 {
        None
    } else {
        Some(union_of(kept))
    }
}

} // verus!
