//! `==`, `!=`, `===` and `!==` tests read as equality guards.

use vstd::prelude::*;
use crate::syntax::{BinaryOperator, Expr};

verus! {

/// An equality test: whichever operand is the narrowed reference, the other
/// one is the compared value.
pub struct EqualityTest<'a> {
    pub left: &'a Expr,
    pub right: &'a Expr,
    /// `!=` or `!==`.
    pub negated: bool,
    /// `==` or `!=`.
    pub double_equals: bool,
}

/// The parts of an equality test: its operands, whether it is negated, and
/// whether it is a loose (`==`/`!=`) comparison.
pub open spec fn spec_parse_equality_test(condition: Expr) -> Option<(Expr, Expr, bool, bool)> {
    match condition {
        Expr::Binary { left, operator, right } => match operator {
            BinaryOperator::StrictEquals => Some((*left, *right, false, false)),
            BinaryOperator::StrictNotEquals => Some((*left, *right, true, false)),
            BinaryOperator::Equals => Some((*left, *right, false, true)),
            BinaryOperator::NotEquals => Some((*left, *right, true, true)),
            _ => None,
        },
        _ => None,
    }
}

/// See [`spec_parse_equality_test`].
pub fn parse_equality_test(condition: &Expr) -> (r: Option<EqualityTest<'_>>)
    ensures
        match r {
            Some(t) => spec_parse_equality_test(*condition) == Some(
                (*t.left, *t.right, t.negated, t.double_equals),
            ),
            None => spec_parse_equality_test(*condition) is None,
        },
{
    match condition {
        Expr::Binary { left, operator, right } => {
            let (negated, double_equals) = match operator {
                BinaryOperator::StrictEquals => (false, false),
                BinaryOperator::StrictNotEquals => (true, false),
                BinaryOperator::Equals => (false, true),
                BinaryOperator::NotEquals => (true, true),
                _ => return None,
            };
            Some(EqualityTest { left: &**left, right: &**right, negated, double_equals })
        },
        _ => None,
    }
}

impl<'a> EqualityTest<'a> {
    /// The operands as `(subject, value)` pairs, left first.
    pub fn operand_pairs(&self) -> (r: ((&'a Expr, &'a Expr), (&'a Expr, &'a Expr)))
        ensures
            *r.0.0 == *self.left && *r.0.1 == *self.right,
            *r.1.0 == *self.right && *r.1.1 == *self.left,
    {
        ((self.left, self.right), (self.right, self.left))
    }

    /// Whether the comparison, as written, holds in `branch_is_true`.
    pub fn assume_true(&self, branch_is_true: bool) -> (r: bool)
        ensures
            r == (branch_is_true != self.negated),
    {
        branch_is_true != self.negated
    }
}

} // verus!
