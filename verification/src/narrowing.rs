//! Narrowing a binding's type under a guard condition, composed through
//! `!`, `&&`, `||` and comparisons against boolean literals.

use vstd::prelude::*;
use crate::guards::arrayness::{
    narrow_union_by_arraybufferview, narrow_union_by_arrayness, parse_array_isarray_condition,
    parse_arraybuffer_isview_condition, spec_narrow_union_by_arraybufferview,
    spec_narrow_union_by_arrayness, spec_static_call_argument,
};
use crate::guards::discriminant::{
    narrow_discriminant_through_optional_chain, parse_discriminant_condition_with,
    spec_narrow_discriminant_through_optional_chain, spec_parse_discriminant_condition,
};
use crate::guards::instanceof::{
    narrow_union_by_instanceof, parse_instanceof_condition, spec_narrow_union_by_instanceof,
    spec_parse_instanceof_condition,
};
use crate::guards::literal_equality::{
    narrow_by_literal_equality, parse_identifier_literal_equality,
    spec_narrow_by_literal_equality, spec_parse_identifier_literal_equality,
};
use crate::guards::nullish::{
    narrow_union_by_nullish, parse_nullish_equality_condition, spec_narrow_union_by_nullish,
    spec_parse_nullish_equality_condition,
};
use crate::guards::property_presence::{
    narrow_union_by_property_presence, parse_in_condition, spec_narrow_union_by_property_presence,
    spec_parse_in_condition,
};
use crate::guards::typeof_guard::{
    narrow_union_by_typeof, spec_narrow_union_by_typeof, spec_parse_typeof_tag,
};
use crate::symbols::SymbolTable;
use crate::syntax::{
    equality_polarity, spec_equality_polarity, BinaryOperator, Expr, LogicalOperator,
    UnaryOperator,
};
use crate::text::{chars_eq, chars_of};
use crate::types::{
    copy_type, opt_view, spec_union, type_eq, union_of, view_types, SpecType, Type,
};

verus! {

/// A `typeof x === "tag"` (or `!==`) test: the operand, the tag string, and
/// whether the operator is an equality.
pub open spec fn spec_parse_typeof_condition(condition: Expr) -> Option<(Expr, Seq<char>, bool)> {
    match condition {
        Expr::Binary { left, operator, right } => match spec_equality_polarity(operator) {
            Some(eq) => match spec_typeof_side(*left, *right) {
                Some((operand, tag)) => Some((operand, tag, eq)),
                None => match spec_typeof_side(*right, *left) {
                    Some((operand, tag)) => Some((operand, tag, eq)),
                    None => None,
                },
            },
            None => None,
        },
        _ => None,
    }
}

/// `typeof operand` compared with a string literal tag.
pub open spec fn spec_typeof_side(maybe_typeof: Expr, maybe_tag: Expr) -> Option<(Expr, Seq<char>)> {
    match (maybe_typeof, maybe_tag) {
        (Expr::Unary { operator, operand }, Expr::StringLiteral(tag)) => if operator
            == UnaryOperator::Typeof {
            Some((*operand, tag@))
        } else {
            None
        },
        _ => None,
    }
}

fn typeof_side<'a>(maybe_typeof: &'a Expr, maybe_tag: &'a Expr) -> (r: Option<(&'a Expr, &'a str)>)
    ensures
        match r {
            Some((o, t)) => spec_typeof_side(*maybe_typeof, *maybe_tag) == Some((*o, t@)),
            None => spec_typeof_side(*maybe_typeof, *maybe_tag) is None,
        },
{
    match (maybe_typeof, maybe_tag) {
        (Expr::Unary { operator, operand }, Expr::StringLiteral(tag)) => if *operator
            == UnaryOperator::Typeof {
            Some((&**operand, tag.as_str()))
        } else {
            None
        },
        _ => None,
    }
}

/// See [`spec_parse_typeof_condition`].
pub fn parse_typeof_condition(condition: &Expr) -> (r: Option<(&Expr, &str, bool)>)
    ensures
        match r {
            Some((o, t, eq)) => spec_parse_typeof_condition(*condition) == Some((*o, t@, eq)),
            None => spec_parse_typeof_condition(*condition) is None,
        },
{
    match condition {
        Expr::Binary { left, operator, right } => match equality_polarity(*operator) {
            Some(eq) => match typeof_side(left, right) {
                Some((operand, tag)) => Some((operand, tag, eq)),
                None => match typeof_side(right, left) {
                    Some((operand, tag)) => Some((operand, tag, eq)),
                    None => None,
                },
            },
            None => None,
        },
        _ => None,
    }
}

/// The side of a comparison that holds the guard.
#[derive(PartialEq, Eq, Structural, Clone, Copy, Debug)]
pub enum Side {
    Left,
    Right,
}

/// A call, or a negation: the shapes a guard compared with a boolean literal
/// takes (a bare `flag === false` is an ordinary equality, not a guard).
pub open spec fn spec_guard_shaped(e: Expr) -> bool {
    match e {
        Expr::Call { .. } | Expr::PropertyCall { .. } => true,
        Expr::Unary { operator, .. } => operator == UnaryOperator::Not,
        _ => false,
    }
}

fn guard_shaped(e: &Expr) -> (r: bool)
    ensures
        r == spec_guard_shaped(*e),
{
    match e {
        Expr::Call { .. } | Expr::PropertyCall { .. } => true,
        Expr::Unary { operator, .. } => *operator == UnaryOperator::Not,
        _ => false,
    }
}

/// A guard compared with a boolean literal (`isObject(o) === false`): which
/// side holds the guard, and whether the branch flips.
pub open spec fn spec_strip_boolean_literal_comparison(condition: Expr) -> Option<(Side, bool)> {
    match condition {
        Expr::Binary { left, operator, right } => match spec_equality_polarity(operator) {
            Some(equality) => match (*left, *right) {
                (inner, Expr::BooleanLiteral(literal)) => if spec_guard_shaped(inner) {
                    Some((Side::Left, equality != literal))
                } else {
                    match (*left, *right) {
                        (Expr::BooleanLiteral(literal), inner) => if spec_guard_shaped(inner) {
                            Some((Side::Right, equality != literal))
                        } else {
                            None
                        },
                        _ => None,
                    }
                },
                (Expr::BooleanLiteral(literal), inner) => if spec_guard_shaped(inner) {
                    Some((Side::Right, equality != literal))
                } else {
                    None
                },
                _ => None,
            },
            None => None,
        },
        _ => None,
    }
}

/// See [`spec_strip_boolean_literal_comparison`]: returns the guard expression
/// and whether the branch flips.
pub fn strip_boolean_literal_comparison(condition: &Expr) -> (r: Option<(&Expr, bool)>)
    ensures
        match r {
            Some((inner, flip)) => match spec_strip_boolean_literal_comparison(*condition) {
                Some((side, f)) => f == flip && match *condition {
                    Expr::Binary { left, operator: _, right } => *inner == (if side == Side::Left {
                        *left
                    } else {
                        *right
                    }),
                    _ => false,
                },
                None => false,
            },
            None => spec_strip_boolean_literal_comparison(*condition) is None,
        },
{
    match condition {
        Expr::Binary { left, operator, right } => match equality_polarity(*operator) {
            Some(equality) => {
                if let Expr::BooleanLiteral(literal) = &**right {
                    if guard_shaped(left) {
                        return Some((&**left, equality != *literal));
                    }
                }
                if let Expr::BooleanLiteral(literal) = &**left {
                    if guard_shaped(right) {
                        return Some((&**right, equality != *literal));
                    }
                }
                None
            },
            None => None,
        },
        _ => None,
    }
}

/// Which side of a comparison with a boolean literal holds the guard (see
/// [`spec_strip_boolean_literal_comparison`]).
pub fn strip_side(condition: &Expr) -> (r: Option<(Side, bool)>)
    ensures
        r == spec_strip_boolean_literal_comparison(*condition),
{
    match condition {
        Expr::Binary { left, operator, right } => match equality_polarity(*operator) {
            Some(equality) => {
                if let Expr::BooleanLiteral(literal) = &**right {
                    if guard_shaped(left) {
                        return Some((Side::Left, equality != *literal));
                    }
                }
                if let Expr::BooleanLiteral(literal) = &**left {
                    if guard_shaped(right) {
                        return Some((Side::Right, equality != *literal));
                    }
                }
                None
            },
            None => None,
        },
        _ => None,
    }
}

/// Whether `e` is the bare identifier `name`.
pub open spec fn spec_is_identifier(e: Expr, name: Seq<char>) -> bool {
    match e {
        Expr::Identifier(n) => n@ == name,
        _ => false,
    }
}

fn is_identifier(e: &Expr, name: &str) -> (r: bool)
    ensures
        r == spec_is_identifier(*e, name@),
{
    match e {
        Expr::Identifier(n) => {
            let a = chars_of(n.as_str());
            let b = chars_of(name);
            chars_eq(&a, &b)
        },
        _ => false,
    }
}

/// One guard (no `!`, `&&`, `||`) applied to the binding `var_name` of type
/// `ty` in the branch `branch_is_true`: `None` when the guard does not test the
/// binding, or leaves it unchanged. The guards consulted are `instanceof`,
/// `typeof`, `Array.isArray`, `ArrayBuffer.isView`, a discriminant test, a
/// nullish comparison, a literal comparison and `in`. A type-predicate or
/// `this`-predicate call, a comparison with another reference, a guard on a
/// property below the binding and the `instanceof` subclass fallback are not
/// consulted: such a guard answers `None` here.
pub open spec fn spec_narrow_single_guard(condition: Expr, var_name: Seq<char>, ty: SpecType, branch_is_true: bool, table: SymbolTable) -> Option<SpecType> {
    if spec_parse_instanceof_condition(condition) is Some && spec_is_identifier(
        spec_parse_instanceof_condition(condition).unwrap().0,
        var_name,
    ) {
        let (_, ctor) = spec_parse_instanceof_condition(condition).unwrap();
        spec_narrow_union_by_instanceof(ty, ctor, branch_is_true)
    } else if spec_parse_typeof_condition(condition) is Some && spec_is_identifier(
        spec_parse_typeof_condition(condition).unwrap().0,
        var_name,
    ) {
        let (_, tag, eq) = spec_parse_typeof_condition(condition).unwrap();
        spec_narrow_union_by_typeof(ty, spec_parse_typeof_tag(tag), branch_is_true == eq)
    } else if spec_static_call_argument(condition, "Array"@, "isArray"@) is Some
        && spec_is_identifier(
        spec_static_call_argument(condition, "Array"@, "isArray"@).unwrap(),
        var_name,
    ) {
        spec_narrow_union_by_arrayness(ty, branch_is_true)
    } else if spec_static_call_argument(condition, "ArrayBuffer"@, "isView"@) is Some
        && spec_is_identifier(
        spec_static_call_argument(condition, "ArrayBuffer"@, "isView"@).unwrap(),
        var_name,
    ) {
        spec_narrow_union_by_arraybufferview(ty, branch_is_true)
    } else if spec_parse_discriminant_condition(condition, table) is Some && spec_is_identifier(
        spec_parse_discriminant_condition(condition, table).unwrap().0,
        var_name,
    ) {
        let (_, property, literal, eq) = spec_parse_discriminant_condition(condition, table).unwrap();
        spec_narrow_discriminant_through_optional_chain(
            condition,
            ty,
            property,
            literal,
            branch_is_true == eq,
        )
    } else if spec_parse_nullish_equality_condition(condition) is Some && spec_is_identifier(
        spec_parse_nullish_equality_condition(condition).unwrap().0,
        var_name,
    ) {
        let (_, eq, test) = spec_parse_nullish_equality_condition(condition).unwrap();
        spec_narrow_union_by_nullish(ty, branch_is_true == eq, test)
    } else {
        match spec_literal_equality_step(condition, var_name, ty, branch_is_true, table) {
            Some(n) => Some(n),
            None => if spec_parse_in_condition(condition) is Some && spec_is_identifier(
                spec_parse_in_condition(condition).unwrap().0,
                var_name,
            ) {
                let (_, property) = spec_parse_in_condition(condition).unwrap();
                spec_narrow_union_by_property_presence(ty, property, branch_is_true)
            } else {
                None
            },
        }
    }
}

/// `var === literal` on the binding itself; excluding the one literal the
/// binding already is leaves `never`.
pub open spec fn spec_literal_equality_step(condition: Expr, var_name: Seq<char>, ty: SpecType, branch_is_true: bool, table: SymbolTable) -> Option<SpecType> {
    match spec_parse_identifier_literal_equality(condition, table) {
        Some((name, literal, eq)) => if name == var_name {
            let keep_matching = branch_is_true == eq;
            match spec_narrow_by_literal_equality(ty, literal, keep_matching) {
                Some(n) => Some(n),
                None => if !keep_matching && ty == literal {
                    Some(SpecType::Never)
                } else {
                    None
                },
            }
        } else {
            None
        },
        None => None,
    }
}

fn literal_equality_step(condition: &Expr, var_name: &str, ty: &Type, branch_is_true: bool, symbols: &SymbolTable) -> (r: Option<Type>)
    ensures
        opt_view(r) == spec_literal_equality_step(*condition, var_name@, ty@, branch_is_true, *symbols),
{
    match parse_identifier_literal_equality(condition, symbols) {
        Some((name, literal, eq)) => {
            let a = chars_of(name);
            let b = chars_of(var_name);
            if !chars_eq(&a, &b) {
                return None;
            }
            let keep_matching = branch_is_true == eq;
            match narrow_by_literal_equality(ty, &literal, keep_matching) {
                Some(n) => Some(n),
                None => if !keep_matching && type_eq(ty, &literal) {
                    Some(Type::Never)
                } else {
                    None
                },
            }
        },
        None => None,
    }
}

/// See [`spec_narrow_single_guard`].
pub fn narrow_single_guard_for_identifier(condition: &Expr, var_name: &str, ty: &Type, branch_is_true: bool, symbols: &SymbolTable) -> (r: Option<Type>)
    ensures
        opt_view(r) == spec_narrow_single_guard(*condition, var_name@, ty@, branch_is_true, *symbols),
{
    if let Some((operand, ctor)) = parse_instanceof_condition(condition) {
        if is_identifier(operand, var_name) {
            return narrow_union_by_instanceof(ty, ctor, branch_is_true);
        }
    }
    if let Some((operand, tag, eq)) = parse_typeof_condition(condition) {
        if is_identifier(operand, var_name) {
            return narrow_union_by_typeof(ty, tag, branch_is_true == eq);
        }
    }
    if let Some(operand) = parse_array_isarray_condition(condition) {
        if is_identifier(operand, var_name) {
            return narrow_union_by_arrayness(ty, branch_is_true);
        }
    }
    if let Some(operand) = parse_arraybuffer_isview_condition(condition) {
        if is_identifier(operand, var_name) {
            return narrow_union_by_arraybufferview(ty, branch_is_true);
        }
    }
    if let Some((object, property, literal, eq)) = parse_discriminant_condition_with(condition, symbols) {
        if is_identifier(object, var_name) {
            return narrow_discriminant_through_optional_chain(
                condition,
                ty,
                property,
                &literal,
                branch_is_true == eq,
            );
        }
    }
    if let Some((subject, eq, test)) = parse_nullish_equality_condition(condition) {
        if is_identifier(subject, var_name) {
            return narrow_union_by_nullish(ty, branch_is_true == eq, test);
        }
    }
    if let Some(n) = literal_equality_step(condition, var_name, ty, branch_is_true, symbols) {
        return Some(n);
    }
    if let Some((object, property)) = parse_in_condition(condition) {
        if is_identifier(object, var_name) {
            return narrow_union_by_property_presence(ty, property.as_str(), branch_is_true);
        }
    }
    None
}

/// The union of two narrowings (`A || B` true branch, `A && B` false branch).
pub open spec fn spec_union2(a: SpecType, b: SpecType) -> SpecType {
    spec_union(seq![a, b])
}

fn union2(a: Type, b: Type) -> (r: Type)
    ensures
        r@ == spec_union2(a@, b@),
{
    let mut v: Vec<Type> = Vec::new();
    proof {
        crate::types::lemma_view_types_push(v@, a);
    }
    v.push(a);
    proof {
        crate::types::lemma_view_types_push(v@, b);
    }
    v.push(b);
    assert(view_types(Seq::<Type>::empty()) =~= Seq::<SpecType>::empty());
    assert(Seq::<SpecType>::empty().push(a@).push(b@) =~= seq![a@, b@]);
    union_of(v)
}

/// Narrows `ty`, the type of the binding `var_name`, under `condition` in the
/// branch `branch_is_true`: `!` flips the branch, a guard compared with a
/// boolean literal is that guard, `A || B` holds where A held or A failed and
/// B held (a union, and only when both constrain the binding), `A && B` holds
/// where A held and then B held (likewise `A || B` where it fails). `None`
/// when the condition does not constrain the binding: in particular when
/// neither operand of such a chain does.
pub open spec fn spec_narrow_type_for_identifier(condition: Expr, var_name: Seq<char>, ty: SpecType, branch_is_true: bool, table: SymbolTable) -> Option<SpecType>
    decreases condition,
{
    match condition {
        Expr::Unary { operator, operand } if operator == UnaryOperator::Not => spec_narrow_type_for_identifier(
            *operand,
            var_name,
            ty,
            !branch_is_true,
            table,
        ),
        Expr::Binary { left, operator: _, right } if spec_strip_boolean_literal_comparison(condition) is Some => {
            let (side, flip) = spec_strip_boolean_literal_comparison(condition).unwrap();
            if side == Side::Left {
                spec_narrow_type_for_identifier(*left, var_name, ty, branch_is_true != flip, table)
            } else {
                spec_narrow_type_for_identifier(*right, var_name, ty, branch_is_true != flip, table)
            }
        },
        Expr::Logical { left, operator, right } if operator == LogicalOperator::Or && branch_is_true => {
            match spec_narrow_type_for_identifier(*left, var_name, ty, true, table) {
                None => None,
                Some(left_narrowed) => {
                    let after_left = match spec_narrow_type_for_identifier(*left, var_name, ty, false, table) {
                        Some(t) => t,
                        None => ty,
                    };
                    match spec_narrow_type_for_identifier(*right, var_name, after_left, true, table) {
                        None => None,
                        Some(right_narrowed) => Some(spec_union2(left_narrowed, right_narrowed)),
                    }
                },
            }
        },
        Expr::Logical { left, operator, right } if operator == LogicalOperator::And && branch_is_true => {
            let left_narrowed = spec_narrow_type_for_identifier(*left, var_name, ty, true, table);
            let after_left = match left_narrowed {
                Some(t) => t,
                None => ty,
            };
            match spec_narrow_type_for_identifier(*right, var_name, after_left, true, table) {
                Some(t) => Some(t),
                None => left_narrowed,
            }
        },
        Expr::Logical { left, operator, right } if operator == LogicalOperator::Or => {
            let left_narrowed = spec_narrow_type_for_identifier(*left, var_name, ty, false, table);
            let after_left = match left_narrowed {
                Some(t) => t,
                None => ty,
            };
            match spec_narrow_type_for_identifier(*right, var_name, after_left, false, table) {
                Some(t) => Some(t),
                None => left_narrowed,
            }
        },
        Expr::Logical { left, operator, right } if operator == LogicalOperator::And => {
            match spec_narrow_type_for_identifier(*left, var_name, ty, false, table) {
                None => None,
                Some(left_narrowed) => {
                    let after_left = match spec_narrow_type_for_identifier(*left, var_name, ty, true, table) {
                        Some(t) => t,
                        None => ty,
                    };
                    match spec_narrow_type_for_identifier(*right, var_name, after_left, false, table) {
                        None => None,
                        Some(right_narrowed) => Some(spec_union2(left_narrowed, right_narrowed)),
                    }
                },
            }
        },
        _ => spec_narrow_single_guard(condition, var_name, ty, branch_is_true, table),
    }
}

fn or_else_copy(o: Option<Type>, ty: &Type) -> (r: Type)
    ensures
        r@ == (match opt_view(o) {
            Some(t) => t,
            None => ty@,
        }),
{
    match o {
        Some(t) => t,
        None => copy_type(ty),
    }
}

/// See [`spec_narrow_type_for_identifier`].
pub fn narrow_type_for_identifier(condition: &Expr, var_name: &str, ty: &Type, branch_is_true: bool, symbols: &SymbolTable) -> (r: Option<Type>)
    ensures
        opt_view(r) == spec_narrow_type_for_identifier(*condition, var_name@, ty@, branch_is_true, *symbols),
    decreases condition,
{
    match condition {
        Expr::Unary { operator, operand } if *operator == UnaryOperator::Not => {
            return narrow_type_for_identifier(operand, var_name, ty, !branch_is_true, symbols);
        },
        Expr::Binary { left, operator: _, right } => {
            match strip_side(condition) {
                Some((side, flip)) => {
                    if side == Side::Left {
                        return narrow_type_for_identifier(left, var_name, ty, branch_is_true != flip, symbols);
                    } else {
                        return narrow_type_for_identifier(right, var_name, ty, branch_is_true != flip, symbols);
                    }
                },
                None => {},
            }
        },
        Expr::Logical { left, operator, right } => {
            if *operator == LogicalOperator::Or && branch_is_true {
                let left_narrowed = match narrow_type_for_identifier(left, var_name, ty, true, symbols) {
                    None => return None,
                    Some(t) => t,
                };
                let after_left = or_else_copy(
                    narrow_type_for_identifier(left, var_name, ty, false, symbols),
                    ty,
                );
                return match narrow_type_for_identifier(right, var_name, &after_left, true, symbols) {
                    None => None,
                    Some(right_narrowed) => Some(union2(left_narrowed, right_narrowed)),
                };
            }
            if *operator == LogicalOperator::And && branch_is_true || *operator == LogicalOperator::Or
                && !branch_is_true {
                let left_narrowed = narrow_type_for_identifier(left, var_name, ty, branch_is_true, symbols);
                return match &left_narrowed {
                    Some(after_left) => match narrow_type_for_identifier(
                        right,
                        var_name,
                        after_left,
                        branch_is_true,
                        symbols,
                    ) {
                        Some(t) => Some(t),
                        None => left_narrowed,
                    },
                    None => narrow_type_for_identifier(right, var_name, ty, branch_is_true, symbols),
                };
            }
            if *operator == LogicalOperator::And {
                let left_narrowed = match narrow_type_for_identifier(left, var_name, ty, false, symbols) {
                    None => return None,
                    Some(t) => t,
                };
                let after_left = or_else_copy(
                    narrow_type_for_identifier(left, var_name, ty, true, symbols),
                    ty,
                );
                return match narrow_type_for_identifier(right, var_name, &after_left, false, symbols) {
                    None => None,
                    Some(right_narrowed) => Some(union2(left_narrowed, right_narrowed)),
                };
            }
        },
        _ => {},
    }
    narrow_single_guard_for_identifier(condition, var_name, ty, branch_is_true, symbols)
}

} // verus!
