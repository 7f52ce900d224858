//! `x instanceof C` guards, decided by the constructor's name.

use vstd::prelude::*;
use crate::guards::arrayness::{is_array_like_member, spec_is_array_like_member, spec_is_unclassifiable};
use crate::syntax::{BinaryOperator, Expr};
use crate::text::{after_last, before_first, chars_after_last, chars_before_first, chars_eq, chars_of};
use crate::types::{
    filter_members, filter_union, lemma_filter_all, lemma_view_types, nominal_name, opt_view,
    peeled, spec_filter_union, spec_nominal_name, spec_peel, spec_union, union_of, view_type,
    view_types, SpecType, Type,
};

verus! {

/// A member that can never be the left operand of a true `instanceof`: a
/// primitive, `undefined`, or `never`.
pub open spec fn spec_is_definitely_not_an_object(member: SpecType) -> bool {
    member is String || member is StringLiteral || member is Number || member is NumberLiteral
        || member is Boolean || member is BooleanLiteral || member is BigInt || member is Symbol
        || member is Undefined || member is Void || member is Never
}

/// See [`spec_is_definitely_not_an_object`].
pub fn is_definitely_not_an_object(member: &Type) -> (r: bool)
    ensures
        r == spec_is_definitely_not_an_object(member@),
{
    match member {
        Type::String | Type::StringLiteral(_) | Type::Number | Type::NumberLiteral(_)
        | Type::Boolean | Type::BooleanLiteral(_) | Type::BigInt | Type::Symbol | Type::Undefined
        | Type::Void | Type::Never => true,
        _ => false,
    }
}

/// A primitive or `never`, which is no instance of any class.
pub open spec fn spec_is_primitive_non_instance(member: SpecType) -> bool {
    member is String || member is StringLiteral || member is Number || member is NumberLiteral
        || member is Boolean || member is BooleanLiteral || member is Undefined || member is Void
        || member is Never
}

/// Whether a member's own name matches the constructor: its name with type
/// arguments stripped, or the last segment of a qualified name.
pub open spec fn spec_name_matches(name: Seq<char>, ctor_name: Seq<char>) -> bool {
    let base = before_first(name, '<');
    base == ctor_name || after_last(base, '.') == ctor_name
}

/// Whether `member` is an instance of the class named `ctor_name`:
/// `Some(false)` when it definitely is not, `None` when undecidable. Against
/// `Array` the test is array-ness; otherwise the member's own name decides, and
/// a structural member (which has no name) is no instance.
pub open spec fn spec_instanceof_matches(member: SpecType, ctor_name: Seq<char>) -> Option<bool> {
    if spec_is_unclassifiable(member) {
        None
    } else if ctor_name == "Array"@ {
        Some(spec_is_array_like_member(member))
    } else if spec_is_primitive_non_instance(member) {
        Some(false)
    } else {
        match spec_nominal_name(member) {
            Some(name) => Some(spec_name_matches(name, ctor_name)),
            None => Some(false),
        }
    }
}

/// See [`spec_instanceof_matches`].
pub fn instanceof_matches(member: &Type, ctor_name: &str) -> (r: Option<bool>)
    ensures
        r == spec_instanceof_matches(member@, ctor_name@),
{
    let unclassifiable = match member {
        Type::Any | Type::Unknown | Type::GenuineUnknown | Type::TypeParameter(_) => true,
        _ => false,
    };
    if unclassifiable {
        return None;
    }
    let ctor = chars_of(ctor_name);
    if crate::text::chars_are(&ctor, "Array") {
        return Some(is_array_like_member(member));
    }
    match member {
        Type::String | Type::StringLiteral(_) | Type::Number | Type::NumberLiteral(_)
        | Type::Boolean | Type::BooleanLiteral(_) | Type::Undefined | Type::Void | Type::Never => {
            return Some(false);
        },
        _ => {},
    }
    match nominal_name(member) {
        Some(name) => {
            let base = chars_before_first(&name, '<');
            let own = chars_after_last(&base, '.');
            Some(chars_eq(&base, &ctor) || chars_eq(&own, &ctor))
        },
        None => Some(false),
    }
}

/// Whether a member survives an `instanceof` test in a branch.
pub open spec fn instanceof_test(ctor_name: Seq<char>, keep_matching: bool) -> spec_fn(SpecType) -> bool {
    |m: SpecType|
        match spec_instanceof_matches(m, ctor_name) {
            Some(is_instance) => is_instance == keep_matching,
            None => true,
        }
}

/// A member that may be an object.
pub open spec fn maybe_object_test() -> spec_fn(SpecType) -> bool {
    |m: SpecType| !spec_is_definitely_not_an_object(m)
}

/// Narrowing by `x instanceof C`: `keep_matching` keeps the instances (the true
/// branch), otherwise removes them; undecidable members stay either way. A named
/// alias is opened first. When no member names the constructor, the true
/// branch still drops what is certainly no object; a lone instance cannot
/// reach the false branch.
pub open spec fn spec_narrow_union_by_instanceof(ty: SpecType, ctor_name: Seq<char>, keep_matching: bool) -> Option<SpecType> {
    let p = spec_peel(ty);
    match p {
        SpecType::Union(members) => {
            let kept = members.filter(instanceof_test(ctor_name, keep_matching));
            if kept.len() == 0 && keep_matching {
                let objects = members.filter(maybe_object_test());
                if objects.len() != 0 && objects.len() < members.len() {
                    Some(spec_union(objects))
                } else {
                    None
                }
            } else if kept.len() == 0 || kept.len() == members.len() {
                None
            } else {
                Some(spec_union(kept))
            }
        },
        _ => if !keep_matching && spec_instanceof_matches(p, ctor_name) == Some(true) {
            Some(SpecType::Never)
        } else {
            None
        },
    }
}

/// See [`spec_narrow_union_by_instanceof`].
pub fn narrow_union_by_instanceof(ty: &Type, ctor_name: &str, keep_matching: bool) -> (r: Option<Type>)
    ensures
        opt_view(r) == spec_narrow_union_by_instanceof(ty@, ctor_name@, keep_matching),
{
    let p = peeled(ty);
    let ms = match p {
        Type::Union(ms) => ms,
        _ => {
            return if !keep_matching && instanceof_matches(p, ctor_name) == Some(true) {
                Some(Type::Never)
            } else {
                None
            };
        },
    };
    let ghost members = view_types(ms@);
    let ghost pred = instanceof_test(ctor_name@, keep_matching);
    let ghost objects_pred = maybe_object_test();
    proof {
        lemma_view_types(ms@);
    }
    let mut mask: Vec<bool> = Vec::new();
    let mut objects_mask: Vec<bool> = Vec::new();
    let mut i: usize = 0;
    while i < ms.len()
        invariant
            0 <= i <= ms.len(),
            mask@.len() == i,
            objects_mask@.len() == i,
            pred == instanceof_test(ctor_name@, keep_matching),
            objects_pred == maybe_object_test(),
            forall|j: int| 0 <= j < i ==> mask@[j] == pred(#[trigger] view_type(ms@[j])),
            forall|j: int| 0 <= j < i ==> objects_mask@[j] == objects_pred(#[trigger] view_type(ms@[j])),
        decreases ms.len() - i,
    {
        let survives = match instanceof_matches(&ms[i], ctor_name) {
            Some(is_instance) => is_instance == keep_matching,
            None => true,
        };
        mask.push(survives);
        objects_mask.push(!is_definitely_not_an_object(&ms[i]));
        i = i + 1;
    }
    let kept = filter_members(ms, &mask, Ghost(pred));
    proof {
        lemma_view_types(kept@);
    }
    if kept.len() == 0 && keep_matching {
        let objects = filter_members(ms, &objects_mask, Ghost(objects_pred));
        proof {
            lemma_view_types(objects@);
        }
        if objects.len() != 0 && objects.len() < ms.len() {
            return Some(union_of(objects));
        }
        return None;
    }
    if kept.len() == 0 || kept.len() == ms.len() {
        None
    } else {
        Some(union_of(kept))
    }
}

/// An `x instanceof C` test: the operand and the constructor's own name (the
/// last segment of `ns.C`).
pub open spec fn spec_parse_instanceof_condition(condition: Expr) -> Option<(Expr, Seq<char>)> {
    match condition {
        Expr::Binary { left, operator, right } => if operator == BinaryOperator::Instanceof {
            match *right {
                Expr::Identifier(name) => Some((*left, name@)),
                Expr::PropertyAccess { object, property_name } => match *object {
                    Expr::Identifier(_) => Some((*left, property_name@)),
                    _ => None,
                },
                _ => None,
            }
        } else {
            None
        },
        _ => None,
    }
}

/// See [`spec_parse_instanceof_condition`].
pub fn parse_instanceof_condition(condition: &Expr) -> (r: Option<(&Expr, &str)>)
    ensures
        match r {
            Some((e, c)) => spec_parse_instanceof_condition(*condition) == Some((*e, c@)),
            None => spec_parse_instanceof_condition(*condition) is None,
        },
{
    match condition {
        Expr::Binary { left, operator, right } => {
            if *operator != BinaryOperator::Instanceof {
                return None;
            }
            match &**right {
                Expr::Identifier(name) => Some((&**left, name.as_str())),
                Expr::PropertyAccess { object, property_name } => match &**object {
                    Expr::Identifier(_) => Some((&**left, property_name.as_str())),
                    _ => None,
                },
                _ => None,
            }
        },
        _ => None,
    }
}

} // verus!
