//! `Array.isArray(x)` and `ArrayBuffer.isView(x)` guards.

use vstd::prelude::*;
use crate::syntax::Expr;
use crate::text::{after_last, before_first, chars_are, chars_before_first, chars_of};
use crate::types::{
    filter_union, lemma_filter_none, lemma_view_types, nominal_name, opt_chars, opt_view, reference_own_name,
    spec_filter_union, spec_nominal_name, spec_reference_own_name, spec_union, view_reference,
    view_type, view_types, SpecType, Type,
};

verus! {

/// The argument of a `<object>.<method>(x)` call with exactly one argument.
pub open spec fn spec_static_call_argument(condition: Expr, object: Seq<char>, method: Seq<char>) -> Option<Expr> {
    match condition {
        Expr::PropertyCall { object: o, property_name, arguments, .. } => match *o {
            Expr::Identifier(name) => if name@ == object && property_name@ == method
                && arguments@.len() == 1 {
                Some(arguments@[0])
            } else {
                None
            },
            _ => None,
        },
        _ => None,
    }
}

fn static_call_argument<'a>(condition: &'a Expr, object: &str, method: &str) -> (r: Option<&'a Expr>)
    ensures
        match r {
            Some(e) => spec_static_call_argument(*condition, object@, method@) == Some(*e),
            None => spec_static_call_argument(*condition, object@, method@) is None,
        },
{
    match condition {
        Expr::PropertyCall { object: o, property_name, arguments, .. } => match &**o {
            Expr::Identifier(name) => {
                let n = chars_of(name.as_str());
                let p = chars_of(property_name.as_str());
                let want_object = chars_of(object);
                let want_method = chars_of(method);
                if crate::text::chars_eq(&n, &want_object) && crate::text::chars_eq(
                    &p,
                    &want_method,
                ) && arguments.len() == 1 {
                    Some(&arguments[0])
                } else {
                    None
                }
            },
            _ => None,
        },
        _ => None,
    }
}

/// Parses an `Array.isArray(x)` guard, returning the argument expression.
pub fn parse_array_isarray_condition(condition: &Expr) -> (r: Option<&Expr>)
    ensures
        match r {
            Some(e) => spec_static_call_argument(*condition, "Array"@, "isArray"@) == Some(*e),
            None => spec_static_call_argument(*condition, "Array"@, "isArray"@) is None,
        },
{
    static_call_argument(condition, "Array", "isArray")
}

/// Parses an `ArrayBuffer.isView(x)` guard, returning the argument expression.
pub fn parse_arraybuffer_isview_condition(condition: &Expr) -> (r: Option<&Expr>)
    ensures
        match r {
            Some(e) => spec_static_call_argument(*condition, "ArrayBuffer"@, "isView"@) == Some(*e),
            None => spec_static_call_argument(*condition, "ArrayBuffer"@, "isView"@) is None,
        },
{
    static_call_argument(condition, "ArrayBuffer", "isView")
}

/// A member no membership test can classify: `any`, `unknown`, a type variable.
pub open spec fn spec_is_unclassifiable(member: SpecType) -> bool {
    member is Any || member is Unknown || member is GenuineUnknown || member is TypeParameter
}

fn is_unclassifiable(member: &Type) -> (r: bool)
    ensures
        r == spec_is_unclassifiable(member@),
{
    match member {
        Type::Any | Type::Unknown | Type::GenuineUnknown | Type::TypeParameter(_) => true,
        _ => false,
    }
}

/// An array or tuple, including `Array<T>` / `ReadonlyArray<T>` written in
/// generic form, which stays a named reference.
pub open spec fn spec_is_array_like_member(member: SpecType) -> bool {
    match member {
        SpecType::Array(_) | SpecType::Tuple(_) => true,
        SpecType::Reference(r) => spec_reference_own_name(r) == "Array"@
            || spec_reference_own_name(r) == "ReadonlyArray"@,
        _ => false,
    }
}

/// See [`spec_is_array_like_member`].
pub fn is_array_like_member(member: &Type) -> (r: bool)
    ensures
        r == spec_is_array_like_member(member@),
{
    match member {
        Type::Array(_) | Type::Tuple(_) => true,
        Type::Reference(reference) => {
            assert(member@ == SpecType::Reference(view_reference(*reference)));
            let own = reference_own_name(reference);
            chars_are(&own, "Array") || chars_are(&own, "ReadonlyArray")
        },
        _ => false,
    }
}

/// Whether a union member survives `Array.isArray(x)` in a branch.
pub open spec fn spec_arrayness_survives(member: SpecType, keep_arrays: bool) -> bool {
    if spec_is_unclassifiable(member) {
        true
    } else if spec_is_array_like_member(member) {
        keep_arrays
    } else {
        !keep_arrays
    }
}

/// [`spec_arrayness_survives`] as a member test.
pub open spec fn arrayness_test(keep_arrays: bool) -> spec_fn(SpecType) -> bool {
    |m: SpecType| spec_arrayness_survives(m, keep_arrays)
}

/// Narrowing by `Array.isArray(x)`: `keep_arrays` keeps the array and tuple
/// members (the true branch), otherwise removes them. With no member that can
/// be an array the true branch is `any[]`, the predicate's own type.
pub open spec fn spec_narrow_union_by_arrayness(ty: SpecType, keep_arrays: bool) -> Option<SpecType> {
    match ty {
        SpecType::Union(members) => {
            let kept = members.filter(arrayness_test(keep_arrays));
            if kept.len() == 0 {
                if keep_arrays {
                    Some(SpecType::Array(Box::new(SpecType::Any)))
                } else {
                    None
                }
            } else if kept.len() == members.len() {
                None
            } else {
                Some(spec_union(kept))
            }
        },
        _ => None,
    }
}

/// See [`spec_narrow_union_by_arrayness`].
pub fn narrow_union_by_arrayness(ty: &Type, keep_arrays: bool) -> (r: Option<Type>)
    ensures
        opt_view(r) == spec_narrow_union_by_arrayness(ty@, keep_arrays),
{
    let ms = match ty {
        Type::Union(ms) => ms,
        _ => return None,
    };
    let ghost pred = arrayness_test(keep_arrays);
    let mut mask: Vec<bool> = Vec::new();
    let mut i: usize = 0;
    while i < ms.len()
        invariant
            0 <= i <= ms.len(),
            mask@.len() == i,
            pred == arrayness_test(keep_arrays),
            forall|j: int| 0 <= j < i ==> mask@[j] == pred(#[trigger] view_type(ms@[j])),
        decreases ms.len() - i,
    {
        let m = &ms[i];
        let survives = if is_unclassifiable(m) {
            true
        } else if is_array_like_member(m) {
            keep_arrays
        } else {
            !keep_arrays
        };
        mask.push(survives);
        i = i + 1;
    }
    let filtered = filter_union(ms, &mask, Ghost(pred));
    match filtered {
        None => {
            let ghost kept = view_types(ms@).filter(pred);
            proof {
                lemma_view_types(ms@);
                lemma_filter_none(view_types(ms@), pred);
            }
            let none_kept = all_removed(ms, &mask);
            proof {
                if none_kept {
                    assert forall|j: int| 0 <= j < view_types(ms@).len() implies !pred(
                        #[trigger] view_types(ms@)[j],
                    ) by {
                        assert(!mask@[j]);
                    }
                } else {
                    let j = choose|j: int| 0 <= j < mask@.len() && mask@[j];
                    assert(pred(view_types(ms@)[j]));
                }
            }
            assert(ty@ == SpecType::Union(view_types(ms@)));
            if keep_arrays && none_kept {
                assert(kept.len() == 0);
                let any_array = Type::Array(Box::new(Type::Any));
                assert(view_type(Type::Any) == SpecType::Any);
                assert(any_array@ == SpecType::Array(Box::new(SpecType::Any)));
                Some(any_array)
            } else {
                proof {
                    if kept.len() == 0 {
                        assert(!keep_arrays);
                    } else {
                        assert(kept.len() == view_types(ms@).len());
                    }
                }
                None
            }
        },
        some => some,
    }
}

/// Whether the mask drops every member, i.e. the filtered sequence is empty.
fn all_removed(ms: &Vec<Type>, mask: &Vec<bool>) -> (r: bool)
    requires
        mask@.len() == ms@.len(),
    ensures
        r == (forall|j: int| 0 <= j < mask@.len() ==> !mask@[j]),
{
    let mut i: usize = 0;
    while i < mask.len()
        invariant
            0 <= i <= mask.len(),
            forall|j: int| 0 <= j < i ==> !mask@[j],
        decreases mask.len() - i,
    {
        if mask[i] {
            return false;
        }
        i = i + 1;
    }
    true
}

/// The concrete `ArrayBufferView` names: the interface, `DataView` and the
/// typed arrays.
pub open spec fn spec_is_array_buffer_view_name(s: Seq<char>) -> bool {
    s == "ArrayBufferView"@ || s == "DataView"@ || s == "Int8Array"@ || s == "Uint8Array"@ || s
        == "Uint8ClampedArray"@ || s == "Int16Array"@ || s == "Uint16Array"@ || s == "Int32Array"@
        || s == "Uint32Array"@ || s == "Float16Array"@ || s == "Float32Array"@ || s
        == "Float64Array"@ || s == "BigInt64Array"@ || s == "BigUint64Array"@
}

fn is_array_buffer_view_name(s: &Vec<char>) -> (r: bool)
    ensures
        r == spec_is_array_buffer_view_name(s@),
{
    chars_are(s, "ArrayBufferView") || chars_are(s, "DataView") || chars_are(s, "Int8Array")
        || chars_are(s, "Uint8Array") || chars_are(s, "Uint8ClampedArray") || chars_are(
        s,
        "Int16Array",
    ) || chars_are(s, "Uint16Array") || chars_are(s, "Int32Array") || chars_are(s, "Uint32Array")
        || chars_are(s, "Float16Array") || chars_are(s, "Float32Array") || chars_are(
        s,
        "Float64Array",
    ) || chars_are(s, "BigInt64Array") || chars_are(s, "BigUint64Array")
}

/// A member named as an `ArrayBufferView`, by its base name with any type
/// arguments stripped (`ArrayBufferView<ArrayBuffer>`).
pub open spec fn spec_is_array_buffer_view_type(member: SpecType) -> bool {
    match spec_nominal_name(member) {
        Some(name) => spec_is_array_buffer_view_name(before_first(name, '<')),
        None => false,
    }
}

/// See [`spec_is_array_buffer_view_type`].
pub fn is_array_buffer_view_type(member: &Type) -> (r: bool)
    ensures
        r == spec_is_array_buffer_view_type(member@),
{
    match nominal_name(member) {
        Some(name) => {
            let base = chars_before_first(&name, '<');
            is_array_buffer_view_name(&base)
        },
        None => false,
    }
}

/// Whether a union member survives `ArrayBuffer.isView(x)` in a branch.
pub open spec fn spec_view_survives(member: SpecType, keep_views: bool) -> bool {
    spec_is_unclassifiable(member) || spec_is_array_buffer_view_type(member) == keep_views
}

/// [`spec_view_survives`] as a member test.
pub open spec fn view_test(keep_views: bool) -> spec_fn(SpecType) -> bool {
    |m: SpecType| spec_view_survives(m, keep_views)
}

/// Narrowing by `ArrayBuffer.isView(x)`: `keep_views` keeps the view members
/// (the true branch), otherwise removes them.
pub open spec fn spec_narrow_union_by_arraybufferview(ty: SpecType, keep_views: bool) -> Option<SpecType> {
    match ty {
        SpecType::Union(members) => spec_filter_union(members, view_test(keep_views)),
        _ => None,
    }
}

/// See [`spec_narrow_union_by_arraybufferview`].
pub fn narrow_union_by_arraybufferview(ty: &Type, keep_views: bool) -> (r: Option<Type>)
    ensures
        opt_view(r) == spec_narrow_union_by_arraybufferview(ty@, keep_views),
{
    let ms = match ty {
        Type::Union(ms) => ms,
        _ => return None,
    };
    let ghost pred = view_test(keep_views);
    let mut mask: Vec<bool> = Vec::new();
    let mut i: usize = 0;
    while i < ms.len()
        invariant
            0 <= i <= ms.len(),
            mask@.len() == i,
            pred == view_test(keep_views),
            forall|j: int| 0 <= j < i ==> mask@[j] == pred(#[trigger] view_type(ms@[j])),
        decreases ms.len() - i,
    {
        let m = &ms[i];
        let survives = is_unclassifiable(m) || is_array_buffer_view_type(m) == keep_views;
        mask.push(survives);
        i = i + 1;
    }
    filter_union(ms, &mask, Ghost(pred))
}

} // verus!
