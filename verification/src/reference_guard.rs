//! A guard applied to one reference (`o.p`, `this.a.b`, or a bare binding):
//! how it narrows the reference's leaf, a property's type together with its
//! `optional` flag.

use vstd::prelude::*;
use crate::guards::arrayness::{
    narrow_union_by_arraybufferview, narrow_union_by_arrayness, spec_narrow_union_by_arraybufferview,
    spec_narrow_union_by_arrayness,
};
use crate::guards::instanceof::{narrow_union_by_instanceof, spec_name_matches, spec_narrow_union_by_instanceof};
use crate::guards::literal_equality::{
    literal_expression_value, narrow_by_literal_equality, narrow_union_by_discriminant,
    spec_literal_expression_value, spec_narrow_by_literal_equality, spec_narrow_union_by_discriminant,
};
use crate::guards::nullish::{narrow_union_by_nullish, spec_narrow_union_by_nullish, NullishTest};
use crate::guards::property_presence::{narrow_union_by_property_presence, spec_narrow_union_by_property_presence};
use crate::guards::typeof_guard::{narrow_union_by_typeof, spec_narrow_union_by_typeof, spec_parse_typeof_tag};
use crate::syntax::Expr;
use crate::text::{chars_after_last, chars_are, chars_before_first, chars_eq, chars_of};
use crate::truthy::{keep_possibly_falsy, remove_definitely_falsy, spec_keep_possibly_falsy, spec_remove_definitely_falsy};
use crate::aliases::{reference_path, spec_reference_path, view_strings};
use crate::types::{
    copy_types, opt_types_view, singleton, spec_is_unknown, spec_members, copy_type, filter_members, filter_union, find_property, lemma_find_index,
    lemma_view_properties, lemma_view_types, nominal_name, opt_view, peeled, spec_filter_union,
    spec_find_property, spec_nominal_name, spec_peel, spec_union, type_eq, union_of, view_object,
    view_properties, view_property, view_type, view_types, SpecType, Type,
};

verus! {

/// A guard on one reference. Guards that decide by assignability (a type
/// predicate, an assignment) are not among them.
pub enum ReferenceGuard<'a> {
    /// The reference tested truthy.
    Truthy,
    Typeof { tag: &'a str, keep_matching: bool },
    PropertyPresence { property: String, keep_present: bool },
    Instanceof { ctor_name: &'a str, keep_matching: bool },
    Arrayness { keep_arrays: bool },
    ArrayBufferView { keep_views: bool },
    Nullish { keep_matching: bool, test: NullishTest },
    /// `o.p === "lit"` / `o.p !== 3` on the property itself.
    LiteralEquality { literal: &'a Expr, keep_matching: bool },
    /// The reference tested falsy: what is always truthy goes, anything that
    /// may be falsy stays.
    Falsy,
    /// `x.constructor === C` held: only what `C` itself constructs is left.
    ConstructedBy { ctor_name: &'a str },
    /// The union at the reference filtered by its `property` member.
    Discriminant { property: &'a str, literal: &'a Type, keep_matching: bool },
}

/// The mathematical value of a [`ReferenceGuard`].
pub enum SpecReferenceGuard {
    Truthy,
    Typeof { tag: Seq<char>, keep_matching: bool },
    PropertyPresence { property: Seq<char>, keep_present: bool },
    Instanceof { ctor_name: Seq<char>, keep_matching: bool },
    Arrayness { keep_arrays: bool },
    ArrayBufferView { keep_views: bool },
    Nullish { keep_matching: bool, test: NullishTest },
    LiteralEquality { literal: Expr, keep_matching: bool },
    Falsy,
    ConstructedBy { ctor_name: Seq<char> },
    Discriminant { property: Seq<char>, literal: SpecType, keep_matching: bool },
}

impl<'a> View for ReferenceGuard<'a> {
    type V = SpecReferenceGuard;

    open spec fn view(&self) -> SpecReferenceGuard {
        match *self {
            ReferenceGuard::Truthy => SpecReferenceGuard::Truthy,
            ReferenceGuard::Typeof { tag, keep_matching } => SpecReferenceGuard::Typeof { tag: tag@, keep_matching },
            ReferenceGuard::PropertyPresence { property, keep_present } => SpecReferenceGuard::PropertyPresence {
                property: property@,
                keep_present,
            },
            ReferenceGuard::Instanceof { ctor_name, keep_matching } => SpecReferenceGuard::Instanceof {
                ctor_name: ctor_name@,
                keep_matching,
            },
            ReferenceGuard::Arrayness { keep_arrays } => SpecReferenceGuard::Arrayness { keep_arrays },
            ReferenceGuard::ArrayBufferView { keep_views } => SpecReferenceGuard::ArrayBufferView { keep_views },
            ReferenceGuard::Nullish { keep_matching, test } => SpecReferenceGuard::Nullish { keep_matching, test },
            ReferenceGuard::LiteralEquality { literal, keep_matching } => SpecReferenceGuard::LiteralEquality {
                literal: *literal,
                keep_matching,
            },
            ReferenceGuard::Falsy => SpecReferenceGuard::Falsy,
            ReferenceGuard::ConstructedBy { ctor_name } => SpecReferenceGuard::ConstructedBy { ctor_name: ctor_name@ },
            ReferenceGuard::Discriminant { property, literal, keep_matching } => SpecReferenceGuard::Discriminant {
                property: property@,
                literal: literal@,
                keep_matching,
            },
        }
    }
}

/// Whether the guard holding proves the tested reference is not `undefined`
/// (and so, for `base?.p`, that `base` is not nullish either).
pub open spec fn spec_proves_defined(guard: SpecReferenceGuard) -> bool {
    match guard {
        SpecReferenceGuard::Truthy => true,
        SpecReferenceGuard::Typeof { tag, keep_matching } => (tag == "undefined"@) != keep_matching,
        SpecReferenceGuard::Nullish { keep_matching, test } => !keep_matching && test.undefined,
        _ => false,
    }
}

/// An optional property's `undefined` lives in its `optional` flag, not its
/// type; a guard sees it put back.
pub open spec fn spec_effective_leaf_type(ty: SpecType, optional: bool) -> SpecType {
    if optional {
        spec_union(seq![ty, SpecType::Undefined])
    } else {
        ty
    }
}

/// Whether a type is `undefined` or a union holding it.
pub open spec fn spec_includes_undefined_member(t: SpecType) -> bool {
    match t {
        SpecType::Undefined => true,
        SpecType::Union(ms) => ms.contains(SpecType::Undefined),
        _ => false,
    }
}

/// A member other than `undefined`.
pub open spec fn not_undefined_test() -> spec_fn(SpecType) -> bool {
    |m: SpecType| !(m is Undefined)
}

/// A union with its `undefined` members dropped; any other type as it is.
pub open spec fn spec_without_undefined(t: SpecType) -> SpecType {
    match t {
        SpecType::Union(ms) => spec_union(ms.filter(not_undefined_test())),
        _ => t,
    }
}

/// Whether `x.constructor === C` can hold of a value of type `member`: a
/// primitive by its wrapper's name, an array by `Array`, a named type by its
/// own name; nullish values never, undecidable members always.
pub open spec fn spec_constructed_by(member: SpecType, ctor_name: Seq<char>) -> bool {
    match member {
        SpecType::Any | SpecType::Unknown | SpecType::GenuineUnknown | SpecType::ErrorType
        | SpecType::TypeParameter(_) => true,
        SpecType::Number | SpecType::NumberLiteral(_) => ctor_name == "Number"@,
        SpecType::String | SpecType::StringLiteral(_) => ctor_name == "String"@,
        SpecType::Boolean | SpecType::BooleanLiteral(_) => ctor_name == "Boolean"@,
        SpecType::BigInt => ctor_name == "BigInt"@,
        SpecType::Symbol => ctor_name == "Symbol"@,
        SpecType::Array(_) | SpecType::Tuple(_) => ctor_name == "Array"@,
        SpecType::Undefined | SpecType::Null | SpecType::Void | SpecType::Never => false,
        SpecType::Function => ctor_name == "Function"@,
        _ => match spec_nominal_name(member) {
            Some(name) => spec_name_matches(name, ctor_name),
            None => false,
        },
    }
}

/// [`spec_constructed_by`] as a member test.
pub open spec fn constructed_by_test(ctor_name: Seq<char>) -> spec_fn(SpecType) -> bool {
    |m: SpecType| spec_constructed_by(m, ctor_name)
}

/// A union narrowed to the members `C` constructs; `None` when that keeps
/// all of them or none, or the type is no union.
pub open spec fn spec_narrow_union_by_constructor(ty: SpecType, ctor_name: Seq<char>) -> Option<SpecType> {
    match spec_peel(ty) {
        SpecType::Union(ms) => spec_filter_union(ms, constructed_by_test(ctor_name)),
        _ => None,
    }
}

/// A leaf narrowed by a guard whose narrowing clears the `optional` flag:
/// recorded when the slot was optional or its type changed.
pub open spec fn spec_cleared_leaf(narrowed: Option<SpecType>, ty: SpecType, optional: bool) -> Option<(SpecType, bool)> {
    match narrowed {
        Some(n) => if optional || n != ty {
            Some((n, false))
        } else {
            None
        },
        None => None,
    }
}

/// A literal test's leaf: the slot stays optional only where `undefined`
/// survives, which then leaves the type (`never` when nothing else is left).
pub open spec fn spec_literal_leaf(narrowed: SpecType, ty: SpecType, optional: bool) -> Option<(SpecType, bool)> {
    let still_optional = optional && spec_includes_undefined_member(narrowed);
    let result = if narrowed is Undefined && still_optional {
        SpecType::Never
    } else if still_optional {
        spec_without_undefined(narrowed)
    } else {
        narrowed
    };
    if result != ty || still_optional != optional {
        Some((result, still_optional))
    } else {
        None
    }
}

/// Narrows one leaf (a property's type and `optional` flag, or a binding's
/// type with `optional` false): `None` leaves the leaf alone.
pub open spec fn spec_narrow_leaf(guard: SpecReferenceGuard, ty: SpecType, optional: bool) -> Option<(SpecType, bool)> {
    let effective = spec_effective_leaf_type(ty, optional);
    match guard {
        SpecReferenceGuard::ConstructedBy { ctor_name } => match spec_narrow_union_by_constructor(ty, ctor_name) {
            Some(n) => if n != ty {
                Some((n, optional))
            } else {
                None
            },
            None => None,
        },
        SpecReferenceGuard::Falsy => {
            let n = spec_keep_possibly_falsy(effective);
            if n != effective {
                Some((n, false))
            } else {
                None
            }
        },
        SpecReferenceGuard::Truthy => spec_cleared_leaf(Some(spec_remove_definitely_falsy(ty)), ty, optional),
        SpecReferenceGuard::Typeof { tag, keep_matching } => spec_cleared_leaf(
            spec_narrow_union_by_typeof(effective, spec_parse_typeof_tag(tag), keep_matching),
            ty,
            optional,
        ),
        SpecReferenceGuard::PropertyPresence { property, keep_present } => spec_cleared_leaf(
            spec_narrow_union_by_property_presence(effective, property, keep_present),
            ty,
            optional,
        ),
        SpecReferenceGuard::Instanceof { ctor_name, keep_matching } => spec_cleared_leaf(
            spec_narrow_union_by_instanceof(effective, ctor_name, keep_matching),
            ty,
            optional,
        ),
        SpecReferenceGuard::Arrayness { keep_arrays } => spec_cleared_leaf(
            spec_narrow_union_by_arrayness(effective, keep_arrays),
            ty,
            optional,
        ),
        SpecReferenceGuard::ArrayBufferView { keep_views } => spec_cleared_leaf(
            spec_narrow_union_by_arraybufferview(effective, keep_views),
            ty,
            optional,
        ),
        SpecReferenceGuard::Nullish { keep_matching, test } => spec_cleared_leaf(
            spec_narrow_union_by_nullish(effective, keep_matching, test),
            ty,
            optional,
        ),
        SpecReferenceGuard::Discriminant { property, literal, keep_matching } => spec_cleared_leaf(
            spec_narrow_union_by_discriminant(effective, property, literal, keep_matching),
            ty,
            optional,
        ),
        SpecReferenceGuard::LiteralEquality { literal, keep_matching } => match spec_literal_expression_value(literal) {
            Some(l) => match spec_narrow_by_literal_equality(effective, l, keep_matching) {
                Some(n) => spec_literal_leaf(n, ty, optional),
                None => None,
            },
            None => None,
        },
    }
}

/// The option view of a narrowed leaf.
pub open spec fn opt_leaf_view(o: Option<(Type, bool)>) -> Option<(SpecType, bool)> {
    match o {
        Some((t, b)) => Some((t@, b)),
        None => None,
    }
}

/// See [`spec_effective_leaf_type`].
pub fn effective_leaf_type(ty: &Type, optional: bool) -> (r: Type)
    ensures
        r@ == spec_effective_leaf_type(ty@, optional),
{
    if optional {
        let mut members: Vec<Type> = Vec::new();
        members.push(copy_type(ty));
        members.push(Type::Undefined);
        proof {
            lemma_view_types(members@);
            assert(view_types(members@) =~= seq![ty@, SpecType::Undefined]);
        }
        union_of(members)
    } else {
        copy_type(ty)
    }
}

/// See [`spec_includes_undefined_member`].
pub fn type_includes_undefined_member(t: &Type) -> (r: bool)
    ensures
        r == spec_includes_undefined_member(t@),
{
    match t {
        Type::Undefined => true,
        Type::Union(ms) => {
            proof {
                lemma_view_types(ms@);
            }
            let mut i: usize = 0;
            while i < ms.len()
                invariant
                    0 <= i <= ms.len(),
                    t@ == SpecType::Union(view_types(ms@)),
                    view_types(ms@).len() == ms.len(),
                    forall|j: int| 0 <= j < ms.len() ==> #[trigger] view_types(ms@)[j] == view_type(ms@[j]),
                    forall|j: int| 0 <= j < i ==> view_types(ms@)[j] != SpecType::Undefined,
                decreases ms.len() - i,
            {
                if matches!(ms[i], Type::Undefined) {
                    assert(view_types(ms@)[i as int] == SpecType::Undefined);
                    return true;
                }
                assert(view_types(ms@)[i as int] == view_type(ms@[i as int]));
                i = i + 1;
            }
            false
        },
        _ => false,
    }
}

fn without_undefined(t: &Type) -> (r: Type)
    ensures
        r@ == spec_without_undefined(t@),
{
    match t {
        Type::Union(ms) => {
            let ghost pred = not_undefined_test();
            let mut mask: Vec<bool> = Vec::new();
            let mut i: usize = 0;
            while i < ms.len()
                invariant
                    0 <= i <= ms.len(),
                    mask@.len() == i,
                    pred == not_undefined_test(),
                    forall|j: int| 0 <= j < i ==> mask@[j] == pred(#[trigger] view_type(ms@[j])),
                decreases ms.len() - i,
            {
                mask.push(!matches!(ms[i], Type::Undefined));
                i = i + 1;
            }
            union_of(filter_members(ms, &mask, Ghost(pred)))
        },
        _ => copy_type(t),
    }
}

fn constructed_by(member: &Type, ctor_name: &str) -> (r: bool)
    ensures
        r == spec_constructed_by(member@, ctor_name@),
{
    let ctor = chars_of(ctor_name);
    match member {
        Type::Any | Type::Unknown | Type::GenuineUnknown | Type::ErrorType | Type::TypeParameter(_) => true,
        Type::Number | Type::NumberLiteral(_) => chars_are(&ctor, "Number"),
        Type::String | Type::StringLiteral(_) => chars_are(&ctor, "String"),
        Type::Boolean | Type::BooleanLiteral(_) => chars_are(&ctor, "Boolean"),
        Type::BigInt => chars_are(&ctor, "BigInt"),
        Type::Symbol => chars_are(&ctor, "Symbol"),
        Type::Array(_) | Type::Tuple(_) => chars_are(&ctor, "Array"),
        Type::Undefined | Type::Null | Type::Void | Type::Never => false,
        Type::Function => chars_are(&ctor, "Function"),
        _ => match nominal_name(member) {
            Some(name) => {
                let base = chars_before_first(&name, '<');
                let own = chars_after_last(&base, '.');
                chars_eq(&base, &ctor) || chars_eq(&own, &ctor)
            },
            None => false,
        },
    }
}

/// See [`spec_narrow_union_by_constructor`].
pub fn narrow_union_by_constructor(ty: &Type, ctor_name: &str) -> (r: Option<Type>)
    ensures
        opt_view(r) == spec_narrow_union_by_constructor(ty@, ctor_name@),
{
    let p = peeled(ty);
    let ms = match p {
        Type::Union(ms) => ms,
        _ => return None,
    };
    let ghost pred = constructed_by_test(ctor_name@);
    let mut mask: Vec<bool> = Vec::new();
    let mut i: usize = 0;
    while i < ms.len()
        invariant
            0 <= i <= ms.len(),
            mask@.len() == i,
            pred == constructed_by_test(ctor_name@),
            forall|j: int| 0 <= j < i ==> mask@[j] == pred(#[trigger] view_type(ms@[j])),
        decreases ms.len() - i,
    {
        mask.push(constructed_by(&ms[i], ctor_name));
        i = i + 1;
    }
    filter_union(ms, &mask, Ghost(pred))
}

fn cleared_leaf(narrowed: Option<Type>, ty: &Type, optional: bool) -> (r: Option<(Type, bool)>)
    ensures
        opt_leaf_view(r) == spec_cleared_leaf(opt_view(narrowed), ty@, optional),
{
    match narrowed {
        Some(n) => if optional || !type_eq(&n, ty) {
            Some((n, false))
        } else {
            None
        },
        None => None,
    }
}

/// The declared type at the end of `path` read from index `k` on, with an
/// optional slot's `undefined` put back at the leaf; `None` when a link is
/// missing or is not an object, or no segment is left.
pub open spec fn spec_property_path_leaf_type(ty: SpecType, path: Seq<Seq<char>>, k: int) -> Option<SpecType>
    decreases path.len() - k,
{
    if k < 0 || k >= path.len() {
        None
    } else {
        match spec_peel(ty) {
            SpecType::Object(o) => match spec_find_property(o.properties, path[k]) {
                Some(property) => if k + 1 == path.len() {
                    Some(spec_effective_leaf_type(property.ty, property.optional))
                } else {
                    spec_property_path_leaf_type(property.ty, path, k + 1)
                },
                None => None,
            },
            _ => None,
        }
    }
}

fn leaf_type_from(ty: &Type, path: &Vec<String>, k: usize) -> (r: Option<Type>)
    ensures
        opt_view(r) == spec_property_path_leaf_type(ty@, view_strings(path@), k as int),
    decreases path.len() - k,
{
    if k >= path.len() {
        return None;
    }
    let p = peeled(ty);
    let o = match p {
        Type::Object(o) => o,
        _ => return None,
    };
    proof {
        lemma_view_properties(o.properties@);
        assert(p@ == SpecType::Object(view_object(*o)));
        assert(view_strings(path@)[k as int] == path@[k as int]@);
    }
    let i = match find_property(&o.properties, path[k].as_str()) {
        Some(i) => i,
        None => return None,
    };
    proof {
        lemma_find_index(view_properties(o.properties@), path@[k as int]@);
        assert(view_properties(o.properties@)[i as int] == view_property(o.properties@[i as int]));
    }
    let property = &o.properties[i];
    if k + 1 == path.len() {
        Some(effective_leaf_type(&property.ty, property.optional))
    } else {
        leaf_type_from(&property.ty, path, k + 1)
    }
}

/// The declared type at the end of `path` (see
/// [`spec_property_path_leaf_type`]).
pub fn property_path_leaf_type(ty: &Type, path: &Vec<String>) -> (r: Option<Type>)
    ensures
        opt_view(r) == spec_property_path_leaf_type(ty@, view_strings(path@), 0),
{
    leaf_type_from(ty, path, 0)
}

/// The declared type `path`'s first `k` segments reach from a root's
/// declared type, every link a plain property of an object; an optional
/// property's type with `undefined` put back.
pub open spec fn spec_declared_path_type(declared: SpecType, path: Seq<Seq<char>>, k: int) -> Option<SpecType>
    decreases k,
{
    if k <= 0 {
        Some(declared)
    } else {
        match spec_declared_path_type(declared, path, k - 1) {
            Some(current) => match spec_peel(current) {
                SpecType::Object(o) => match spec_find_property(o.properties, path[k - 1]) {
                    Some(property) => Some(spec_effective_leaf_type(property.ty, property.optional)),
                    None => None,
                },
                _ => None,
            },
            None => None,
        }
    }
}

proof fn lemma_declared_path_none(declared: SpecType, path: Seq<Seq<char>>, k: int, n: int)
    requires
        0 <= k <= n,
        spec_declared_path_type(declared, path, k) is None,
    ensures
        spec_declared_path_type(declared, path, n) is None,
    decreases n - k,
{
    if n > k {
        lemma_declared_path_none(declared, path, k, n - 1);
    }
}

/// See [`spec_declared_path_type`], over the whole path.
pub fn declared_path_type(declared: &Type, path: &Vec<String>) -> (r: Option<Type>)
    ensures
        opt_view(r) == spec_declared_path_type(declared@, view_strings(path@), path@.len() as int),
{
    let ghost vp = view_strings(path@);
    let mut current = copy_type(declared);
    let mut k: usize = 0;
    while k < path.len()
        invariant
            0 <= k <= path.len(),
            vp == view_strings(path@),
            spec_declared_path_type(declared@, vp, k as int) == Some(current@),
        decreases path.len() - k,
    {
        let next = {
            let p = peeled(&current);
            match p {
                Type::Object(o) => {
                    proof {
                        lemma_view_properties(o.properties@);
                        assert(p@ == SpecType::Object(view_object(*o)));
                        assert(vp[k as int] == path@[k as int]@);
                    }
                    match find_property(&o.properties, path[k].as_str()) {
                        Some(i) => {
                            proof {
                                lemma_find_index(view_properties(o.properties@), path@[k as int]@);
                                assert(view_properties(o.properties@)[i as int] == view_property(o.properties@[i as int]));
                            }
                            Some(effective_leaf_type(&o.properties[i].ty, o.properties[i].optional))
                        },
                        None => None,
                    }
                },
                _ => None,
            }
        };
        match next {
            Some(t) => {
                current = t;
            },
            None => {
                proof {
                    lemma_declared_path_none(declared@, vp, k + 1, path@.len() as int);
                }
                return None;
            },
        }
        k = k + 1;
    }
    Some(current)
}

impl<'a> ReferenceGuard<'a> {
    /// See [`spec_proves_defined`].
    pub fn proves_defined(&self) -> (r: bool)
        ensures
            r == spec_proves_defined(self@),
    {
        match self {
            ReferenceGuard::Truthy => true,
            ReferenceGuard::Typeof { tag, keep_matching } => {
                let t = chars_of(tag);
                chars_are(&t, "undefined") != *keep_matching
            },
            ReferenceGuard::Nullish { keep_matching, test } => !*keep_matching && test.undefined,
            _ => false,
        }
    }

    /// See [`spec_narrow_leaf`].
    pub fn narrow_leaf(&self, ty: &Type, optional: bool) -> (r: Option<(Type, bool)>)
        ensures
            opt_leaf_view(r) == spec_narrow_leaf(self@, ty@, optional),
    {
        let effective = effective_leaf_type(ty, optional);
        match self {
            ReferenceGuard::ConstructedBy { ctor_name } => match narrow_union_by_constructor(ty, ctor_name) {
                Some(n) => if !type_eq(&n, ty) {
                    Some((n, optional))
                } else {
                    None
                },
                None => None,
            },
            ReferenceGuard::Falsy => {
                let n = keep_possibly_falsy(&effective);
                if !type_eq(&n, &effective) {
                    Some((n, false))
                } else {
                    None
                }
            },
            ReferenceGuard::Truthy => cleared_leaf(Some(remove_definitely_falsy(ty)), ty, optional),
            ReferenceGuard::Typeof { tag, keep_matching } => cleared_leaf(
                narrow_union_by_typeof(&effective, tag, *keep_matching),
                ty,
                optional,
            ),
            ReferenceGuard::PropertyPresence { property, keep_present } => cleared_leaf(
                narrow_union_by_property_presence(&effective, property.as_str(), *keep_present),
                ty,
                optional,
            ),
            ReferenceGuard::Instanceof { ctor_name, keep_matching } => cleared_leaf(
                narrow_union_by_instanceof(&effective, ctor_name, *keep_matching),
                ty,
                optional,
            ),
            ReferenceGuard::Arrayness { keep_arrays } => cleared_leaf(
                narrow_union_by_arrayness(&effective, *keep_arrays),
                ty,
                optional,
            ),
            ReferenceGuard::ArrayBufferView { keep_views } => cleared_leaf(
                narrow_union_by_arraybufferview(&effective, *keep_views),
                ty,
                optional,
            ),
            ReferenceGuard::Nullish { keep_matching, test } => cleared_leaf(
                narrow_union_by_nullish(&effective, *keep_matching, *test),
                ty,
                optional,
            ),
            ReferenceGuard::Discriminant { property, literal, keep_matching } => cleared_leaf(
                narrow_union_by_discriminant(&effective, property, literal, *keep_matching),
                ty,
                optional,
            ),
            ReferenceGuard::LiteralEquality { literal, keep_matching } => {
                let l = match literal_expression_value(literal) {
                    Some(l) => l,
                    None => return None,
                };
                let n = match narrow_by_literal_equality(&effective, &l, *keep_matching) {
                    Some(n) => n,
                    None => return None,
                };
                let still_optional = optional && type_includes_undefined_member(&n);
                let result = if matches!(n, Type::Undefined) && still_optional {
                    Type::Never
                } else if still_optional {
                    without_undefined(&n)
                } else {
                    n
                };
                if !type_eq(&result, ty) || still_optional != optional {
                    Some((result, still_optional))
                } else {
                    None
                }
            },
        }
    }
}


/// Whether a nullish test selects a value of type `t`: `void` reads as
/// `undefined`.
pub open spec fn spec_nullish_selects(test: NullishTest, t: SpecType) -> bool {
    match t {
        SpecType::Null => test.null,
        SpecType::Undefined => test.undefined,
        SpecType::Void => test.undefined,
        _ => false,
    }
}

/// A leaf member no nullish test can select: not `null`, `undefined` or
/// `void` the test selects, not unmodelled, not `any`, `never` or a named type.
pub open spec fn spec_definitely_unselected(test: NullishTest, t: SpecType) -> bool {
    !spec_nullish_selects(test, t) && !spec_is_unknown(t) && !(t is Any || t is Never
        || t is Reference)
}

/// The members of the declared type at the end of `path`, read through named
/// references; `None` when the path does not reach a leaf.
pub open spec fn spec_leaf_members(ty: SpecType, path: Seq<Seq<char>>) -> Option<Seq<SpecType>> {
    match spec_property_path_leaf_type(ty, path, 0) {
        Some(leaf) => Some(spec_members(spec_peel(leaf))),
        None => None,
    }
}

/// Whether the test selects one of `leaf`.
pub open spec fn spec_some_selected(leaf: Seq<SpecType>, test: NullishTest) -> bool {
    exists|k: int| 0 <= k < leaf.len() && #[trigger] spec_nullish_selects(test, leaf[k])
}

/// Whether the test can select none of `leaf`.
pub open spec fn spec_all_unselected(leaf: Seq<SpecType>, test: NullishTest) -> bool {
    forall|k: int| 0 <= k < leaf.len() ==> #[trigger] spec_definitely_unselected(test, leaf[k])
}

/// Whether some leaf member of `ty` at `path` is one the test selects.
pub open spec fn spec_leaf_selected(ty: SpecType, path: Seq<Seq<char>>, test: NullishTest) -> bool {
    match spec_leaf_members(ty, path) {
        Some(leaf) => spec_some_selected(leaf, test),
        None => false,
    }
}

/// Whether a member of `members` other than member `i` has a leaf the test
/// selects.
pub open spec fn spec_other_selected(i: int, members: Seq<SpecType>, path: Seq<Seq<char>>, test: NullishTest) -> bool {
    exists|j: int| 0 <= j < members.len() && j != i && #[trigger] spec_leaf_selected(members[j], path, test)
}

/// tsc's `narrowTypeByDiscriminant` for a nullish equality that held
/// (`x.p === null`): member `i` of the union is ruled out when no leaf member
/// of its `p` can be selected while another member's `p` can.
pub open spec fn spec_nullish_discriminant_rules_out(
    i: int,
    members: Seq<SpecType>,
    path: Seq<Seq<char>>,
    guard: SpecReferenceGuard,
) -> bool {
    match guard {
        SpecReferenceGuard::Nullish { keep_matching, test } => keep_matching && match spec_leaf_members(
            members[i],
            path,
        ) {
            Some(leaf) => spec_all_unselected(leaf, test) && spec_other_selected(i, members, path, test),
            None => false,
        },
        _ => false,
    }
}

fn nullish_selects(test: NullishTest, t: &Type) -> (r: bool)
    ensures
        r == spec_nullish_selects(test, t@),
{
    match t {
        Type::Null => test.null,
        Type::Undefined => test.undefined,
        Type::Void => test.undefined,
        _ => false,
    }
}

fn definitely_unselected(test: NullishTest, t: &Type) -> (r: bool)
    ensures
        r == spec_definitely_unselected(test, t@),
{
    if nullish_selects(test, t) {
        return false;
    }
    match t {
        Type::Unknown | Type::GenuineUnknown | Type::ErrorType => false,
        Type::Any | Type::Never | Type::Reference(_) => false,
        _ => true,
    }
}

fn leaf_members(ty: &Type, path: &Vec<String>) -> (r: Option<Vec<Type>>)
    ensures
        opt_types_view(r) == spec_leaf_members(ty@, view_strings(path@)),
{
    match property_path_leaf_type(ty, path) {
        Some(leaf) => {
            let p = peeled(&leaf);
            match p {
                Type::Union(ms) => Some(copy_types(ms)),
                _ => Some(singleton(copy_type(p))),
            }
        },
        None => None,
    }
}

fn leaf_selected(ty: &Type, path: &Vec<String>, test: NullishTest) -> (r: bool)
    ensures
        r == spec_leaf_selected(ty@, view_strings(path@), test),
{
    let leaf = match leaf_members(ty, path) {
        Some(l) => l,
        None => return false,
    };
    let ghost l = view_types(leaf@);
    proof {
        lemma_view_types(leaf@);
        assert(spec_leaf_members(ty@, view_strings(path@)) == Some(l));
    }
    let mut k: usize = 0;
    while k < leaf.len()
        invariant
            0 <= k <= leaf.len(),
            l == view_types(leaf@),
            spec_leaf_members(ty@, view_strings(path@)) == Some(l),
            view_types(leaf@).len() == leaf.len(),
            forall|x: int| 0 <= x < leaf.len() ==> #[trigger] view_types(leaf@)[x] == view_type(leaf@[x]),
            forall|x: int| 0 <= x < k ==> !spec_nullish_selects(test, #[trigger] view_types(leaf@)[x]),
        decreases leaf.len() - k,
    {
        if nullish_selects(test, &leaf[k]) {
            assert(spec_nullish_selects(test, l[k as int]));
            assert(spec_some_selected(l, test));
            return true;
        }
        k = k + 1;
    }
    false
}

/// See [`spec_nullish_discriminant_rules_out`]: `member` indexes `members`.
pub fn nullish_discriminant_rules_out(
    member: usize,
    members: &Vec<Type>,
    path: &Vec<String>,
    guard: &ReferenceGuard,
) -> (r: bool)
    requires
        member < members.len(),
    ensures
        r == spec_nullish_discriminant_rules_out(member as int, view_types(members@), view_strings(path@), guard@),
{
    let test = match guard {
        ReferenceGuard::Nullish { keep_matching, test } => {
            if !*keep_matching {
                return false;
            }
            *test
        },
        _ => return false,
    };
    assert(guard@ == (SpecReferenceGuard::Nullish { keep_matching: true, test }));
    let ghost vs = view_types(members@);
    proof {
        lemma_view_types(members@);
    }
    let leaf = match leaf_members(&members[member], path) {
        Some(l) => l,
        None => return false,
    };
    let ghost l = view_types(leaf@);
    proof {
        lemma_view_types(leaf@);
        assert(vs[member as int] == view_type(members@[member as int]));
        assert(spec_leaf_members(vs[member as int], view_strings(path@)) == Some(l));
    }
    let mut k: usize = 0;
    while k < leaf.len()
        invariant
            0 <= k <= leaf.len(),
            l == view_types(leaf@),
            member < members.len(),
            vs == view_types(members@),
            vs.len() == members.len(),
            spec_leaf_members(vs[member as int], view_strings(path@)) == Some(l),
            guard@ == (SpecReferenceGuard::Nullish { keep_matching: true, test }),
            view_types(leaf@).len() == leaf.len(),
            forall|x: int| 0 <= x < leaf.len() ==> #[trigger] view_types(leaf@)[x] == view_type(leaf@[x]),
            forall|x: int| 0 <= x < k ==> spec_definitely_unselected(test, #[trigger] view_types(leaf@)[x]),
        decreases leaf.len() - k,
    {
        if !definitely_unselected(test, &leaf[k]) {
            assert(!spec_definitely_unselected(test, l[k as int]));
            assert(!spec_all_unselected(l, test));
            return false;
        }
        k = k + 1;
    }
    let mut j: usize = 0;
    while j < members.len()
        invariant
            0 <= j <= members.len(),
            member < members.len(),
            l == view_types(leaf@),
            l.len() == leaf.len(),
            forall|x: int| 0 <= x < l.len() ==> #[trigger] spec_definitely_unselected(test, l[x]),
            spec_leaf_members(vs[member as int], view_strings(path@)) == Some(l),
            guard@ == (SpecReferenceGuard::Nullish { keep_matching: true, test }),
            vs == view_types(members@),
            vs.len() == members.len(),
            forall|x: int| 0 <= x < members.len() ==> #[trigger] vs[x] == view_type(members@[x]),
            forall|x: int|
                0 <= x < j && x != member ==> !#[trigger] spec_leaf_selected(vs[x], view_strings(path@), test),
        decreases members.len() - j,
    {
        if j != member && leaf_selected(&members[j], path, test) {
            assert(spec_leaf_selected(vs[j as int], view_strings(path@), test));
            assert(spec_all_unselected(l, test));
            assert(spec_other_selected(member as int, vs, view_strings(path@), test));
            return true;
        }
        j = j + 1;
    }
    false
}


/// `constructor`, as a property name.
pub open spec fn constructor_key() -> Seq<char> {
    seq!['c', 'o', 'n', 's', 't', 'r', 'u', 'c', 't', 'o', 'r']
}

/// An index that reads the `constructor` member: the string `"constructor"`.
pub open spec fn spec_is_constructor_key(index: Expr) -> bool {
    index matches Expr::StringLiteral(key) && key@ == constructor_key()
}

/// The reference whose constructor an expression reads: `x.constructor`,
/// `x["constructor"]` (on a reference), or `name["constructor"]`.
pub open spec fn spec_constructor_of(e: Expr) -> Option<(Seq<char>, Seq<Seq<char>>)> {
    match e {
        Expr::PropertyAccess { object, property_name } => if property_name@ == constructor_key() {
            spec_reference_path(*object)
        } else {
            None
        },
        Expr::ElementAccess { object, index } => if spec_is_constructor_key(*index) {
            spec_reference_path(*object)
        } else {
            None
        },
        Expr::IndexAccess { object_name, index } => if spec_is_constructor_key(*index) {
            Some((object_name@, Seq::empty()))
        } else {
            None
        },
        _ => None,
    }
}

/// The name a compared constructor is written as: a bare name, or a member
/// of one other than `constructor` (`ns.C`).
pub open spec fn spec_constructor_name(e: Expr) -> Option<Seq<char>> {
    match e {
        Expr::Identifier(name) => Some(name@),
        Expr::PropertyAccess { object, property_name } => if (*object is Identifier) && property_name@
            != constructor_key() {
            Some(property_name@)
        } else {
            None
        },
        _ => None,
    }
}

/// tsc's `narrowTypeByConstructor` read of `x.constructor == C` (or
/// `x["constructor"]`), written either way round: the reference whose
/// constructor is compared, the constructor's name, and whether the operator
/// is an equality.
pub open spec fn spec_parse_constructor_equality(condition: Expr) -> Option<((Seq<char>, Seq<Seq<char>>), Seq<char>, bool)> {
    match condition {
        Expr::Binary { left, operator, right } => match crate::syntax::spec_equality_polarity(operator) {
            Some(eq) => match (spec_constructor_of(*left), spec_constructor_name(*right)) {
                (Some(reference), Some(name)) => Some((reference, name, eq)),
                _ => match (spec_constructor_of(*right), spec_constructor_name(*left)) {
                    (Some(reference), Some(name)) => Some((reference, name, eq)),
                    _ => None,
                },
            },
            None => None,
        },
        _ => None,
    }
}

fn is_constructor_key(index: &Expr) -> (r: bool)
    ensures
        r == spec_is_constructor_key(*index),
{
    proof {
        reveal_strlit("constructor");
        assert("constructor"@ =~= constructor_key());
    }
    match index {
        Expr::StringLiteral(key) => chars_are(&chars_of(key.as_str()), "constructor"),
        _ => false,
    }
}

fn constructor_of(e: &Expr) -> (r: Option<(String, Vec<String>)>)
    ensures
        match r {
            Some((base, path)) => spec_constructor_of(*e) == Some((base@, view_strings(path@))),
            None => spec_constructor_of(*e) is None,
        },
{
    proof {
        reveal_strlit("constructor");
        assert("constructor"@ =~= constructor_key());
    }
    match e {
        Expr::PropertyAccess { object, property_name } => {
            if chars_are(&chars_of(property_name.as_str()), "constructor") {
                reference_path(object)
            } else {
                None
            }
        },
        Expr::ElementAccess { object, index } => {
            if is_constructor_key(index) {
                reference_path(object)
            } else {
                None
            }
        },
        Expr::IndexAccess { object_name, index } => {
            if is_constructor_key(index) {
                let empty: Vec<String> = Vec::new();
                assert(view_strings(empty@) =~= Seq::<Seq<char>>::empty());
                Some((object_name.clone(), empty))
            } else {
                None
            }
        },
        _ => None,
    }
}

fn constructor_name(e: &Expr) -> (r: Option<&str>)
    ensures
        match r {
            Some(n) => spec_constructor_name(*e) == Some(n@),
            None => spec_constructor_name(*e) is None,
        },
{
    proof {
        reveal_strlit("constructor");
        assert("constructor"@ =~= constructor_key());
    }
    match e {
        Expr::Identifier(name) => Some(name.as_str()),
        Expr::PropertyAccess { object, property_name } => {
            let on_name = match &**object {
                Expr::Identifier(_) => true,
                _ => false,
            };
            if on_name && !chars_are(&chars_of(property_name.as_str()), "constructor") {
                Some(property_name.as_str())
            } else {
                None
            }
        },
        _ => None,
    }
}

/// See [`spec_parse_constructor_equality`].
pub fn parse_constructor_equality(condition: &Expr) -> (r: Option<((String, Vec<String>), &str, bool)>)
    ensures
        match r {
            Some(((base, path), name, eq)) => spec_parse_constructor_equality(*condition) == Some(
                ((base@, view_strings(path@)), name@, eq),
            ),
            None => spec_parse_constructor_equality(*condition) is None,
        },
{
    match condition {
        Expr::Binary { left, operator, right } => {
            let eq = match crate::syntax::equality_polarity(*operator) {
                Some(eq) => eq,
                None => return None,
            };
            if let Some(reference) = constructor_of(left) {
                if let Some(name) = constructor_name(right) {
                    return Some((reference, name, eq));
                }
            }
            match (constructor_of(right), constructor_name(left)) {
                (Some(reference), Some(name)) => Some((reference, name, eq)),
                _ => None,
            }
        },
        _ => None,
    }
}

/// The type of an operand a guard compares with, as far as the table alone
/// answers it: a binding's type, or a literal's.
pub open spec fn spec_compared_operand_type(table: crate::symbols::SymbolTable, e: Expr) -> Option<SpecType> {
    match e {
        Expr::Identifier(name) => match crate::symbols::spec_get(table, name@) {
            Some(symbol) => Some(symbol.ty),
            None => None,
        },
        _ => spec_literal_expression_value(e),
    }
}

/// See [`spec_compared_operand_type`].
pub fn compared_operand_type(symbols: &crate::symbols::SymbolTable, expression: &Expr) -> (r: Option<Type>)
    ensures
        opt_view(r) == spec_compared_operand_type(*symbols, *expression),
{
    match expression {
        Expr::Identifier(name) => match symbols.get(name.as_str()) {
            Some(symbol) => Some(copy_type(&symbol.ty)),
            None => None,
        },
        _ => literal_expression_value(expression),
    }
}


/// The type of a compared operand that is itself a reference (`y`, `o.p`):
/// what the table binds its root to, read down its property path (see
/// [`spec_property_path_leaf_type`]).
pub open spec fn spec_reference_operand_type(table: crate::symbols::SymbolTable, e: Expr) -> Option<SpecType> {
    match crate::aliases::spec_reference_path(e) {
        Some((base, path)) => match crate::symbols::spec_get(table, base) {
            Some(symbol) => if path.len() == 0 {
                Some(symbol.ty)
            } else {
                spec_property_path_leaf_type(symbol.ty, path, 0)
            },
            None => None,
        },
        None => None,
    }
}

/// See [`spec_reference_operand_type`].
pub fn reference_operand_type(expression: &Expr, symbols: &crate::symbols::SymbolTable) -> (r: Option<Type>)
    ensures
        opt_view(r) == spec_reference_operand_type(*symbols, *expression),
{
    let (base, path) = match crate::aliases::reference_path(expression) {
        Some(p) => p,
        None => return None,
    };
    let symbol = match symbols.get(base.as_str()) {
        Some(s) => s,
        None => return None,
    };
    if path.len() == 0 {
        assert(view_strings(path@).len() == 0);
        Some(copy_type(&symbol.ty))
    } else {
        property_path_leaf_type(&symbol.ty, &path)
    }
}

} // verus!
