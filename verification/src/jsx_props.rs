//! What a JSX element's props types are read for: whether the checker could
//! model them, which of their properties discriminate, and whether a
//! children type holds array-like members.

use vstd::prelude::*;
use crate::syntax::Expr;
use crate::text::chars_are;
use crate::types::{
    copy_type, opt_types_view, opt_view, spec_find_property, find_property, lemma_find_index, lemma_peel_height, lemma_seq_height,
    lemma_view_properties, lemma_view_types, peeled, seq_height, spec_find_index, spec_peel,
    spec_union, type_eq, type_height, union_of, view_object, view_properties, view_property, view_type, view_types,
    ObjectProperty, SpecObject, SpecProperty, SpecType, Type,
};

verus! {

/// Props the checker could not model: its degradation sentinel, or a bare
/// type parameter nothing instantiated. The `unknown` keyword and the error
/// type are props of their own.
pub open spec fn spec_is_unmodelled_props(props: SpecType) -> bool {
    spec_peel(props) is Unknown || spec_peel(props) is TypeParameter
}

/// See [`spec_is_unmodelled_props`].
pub fn is_unmodelled_props(props: &Type) -> (r: bool)
    ensures
        r == spec_is_unmodelled_props(props@),
{
    matches!(peeled(props), Type::Unknown | Type::TypeParameter(_))
}

/// Whether a component that yields no props type is a modelling gap rather
/// than the source's: only the sentinel and a bare type parameter qualify.
pub fn component_is_unmodelled(component_type: &Type) -> (r: bool)
    ensures
        r == spec_is_unmodelled_props(component_type@),
{
    matches!(peeled(component_type), Type::Unknown | Type::TypeParameter(_))
}

/// A JSX namespace member resolved without its members: an object an
/// unmodelled operand left open, or unmodelled props.
pub open spec fn spec_is_unmodelled_member(member: SpecType) -> bool {
    match spec_peel(member) {
        SpecType::Object(o) => o.synthetic_open_index,
        other => spec_is_unmodelled_props(other),
    }
}

/// See [`spec_is_unmodelled_member`].
pub fn is_unmodelled_member(member: &Type) -> (r: bool)
    ensures
        r == spec_is_unmodelled_member(member@),
{
    let p = peeled(member);
    match p {
        Type::Object(o) => {
            assert(p@ == SpecType::Object(view_object(*o)));
            o.synthetic_open_index
        },
        other => is_unmodelled_props(other),
    }
}

/// A unit type: a literal, `undefined` or `null`.
pub open spec fn spec_is_unit(t: SpecType) -> bool {
    t is StringLiteral || t is NumberLiteral || t is BooleanLiteral || t is Undefined || t is Null
}

fn is_unit(t: &Type) -> (r: bool)
    ensures
        r == spec_is_unit(t@),
{
    matches!(t, Type::StringLiteral(_) | Type::NumberLiteral(_) | Type::BooleanLiteral(_) | Type::Undefined | Type::Null)
}

/// A literal type: `boolean`, a unit type, or a union of unit types.
pub open spec fn spec_is_literal_type(t: SpecType) -> bool {
    match t {
        SpecType::Boolean => true,
        SpecType::Union(ms) => spec_all_units(ms),
        _ => spec_is_unit(t),
    }
}

/// Whether every member of `ms` is a unit type.
pub open spec fn spec_all_units(ms: Seq<SpecType>) -> bool {
    forall|i: int| 0 <= i < ms.len() ==> spec_is_unit(#[trigger] ms[i])
}

/// See [`spec_is_literal_type`].
pub fn is_literal_type(t: &Type) -> (r: bool)
    ensures
        r == spec_is_literal_type(t@),
{
    match t {
        Type::Boolean => true,
        Type::Union(ms) => {
            proof {
                lemma_view_types(ms@);
            }
            let mut i: usize = 0;
            while i < ms.len()
                invariant
                    0 <= i <= ms.len(),
                    t@ == SpecType::Union(view_types(ms@)),
                    view_types(ms@).len() == ms.len(),
                    forall|j: int| 0 <= j < ms.len() ==> #[trigger] view_types(ms@)[j] == view_type(ms@[j]),
                    forall|j: int| 0 <= j < i ==> spec_is_unit(#[trigger] view_types(ms@)[j]),
                decreases ms.len() - i,
            {
                if !is_unit(&ms[i]) {
                    assert(view_types(ms@)[i as int] == view_type(ms@[i as int]));
                    assert(!spec_is_unit(view_types(ms@)[i as int]));
                    return false;
                }
                i = i + 1;
            }
            true
        },
        other => is_unit(other),
    }
}

/// A primitive type (`never` included).
pub open spec fn spec_is_primitive_type(t: SpecType) -> bool {
    t is String || t is Number || t is Boolean || t is BigInt || t is Symbol || t is StringLiteral
        || t is NumberLiteral || t is BooleanLiteral || t is Undefined || t is Null || t is Void
        || t is Never
}

/// See [`spec_is_primitive_type`].
pub fn is_primitive_type(t: &Type) -> (r: bool)
    ensures
        r == spec_is_primitive_type(t@),
{
    matches!(
        t,
        Type::String | Type::Number | Type::Boolean | Type::BigInt | Type::Symbol
            | Type::StringLiteral(_) | Type::NumberLiteral(_) | Type::BooleanLiteral(_)
            | Type::Undefined | Type::Null | Type::Void | Type::Never
    )
}

/// Whether a type is, or is a union (at any depth) holding, `any`, `unknown`
/// (either kind) or a type variable.
pub open spec fn spec_type_contains_unknown_or_any(t: SpecType) -> bool
    decreases type_height(t), 0nat, 0nat,
{
    match t {
        SpecType::Unknown | SpecType::GenuineUnknown | SpecType::TypeParameter(_) | SpecType::Any => true,
        SpecType::Union(ms) => spec_some_unknown_or_any(ms),
        _ => false,
    }
}

/// Whether some member of `s` contains `any` or `unknown`.
pub open spec fn spec_some_unknown_or_any(s: Seq<SpecType>) -> bool
    decreases seq_height(s), 1nat, s.len(),
{
    if s.len() == 0 {
        false
    } else {
        proof {
            lemma_seq_height(s);
        }
        spec_some_unknown_or_any(s.drop_last()) || spec_type_contains_unknown_or_any(s.last())
    }
}

proof fn lemma_some_prefix<F>(s: Seq<SpecType>, i: int)
    requires
        0 <= i < s.len(),
        spec_type_contains_unknown_or_any(s[i]),
    ensures
        spec_some_unknown_or_any(s),
    decreases s.len(),
{
    if i < s.len() - 1 {
        assert(s.drop_last()[i] == s[i]);
        lemma_some_prefix::<F>(s.drop_last(), i);
    }
}

/// See [`spec_type_contains_unknown_or_any`].
pub fn type_contains_unknown_or_any(t: &Type) -> (r: bool)
    ensures
        r == spec_type_contains_unknown_or_any(t@),
    decreases type_height(t@),
{
    match t {
        Type::Unknown | Type::GenuineUnknown | Type::TypeParameter(_) | Type::Any => true,
        Type::Union(ms) => {
            let ghost s = view_types(ms@);
            proof {
                lemma_view_types(ms@);
                lemma_seq_height(s);
            }
            let mut i: usize = 0;
            assert(s.take(0) =~= Seq::<SpecType>::empty());
            while i < ms.len()
                invariant
                    0 <= i <= ms.len(),
                    s == view_types(ms@),
                    s.len() == ms.len(),
                    t@ == SpecType::Union(s),
                    forall|j: int| 0 <= j < ms.len() ==> #[trigger] s[j] == view_type(ms@[j]),
                    forall|j: int| 0 <= j < s.len() ==> type_height(#[trigger] s[j]) <= seq_height(s),
                    !spec_some_unknown_or_any(s.take(i as int)),
                decreases ms.len() - i,
            {
                proof {
                    assert(s.take(i + 1).drop_last() =~= s.take(i as int));
                    assert(s[i as int] == ms@[i as int]@);
                    assert(type_height(ms@[i as int]@) < type_height(t@));
                }
                if type_contains_unknown_or_any(&ms[i]) {
                    proof {
                        lemma_some_prefix::<()>(s, i as int);
                    }
                    return true;
                }
                i = i + 1;
            }
            assert(s.take(ms.len() as int) =~= s);
            false
        },
        _ => false,
    }
}

/// An optional prop's type includes `undefined`, both as the contextual type
/// for its value and as the target it is compared against.
pub open spec fn spec_optional_aware_property_type(p: SpecProperty) -> SpecType {
    if p.optional {
        spec_union(seq![p.ty, SpecType::Undefined])
    } else {
        p.ty
    }
}

/// See [`spec_optional_aware_property_type`].
pub fn optional_aware_property_type(p: &ObjectProperty) -> (r: Type)
    ensures
        r@ == spec_optional_aware_property_type(p@),
{
    if p.optional {
        let mut members: Vec<Type> = Vec::new();
        members.push(copy_type(&p.ty));
        members.push(Type::Undefined);
        proof {
            lemma_view_types(members@);
            assert(view_types(members@) =~= seq![p.ty@, SpecType::Undefined]);
        }
        union_of(members)
    } else {
        copy_type(&p.ty)
    }
}

/// The key the iteration protocol's member is declared under.
pub open spec fn iteration_protocol_member() -> Seq<char> {
    "[Symbol.iterator]"@
}

/// Whether some member of a children type is not array-like: with
/// `Iterable` declared, strings and objects declaring the iteration protocol
/// count as array-like; without it only arrays and tuples do.
pub open spec fn spec_has_non_array_like_member(ty: SpecType, iterable_declared: bool) -> bool
    decreases type_height(ty), 0nat, 0nat,
{
    let p = spec_peel(ty);
    proof {
        lemma_peel_height(ty);
    }
    match p {
        SpecType::Union(ms) => spec_some_non_array_like(ms, iterable_declared),
        SpecType::Array(_) | SpecType::Tuple(_) => false,
        SpecType::String | SpecType::StringLiteral(_) => !iterable_declared,
        SpecType::Object(o) => !(iterable_declared && spec_find_index(
            o.properties,
            iteration_protocol_member(),
        ) is Some),
        _ => true,
    }
}

/// Whether some member of `s` has a member that is not array-like.
pub open spec fn spec_some_non_array_like(s: Seq<SpecType>, iterable_declared: bool) -> bool
    decreases seq_height(s), 1nat, s.len(),
{
    if s.len() == 0 {
        false
    } else {
        proof {
            lemma_seq_height(s);
        }
        spec_some_non_array_like(s.drop_last(), iterable_declared)
            || spec_has_non_array_like_member(s.last(), iterable_declared)
    }
}

proof fn lemma_some_non_array_like_prefix(s: Seq<SpecType>, iterable_declared: bool, i: int)
    requires
        0 <= i < s.len(),
        spec_has_non_array_like_member(s[i], iterable_declared),
    ensures
        spec_some_non_array_like(s, iterable_declared),
    decreases s.len(),
{
    if i < s.len() - 1 {
        assert(s.drop_last()[i] == s[i]);
        lemma_some_non_array_like_prefix(s.drop_last(), iterable_declared, i);
    }
}

/// See [`spec_has_non_array_like_member`].
pub fn has_non_array_like_member(ty: &Type, iterable_declared: bool) -> (r: bool)
    ensures
        r == spec_has_non_array_like_member(ty@, iterable_declared),
    decreases type_height(ty@),
{
    let p = peeled(ty);
    proof {
        lemma_peel_height(ty@);
    }
    match p {
        Type::Union(ms) => {
            let ghost s = view_types(ms@);
            proof {
                lemma_view_types(ms@);
                lemma_seq_height(s);
            }
            let mut i: usize = 0;
            assert(s.take(0) =~= Seq::<SpecType>::empty());
            while i < ms.len()
                invariant
                    0 <= i <= ms.len(),
                    s == view_types(ms@),
                    s.len() == ms.len(),
                    p@ == SpecType::Union(s),
                    p@ == spec_peel(ty@),
                    type_height(spec_peel(ty@)) <= type_height(ty@),
                    forall|j: int| 0 <= j < ms.len() ==> #[trigger] s[j] == view_type(ms@[j]),
                    forall|j: int| 0 <= j < s.len() ==> type_height(#[trigger] s[j]) <= seq_height(s),
                    !spec_some_non_array_like(s.take(i as int), iterable_declared),
                decreases ms.len() - i,
            {
                proof {
                    assert(s.take(i + 1).drop_last() =~= s.take(i as int));
                    assert(s[i as int] == ms@[i as int]@);
                    assert(type_height(ms@[i as int]@) < type_height(ty@));
                }
                if has_non_array_like_member(&ms[i], iterable_declared) {
                    proof {
                        lemma_some_non_array_like_prefix(s, iterable_declared, i as int);
                    }
                    return true;
                }
                i = i + 1;
            }
            assert(s.take(ms.len() as int) =~= s);
            false
        },
        Type::Array(_) | Type::Tuple(_) => false,
        Type::String | Type::StringLiteral(_) => !iterable_declared,
        Type::Object(o) => {
            proof {
                lemma_view_properties(o.properties@);
                assert(p@ == SpecType::Object(view_object(*o)));
            }
            let found = find_property(&o.properties, "[Symbol.iterator]");
            !(iterable_declared && found.is_some())
        },
        _ => true,
    }
}

/// Whether some member of a children type is array-like.
pub open spec fn spec_has_array_like_member(ty: SpecType, iterable_declared: bool) -> bool
    decreases type_height(ty), 0nat, 0nat,
{
    let p = spec_peel(ty);
    proof {
        lemma_peel_height(ty);
    }
    match p {
        SpecType::Union(ms) => spec_some_array_like(ms, iterable_declared),
        other => !spec_has_non_array_like_member(other, iterable_declared),
    }
}

/// Whether some member of `s` has an array-like member.
pub open spec fn spec_some_array_like(s: Seq<SpecType>, iterable_declared: bool) -> bool
    decreases seq_height(s), 1nat, s.len(),
{
    if s.len() == 0 {
        false
    } else {
        proof {
            lemma_seq_height(s);
        }
        spec_some_array_like(s.drop_last(), iterable_declared) || spec_has_array_like_member(
            s.last(),
            iterable_declared,
        )
    }
}

proof fn lemma_some_array_like_prefix(s: Seq<SpecType>, iterable_declared: bool, i: int)
    requires
        0 <= i < s.len(),
        spec_has_array_like_member(s[i], iterable_declared),
    ensures
        spec_some_array_like(s, iterable_declared),
    decreases s.len(),
{
    if i < s.len() - 1 {
        assert(s.drop_last()[i] == s[i]);
        lemma_some_array_like_prefix(s.drop_last(), iterable_declared, i);
    }
}

/// See [`spec_has_array_like_member`].
pub fn has_array_like_member(ty: &Type, iterable_declared: bool) -> (r: bool)
    ensures
        r == spec_has_array_like_member(ty@, iterable_declared),
    decreases type_height(ty@),
{
    let p = peeled(ty);
    proof {
        lemma_peel_height(ty@);
    }
    match p {
        Type::Union(ms) => {
            let ghost s = view_types(ms@);
            proof {
                lemma_view_types(ms@);
                lemma_seq_height(s);
            }
            let mut i: usize = 0;
            assert(s.take(0) =~= Seq::<SpecType>::empty());
            while i < ms.len()
                invariant
                    0 <= i <= ms.len(),
                    s == view_types(ms@),
                    s.len() == ms.len(),
                    p@ == SpecType::Union(s),
                    p@ == spec_peel(ty@),
                    type_height(spec_peel(ty@)) <= type_height(ty@),
                    forall|j: int| 0 <= j < ms.len() ==> #[trigger] s[j] == view_type(ms@[j]),
                    forall|j: int| 0 <= j < s.len() ==> type_height(#[trigger] s[j]) <= seq_height(s),
                    !spec_some_array_like(s.take(i as int), iterable_declared),
                decreases ms.len() - i,
            {
                proof {
                    assert(s.take(i + 1).drop_last() =~= s.take(i as int));
                    assert(s[i as int] == ms@[i as int]@);
                    assert(type_height(ms@[i as int]@) < type_height(ty@));
                }
                if has_array_like_member(&ms[i], iterable_declared) {
                    proof {
                        lemma_some_array_like_prefix(s, iterable_declared, i as int);
                    }
                    return true;
                }
                i = i + 1;
            }
            assert(s.take(ms.len() as int) =~= s);
            false
        },
        other => !has_non_array_like_member(other, iterable_declared),
    }
}

/// The types the object members of `members` declare `name` with, in order.
pub open spec fn spec_declared_types(members: Seq<SpecType>, name: Seq<char>) -> Seq<SpecType>
    decreases members.len(),
{
    if members.len() == 0 {
        Seq::empty()
    } else {
        let front = spec_declared_types(members.drop_last(), name);
        match spec_peel(members.last()) {
            SpecType::Object(o) => match spec_find_index(o.properties, name) {
                Some(i) => front.push(o.properties[i].ty),
                None => front,
            },
            _ => front,
        }
    }
}

/// Whether `name` discriminates a union: its members declare it with
/// differing types, one of them a literal type.
pub open spec fn spec_is_discriminant_property(members: Seq<SpecType>, name: Seq<char>) -> bool {
    let types = spec_declared_types(members, name);
    &&& types.len() > 0
    &&& exists|i: int| 0 <= i < types.len() && #[trigger] types[i] != types[0]
    &&& exists|i: int| 0 <= i < types.len() && spec_is_literal_type(#[trigger] types[i])
}

fn declared_types(members: &Vec<Type>, name: &str) -> (r: Vec<Type>)
    ensures
        view_types(r@) == spec_declared_types(view_types(members@), name@),
{
    let ghost s = view_types(members@);
    proof {
        lemma_view_types(members@);
    }
    let mut out: Vec<Type> = Vec::new();
    let mut i: usize = 0;
    assert(s.take(0) =~= Seq::<SpecType>::empty());
    while i < members.len()
        invariant
            0 <= i <= members.len(),
            s == view_types(members@),
            s.len() == members.len(),
            forall|j: int| 0 <= j < members.len() ==> #[trigger] s[j] == view_type(members@[j]),
            view_types(out@) == spec_declared_types(s.take(i as int), name@),
        decreases members.len() - i,
    {
        proof {
            assert(s.take(i + 1).drop_last() =~= s.take(i as int));
            assert(s.take(i + 1).last() == s[i as int]);
        }
        let p = peeled(&members[i]);
        match p {
            Type::Object(o) => {
                proof {
                    lemma_view_properties(o.properties@);
                    assert(p@ == SpecType::Object(view_object(*o)));
                }
                match find_property(&o.properties, name) {
                    Some(k) => {
                        proof {
                            lemma_find_index(view_properties(o.properties@), name@);
                        }
                        let t = copy_type(&o.properties[k].ty);
                        proof {
                            crate::types::lemma_view_types_push(out@, t);
                        }
                        out.push(t);
                    },
                    None => {},
                }
            },
            _ => {},
        }
        i = i + 1;
    }
    assert(s.take(members.len() as int) =~= s);
    out
}

/// See [`spec_is_discriminant_property`].
pub fn is_discriminant_property(members: &Vec<Type>, name: &str) -> (r: bool)
    ensures
        r == spec_is_discriminant_property(view_types(members@), name@),
{
    let types = declared_types(members, name);
    let ghost ts = view_types(types@);
    proof {
        lemma_view_types(types@);
    }
    if types.len() == 0 {
        return false;
    }
    let mut differs = false;
    let mut literal = false;
    let mut i: usize = 0;
    while i < types.len()
        invariant
            0 <= i <= types.len(),
            types.len() > 0,
            ts == view_types(types@),
            ts.len() == types.len(),
            forall|j: int| 0 <= j < types.len() ==> #[trigger] ts[j] == view_type(types@[j]),
            differs == (exists|j: int| 0 <= j < i && #[trigger] ts[j] != ts[0]),
            literal == (exists|j: int| 0 <= j < i && spec_is_literal_type(#[trigger] ts[j])),
        decreases types.len() - i,
    {
        let d = !type_eq(&types[i], &types[0]);
        let l = is_literal_type(&types[i]);
        proof {
            assert(ts[i as int] == types@[i as int]@);
            if d {
                assert(ts[i as int] != ts[0]);
            }
            if l {
                assert(spec_is_literal_type(ts[i as int]));
            }
        }
        differs = differs || d;
        literal = literal || l;
        i = i + 1;
    }
    differs && literal
}

/// The object shapes the members of `members` resolve to, in order.
pub open spec fn spec_object_shapes(members: Seq<SpecType>) -> Seq<SpecObject>
    decreases members.len(),
{
    if members.len() == 0 {
        Seq::empty()
    } else {
        let front = spec_object_shapes(members.drop_last());
        match spec_peel(members.last()) {
            SpecType::Object(o) => front.push(o),
            _ => front,
        }
    }
}

/// Whether every shape declares `name`, and some shape declares it optional.
pub open spec fn spec_common_optional(shapes: Seq<SpecObject>, name: Seq<char>) -> bool {
    &&& forall|j: int| 0 <= j < shapes.len() ==> (#[trigger] spec_find_index(shapes[j].properties, name)) is Some
    &&& exists|j: int| 0 <= j < shapes.len() && spec_optional_in(#[trigger] shapes[j], name)
}

/// Whether a shape's property `name` is optional.
pub open spec fn spec_optional_in(shape: SpecObject, name: Seq<char>) -> bool {
    match spec_find_index(shape.properties, name) {
        Some(i) => shape.properties[i].optional,
        None => false,
    }
}

/// The properties every object member of a union declares, optional in at
/// least one of them, in the first member's order.
pub open spec fn spec_common_optional_properties(members: Seq<SpecType>) -> Seq<Seq<char>> {
    let shapes = spec_object_shapes(members);
    if shapes.len() == 0 {
        Seq::empty()
    } else {
        shapes[0].properties.filter(|p: SpecProperty| spec_common_optional(shapes, p.name)).map_values(
            |p: SpecProperty| p.name,
        )
    }
}

fn object_shapes(members: &Vec<Type>) -> (r: Vec<crate::types::ObjectType>)
    ensures
        r@.map_values(|o: crate::types::ObjectType| view_object(o)) == spec_object_shapes(view_types(members@)),
{
    let ghost s = view_types(members@);
    proof {
        lemma_view_types(members@);
    }
    let mut out: Vec<crate::types::ObjectType> = Vec::new();
    let mut i: usize = 0;
    assert(s.take(0) =~= Seq::<SpecType>::empty());
    assert(out@.map_values(|o: crate::types::ObjectType| view_object(o)) =~= Seq::<SpecObject>::empty());
    while i < members.len()
        invariant
            0 <= i <= members.len(),
            s == view_types(members@),
            s.len() == members.len(),
            forall|j: int| 0 <= j < members.len() ==> #[trigger] s[j] == view_type(members@[j]),
            out@.map_values(|o: crate::types::ObjectType| view_object(o)) == spec_object_shapes(s.take(i as int)),
        decreases members.len() - i,
    {
        proof {
            assert(s.take(i + 1).drop_last() =~= s.take(i as int));
            assert(s.take(i + 1).last() == s[i as int]);
        }
        let p = peeled(&members[i]);
        match p {
            Type::Object(o) => {
                assert(p@ == SpecType::Object(view_object(*o)));
                let c = crate::types::copy_object(o);
                let ghost before = out@;
                out.push(c);
                assert(out@.map_values(|o: crate::types::ObjectType| view_object(o)) =~= before.map_values(
                    |o: crate::types::ObjectType| view_object(o),
                ).push(view_object(c)));
            },
            _ => {},
        }
        i = i + 1;
    }
    assert(s.take(members.len() as int) =~= s);
    out
}

/// See [`spec_common_optional_properties`].
pub fn common_optional_properties(members: &Vec<Type>) -> (r: Vec<String>)
    ensures
        r@.map_values(|n: String| n@) == spec_common_optional_properties(view_types(members@)),
{
    let shapes = object_shapes(members);
    let ghost vs = shapes@.map_values(|o: crate::types::ObjectType| view_object(o));
    let mut out: Vec<String> = Vec::new();
    if shapes.len() == 0 {
        assert(out@.map_values(|n: String| n@) =~= Seq::<Seq<char>>::empty());
        return out;
    }
    let first = &shapes[0];
    let ghost props = view_properties(first.properties@);
    let ghost pred = |p: SpecProperty| spec_common_optional(vs, p.name);
    proof {
        lemma_view_properties(first.properties@);
        assert(vs[0] == view_object(*first));
    }
    let mut k: usize = 0;
    assert(out@.map_values(|n: String| n@) =~= props.take(0).filter(pred).map_values(|p: SpecProperty| p.name));
    while k < first.properties.len()
        invariant
            0 <= k <= first.properties.len(),
            shapes.len() > 0,
            vs == shapes@.map_values(|o: crate::types::ObjectType| view_object(o)),
            *first == shapes@[0],
            props == view_properties(first.properties@),
            props.len() == first.properties.len(),
            forall|j: int| 0 <= j < first.properties.len() ==> #[trigger] props[j] == view_property(first.properties@[j]),
            pred == (|p: SpecProperty| spec_common_optional(vs, p.name)),
            out@.map_values(|n: String| n@) == props.take(k as int).filter(pred).map_values(|p: SpecProperty| p.name),
        decreases first.properties.len() - k,
    {
        proof {
            crate::types::lemma_filter_take_step(props, k as int, pred);
        }
        let name = first.properties[k].name.as_str();
        let mut all_have = true;
        let mut some_optional = false;
        let mut j: usize = 0;
        while j < shapes.len()
            invariant
                0 <= j <= shapes.len(),
                vs == shapes@.map_values(|o: crate::types::ObjectType| view_object(o)),
                vs.len() == shapes.len(),
                all_have == (forall|m: int| 0 <= m < j ==> (#[trigger] spec_find_index(vs[m].properties, name@)) is Some),
                some_optional == (exists|m: int| 0 <= m < j && spec_optional_in(#[trigger] vs[m], name@)),
            decreases shapes.len() - j,
        {
            let shape = &shapes[j];
            proof {
                lemma_view_properties(shape.properties@);
                assert(vs[j as int] == view_object(*shape));
            }
            match find_property(&shape.properties, name) {
                Some(i) => {
                    proof {
                        lemma_find_index(view_properties(shape.properties@), name@);
                        assert(view_properties(shape.properties@)[i as int] == view_property(shape.properties@[i as int]));
                    }
                    if shape.properties[i].optional {
                        assert(spec_optional_in(vs[j as int], name@));
                        some_optional = true;
                    }
                },
                None => {
                    assert(spec_find_index(vs[j as int].properties, name@) is None);
                    all_have = false;
                },
            }
            j = j + 1;
        }
        assert(pred(props[k as int]) == (all_have && some_optional));
        if all_have && some_optional {
            let ghost before = out@;
            out.push(first.properties[k].name.clone());
            proof {
                let pre = props.take(k as int).filter(pred);
                assert(pre.push(props[k as int]).map_values(|p: SpecProperty| p.name) =~= pre.map_values(|p: SpecProperty| p.name).push(props[k as int].name));
                assert(out@.map_values(|n: String| n@) =~= before.map_values(|n: String| n@).push(props[k as int].name));
            }
        }
        k = k + 1;
    }
    assert(props.take(first.properties.len() as int) =~= props);
    out
}


/// A member a discriminator can keep: an object, a function, an array or a
/// tuple, read through named references.
pub open spec fn spec_discriminable(m: SpecType) -> bool {
    let p = spec_peel(m);
    p is Object || p is Function || p is Array || p is Tuple
}

/// Whether a member still included admits the discriminator's value.
pub open spec fn spec_some_admits(keep: Seq<bool>, admits: Seq<Option<bool>>) -> bool {
    exists|i: int| 0 <= i < keep.len() && keep[i] && #[trigger] admits[i] == Some(true)
}

/// One discriminator: `admits[i]` is `None` when member `i` declares no such
/// property, else whether its property admits the value. An included member
/// that does not admit it is dropped, unless no included member admits it.
pub open spec fn spec_discriminate_step(keep: Seq<bool>, admits: Seq<Option<bool>>) -> Seq<bool> {
    let matched = spec_some_admits(keep, admits);
    Seq::new(keep.len(), |i: int| keep[i] && !(matched && admits[i] == Some(false)))
}

/// The discriminators of `table` applied in order.
pub open spec fn spec_discriminate_all(keep: Seq<bool>, table: Seq<Seq<Option<bool>>>) -> Seq<bool>
    decreases table.len(),
{
    if table.len() == 0 {
        keep
    } else {
        spec_discriminate_step(spec_discriminate_all(keep, table.drop_last()), table.last())
    }
}

/// The members whose `keep` entry is set, in order.
pub open spec fn spec_select(members: Seq<SpecType>, keep: Seq<bool>) -> Seq<SpecType>
    decreases members.len(),
{
    if members.len() == 0 {
        Seq::empty()
    } else {
        let front = spec_select(members.drop_last(), keep.take(members.len() - 1));
        if keep[members.len() - 1] {
            front.push(members.last())
        } else {
            front
        }
    }
}

/// tsc's `discriminateTypeByDiscriminableItems` over the answers `table`
/// holds, one row per discriminator: the members left, `None` when nothing is
/// dropped or nothing is left.
pub open spec fn spec_discriminate_members(members: Seq<SpecType>, table: Seq<Seq<Option<bool>>>) -> Option<Seq<SpecType>> {
    let keep = spec_discriminate_all(members.map_values(|m: SpecType| spec_discriminable(m)), table);
    let kept = spec_select(members, keep);
    if forall|i: int| 0 <= i < keep.len() ==> #[trigger] keep[i] {
        None
    } else if kept.len() == 0 {
        None
    } else {
        Some(kept)
    }
}

/// The rows of an answer table as sequences.
pub open spec fn view_table(table: Seq<Vec<Option<bool>>>) -> Seq<Seq<Option<bool>>> {
    table.map_values(|row: Vec<Option<bool>>| row@)
}

/// Applying discriminators keeps the length of the inclusion mask.
pub proof fn lemma_discriminate_all_len(keep: Seq<bool>, table: Seq<Seq<Option<bool>>>)
    ensures
        spec_discriminate_all(keep, table).len() == keep.len(),
    decreases table.len(),
{
    if table.len() > 0 {
        lemma_discriminate_all_len(keep, table.drop_last());
    }
}

fn discriminable(m: &Type) -> (r: bool)
    ensures
        r == spec_discriminable(m@),
{
    match peeled(m) {
        Type::Object(_) | Type::Function | Type::Array(_) | Type::Tuple(_) => true,
        _ => false,
    }
}

/// See [`spec_discriminate_members`]: `admits[d][i]` answers discriminator
/// `d` for member `i`.
pub fn discriminate_members(members: &Vec<Type>, admits: &Vec<Vec<Option<bool>>>) -> (r: Option<Vec<Type>>)
    requires
        forall|d: int| 0 <= d < admits@.len() ==> #[trigger] admits@[d]@.len() == members@.len(),
    ensures
        opt_types_view(r) == spec_discriminate_members(view_types(members@), view_table(admits@)),
{
    let ghost vs = view_types(members@);
    let ghost table = view_table(admits@);
    let ghost initial = vs.map_values(|m: SpecType| spec_discriminable(m));
    proof {
        lemma_view_types(members@);
    }
    let mut keep: Vec<bool> = Vec::new();
    let mut i: usize = 0;
    while i < members.len()
        invariant
            0 <= i <= members.len(),
            vs == view_types(members@),
            vs.len() == members.len(),
            initial == vs.map_values(|m: SpecType| spec_discriminable(m)),
            forall|j: int| 0 <= j < members.len() ==> #[trigger] vs[j] == view_type(members@[j]),
            keep@ == initial.take(i as int),
        decreases members.len() - i,
    {
        let b = discriminable(&members[i]);
        keep.push(b);
        proof {
            assert(keep@ =~= initial.take(i + 1));
        }
        i = i + 1;
    }
    assert(initial.take(members.len() as int) =~= initial);
    let mut d: usize = 0;
    while d < admits.len()
        invariant
            0 <= d <= admits.len(),
            table == view_table(admits@),
            forall|e: int| 0 <= e < admits@.len() ==> #[trigger] admits@[e]@.len() == members@.len(),
            keep@.len() == members.len(),
            keep@ == spec_discriminate_all(initial, table.take(d as int)),
        decreases admits.len() - d,
    {
        let row = &admits[d];
        let ghost before = keep@;
        assert(table[d as int] == row@);
        let mut matched = false;
        let mut j: usize = 0;
        while j < members.len()
            invariant
                0 <= j <= members.len(),
                row@.len() == members.len(),
                keep@ == before,
                before.len() == members.len(),
                matched == exists|k: int| 0 <= k < j && before[k] && #[trigger] row@[k] == Some(true),
            decreases members.len() - j,
        {
            if keep[j] {
                match row[j] {
                    Some(true) => {
                        matched = true;
                    },
                    _ => {},
                }
            }
            j = j + 1;
        }
        assert(matched == spec_some_admits(before, row@));
        let mut k: usize = 0;
        while k < members.len()
            invariant
                0 <= k <= members.len(),
                row@.len() == members.len(),
                before.len() == members.len(),
                keep@.len() == members.len(),
                matched == spec_some_admits(before, row@),
                forall|x: int| 0 <= x < k ==> #[trigger] keep@[x] == spec_discriminate_step(
                    before,
                    row@,
                )[x],
                forall|x: int| k <= x < members.len() ==> #[trigger] keep@[x] == before[x],
            decreases members.len() - k,
        {
            if keep[k] && matched {
                match row[k] {
                    Some(false) => {
                        keep.set(k, false);
                    },
                    _ => {},
                }
            }
            k = k + 1;
        }
        proof {
            assert(keep@ =~= spec_discriminate_step(before, row@));
            assert(table.take(d + 1).drop_last() =~= table.take(d as int));
            assert(table.take(d + 1).last() == row@);
        }
        d = d + 1;
    }
    assert(table.take(admits.len() as int) =~= table);
    let ghost inc = keep@;
    let mut all = true;
    let mut out: Vec<Type> = Vec::new();
    let mut m: usize = 0;
    while m < members.len()
        invariant
            0 <= m <= members.len(),
            inc == keep@,
            inc.len() == members.len(),
            vs == view_types(members@),
            vs.len() == members.len(),
            forall|j: int| 0 <= j < members.len() ==> #[trigger] vs[j] == view_type(members@[j]),
            all == forall|j: int| 0 <= j < m ==> #[trigger] inc[j],
            view_types(out@) == spec_select(vs.take(m as int), inc.take(m as int)),
        decreases members.len() - m,
    {
        proof {
            assert(vs.take(m + 1).drop_last() =~= vs.take(m as int));
            assert(inc.take(m + 1).take(m as int) =~= inc.take(m as int));
            assert(vs.take(m + 1).last() == vs[m as int]);
            assert(inc.take(m + 1)[m as int] == inc[m as int]);
        }
        if keep[m] {
            let c = copy_type(&members[m]);
            proof {
                crate::types::lemma_view_types_push(out@, c);
            }
            out.push(c);
        } else {
            all = false;
        }
        m = m + 1;
    }
    assert(vs.take(members.len() as int) =~= vs);
    assert(inc.take(members.len() as int) =~= inc);
    proof {
        lemma_view_types(out@);
    }
    if all {
        None
    } else if out.len() == 0 {
        None
    } else {
        Some(out)
    }
}


/// The contextual type of the child at `index` among a children type's:
/// an array's element, a tuple's element at `index` (`undefined` past its
/// end), each union member's in turn, read through named references; any
/// other type is its own.
pub open spec fn spec_child_contextual_type(children: SpecType, index: int) -> SpecType
    decreases type_height(children), 0nat, 0nat,
{
    match spec_peel(children) {
        SpecType::Union(ms) => {
            proof {
                lemma_peel_height(children);
            }
            spec_union(spec_child_contextual_types(ms, index))
        },
        SpecType::Array(e) => *e,
        SpecType::Tuple(es) => if 0 <= index < es.len() {
            es[index]
        } else {
            SpecType::Undefined
        },
        other => other,
    }
}

/// [`spec_child_contextual_type`] of each member.
pub open spec fn spec_child_contextual_types(s: Seq<SpecType>, index: int) -> Seq<SpecType>
    decreases seq_height(s), 1nat, s.len(),
{
    if s.len() == 0 {
        Seq::empty()
    } else {
        proof {
            lemma_seq_height(s);
        }
        spec_child_contextual_types(s.drop_last(), index).push(
            spec_child_contextual_type(s.last(), index),
        )
    }
}

/// See [`spec_child_contextual_type`].
pub fn child_contextual_type(children: &Type, index: usize) -> (r: Type)
    ensures
        r@ == spec_child_contextual_type(children@, index as int),
    decreases type_height(children@),
{
    let p = peeled(children);
    match p {
        Type::Union(ms) => {
            let ghost s = view_types(ms@);
            proof {
                lemma_peel_height(children@);
                lemma_view_types(ms@);
                lemma_seq_height(s);
            }
            let mut out: Vec<Type> = Vec::new();
            let mut i: usize = 0;
            assert(s.take(0) =~= Seq::<SpecType>::empty());
            while i < ms.len()
                invariant
                    0 <= i <= ms.len(),
                    s == view_types(ms@),
                    s.len() == ms.len(),
                    seq_height(s) < type_height(children@),
                    forall|j: int| 0 <= j < ms.len() ==> #[trigger] s[j] == view_type(ms@[j]),
                    forall|j: int| 0 <= j < s.len() ==> type_height(#[trigger] s[j]) <= seq_height(s),
                    view_types(out@) == spec_child_contextual_types(s.take(i as int), index as int),
                decreases ms.len() - i,
            {
                proof {
                    assert(s.take(i + 1).drop_last() =~= s.take(i as int));
                    assert(s.take(i + 1).last() == s[i as int]);
                    assert(type_height(ms@[i as int]@) < type_height(children@));
                }
                let c = child_contextual_type(&ms[i], index);
                proof {
                    crate::types::lemma_view_types_push(out@, c);
                }
                out.push(c);
                i = i + 1;
            }
            assert(s.take(ms.len() as int) =~= s);
            union_of(out)
        },
        Type::Array(e) => copy_type(e),
        Type::Tuple(es) => {
            proof {
                lemma_view_types(es@);
            }
            if index < es.len() {
                copy_type(&es[index])
            } else {
                Type::Undefined
            }
        },
        _ => copy_type(p),
    }
}

/// `Object` as an alias name.
pub open spec fn object_alias() -> Seq<char> {
    seq!['O', 'b', 'j', 'e', 'c', 't']
}

/// tsc's `isExcessPropertyCheckTarget`: an object shape other than the
/// global `Object`, a function, an array or a tuple, or a union one of whose
/// members (read through named references) is one.
pub open spec fn spec_is_excess_property_check_target(t: SpecType) -> bool
    decreases type_height(t), 0nat, 0nat,
{
    match t {
        SpecType::Object(o) => o.alias_name != Some(object_alias()),
        SpecType::Function => true,
        SpecType::Array(_) => true,
        SpecType::Tuple(_) => true,
        SpecType::Union(ms) => spec_some_excess_check_target(ms),
        _ => false,
    }
}

/// Whether some member of `s`, read through named references, is an excess
/// property check target.
pub open spec fn spec_some_excess_check_target(s: Seq<SpecType>) -> bool
    decreases seq_height(s), 1nat, s.len(),
{
    if s.len() == 0 {
        false
    } else {
        proof {
            lemma_seq_height(s);
            lemma_peel_height(s.last());
        }
        spec_some_excess_check_target(s.drop_last()) || spec_is_excess_property_check_target(
            spec_peel(s.last()),
        )
    }
}

proof fn lemma_some_excess_prefix(s: Seq<SpecType>, i: int)
    requires
        0 <= i < s.len(),
        spec_is_excess_property_check_target(spec_peel(s[i])),
    ensures
        spec_some_excess_check_target(s),
    decreases s.len(),
{
    if i < s.len() - 1 {
        assert(s.drop_last()[i] == s[i]);
        lemma_some_excess_prefix(s.drop_last(), i);
    }
}

/// See [`spec_is_excess_property_check_target`].
pub fn is_excess_property_check_target(t: &Type) -> (r: bool)
    ensures
        r == spec_is_excess_property_check_target(t@),
    decreases type_height(t@),
{
    match t {
        Type::Object(o) => {
            proof {
                assert(t@ == SpecType::Object(view_object(*o)));
            }
            match &o.alias_name {
                Some(name) => {
                    proof {
                        reveal_strlit("Object");
                        assert("Object"@ =~= object_alias());
                    }
                    !chars_are(&crate::text::chars_of(name.as_str()), "Object")
                },
                None => true,
            }
        },
        Type::Function | Type::Array(_) | Type::Tuple(_) => true,
        Type::Union(ms) => {
            let ghost s = view_types(ms@);
            proof {
                lemma_view_types(ms@);
                lemma_seq_height(s);
            }
            let mut i: usize = 0;
            assert(s.take(0) =~= Seq::<SpecType>::empty());
            while i < ms.len()
                invariant
                    0 <= i <= ms.len(),
                    s == view_types(ms@),
                    s.len() == ms.len(),
                    t@ == SpecType::Union(s),
                    forall|j: int| 0 <= j < ms.len() ==> #[trigger] s[j] == view_type(ms@[j]),
                    forall|j: int| 0 <= j < s.len() ==> type_height(#[trigger] s[j]) <= seq_height(s),
                    !spec_some_excess_check_target(s.take(i as int)),
                decreases ms.len() - i,
            {
                proof {
                    assert(s.take(i + 1).drop_last() =~= s.take(i as int));
                    assert(s.take(i + 1).last() == s[i as int]);
                    assert(s[i as int] == ms@[i as int]@);
                    lemma_peel_height(ms@[i as int]@);
                    assert(type_height(spec_peel(ms@[i as int]@)) < type_height(t@));
                }
                if is_excess_property_check_target(peeled(&ms[i])) {
                    proof {
                        lemma_some_excess_prefix(s, i as int);
                    }
                    return true;
                }
                i = i + 1;
            }
            assert(s.take(ms.len() as int) =~= s);
            false
        },
        _ => false,
    }
}


/// The type an object shape gives `name`: a declared property's (with
/// `undefined` when optional), else its index signature's.
pub open spec fn spec_declared_or_indexed(o: SpecObject, name: Seq<char>) -> Option<SpecType> {
    match spec_find_property(o.properties, name) {
        Some(p) => Some(spec_optional_aware_property_type(p)),
        None => match o.string_index {
            Some(t) => Some(*t),
            None => None,
        },
    }
}

/// The type an attribute's value relates to, tsc's
/// `getIndexedAccessTypeOrUndefined` on props that are an object shape.
pub open spec fn spec_attribute_target_type(target: SpecType, name: Seq<char>) -> Option<SpecType> {
    match target {
        SpecType::Object(o) => spec_declared_or_indexed(o, name),
        _ => None,
    }
}

/// A union member's property type as `getTypeOfPropertyOrIndexSignatureOfType`
/// reads it: the member read through named references.
pub open spec fn spec_member_property_type(member: SpecType, name: Seq<char>) -> Option<SpecType> {
    spec_attribute_target_type(spec_peel(member), name)
}

fn declared_or_indexed(o: &crate::types::ObjectType, name: &str) -> (r: Option<Type>)
    ensures
        opt_view(r) == spec_declared_or_indexed(o@, name@),
{
    proof {
        lemma_view_properties(o.properties@);
        assert(o@.properties == view_properties(o.properties@));
    }
    match find_property(&o.properties, name) {
        Some(i) => {
            proof {
                lemma_find_index(view_properties(o.properties@), name@);
                assert(view_properties(o.properties@)[i as int] == view_property(o.properties@[i as int]));
            }
            Some(optional_aware_property_type(&o.properties[i]))
        },
        None => match &o.string_index {
            Some(t) => Some(copy_type(t)),
            None => None,
        },
    }
}

/// See [`spec_attribute_target_type`].
pub fn attribute_target_type(target: &Type, name: &str) -> (r: Option<Type>)
    ensures
        opt_view(r) == spec_attribute_target_type(target@, name@),
{
    match target {
        Type::Object(o) => {
            proof {
                assert(target@ == SpecType::Object(view_object(*o)));
            }
            declared_or_indexed(o, name)
        },
        _ => None,
    }
}

/// See [`spec_member_property_type`].
pub fn member_property_type(member: &Type, name: &str) -> (r: Option<Type>)
    ensures
        opt_view(r) == spec_member_property_type(member@, name@),
{
    attribute_target_type(peeled(member), name)
}

/// The contextual type of attribute `name` (tsc's
/// `getContextualTypeForJsxAttribute`): a declared prop's type (with
/// `undefined` when optional), the unmodelled sentinel where an open index
/// stands for members the checker could not enumerate, else the index
/// signature's, joined over a union's members; read through named
/// references. Any other type offers none.
pub open spec fn spec_attribute_contextual_type(contextual: SpecType, name: Seq<char>) -> Option<SpecType>
    decreases type_height(contextual), 0nat, 0nat,
{
    match spec_peel(contextual) {
        SpecType::Union(ms) => {
            proof {
                lemma_peel_height(contextual);
            }
            let found = spec_attribute_contextual_types(ms, name);
            if found.len() == 0 {
                None
            } else {
                Some(spec_union(found))
            }
        },
        SpecType::Object(o) => match spec_find_property(o.properties, name) {
            Some(p) => Some(spec_optional_aware_property_type(p)),
            None => if o.synthetic_open_index {
                Some(SpecType::Unknown)
            } else {
                match o.string_index {
                    Some(t) => Some(*t),
                    None => None,
                }
            },
        },
        _ => None,
    }
}

/// The contextual types the members of `s` offer for `name`, in order.
pub open spec fn spec_attribute_contextual_types(s: Seq<SpecType>, name: Seq<char>) -> Seq<SpecType>
    decreases seq_height(s), 1nat, s.len(),
{
    if s.len() == 0 {
        Seq::empty()
    } else {
        proof {
            lemma_seq_height(s);
        }
        let front = spec_attribute_contextual_types(s.drop_last(), name);
        match spec_attribute_contextual_type(s.last(), name) {
            Some(t) => front.push(t),
            None => front,
        }
    }
}

/// See [`spec_attribute_contextual_type`].
pub fn attribute_contextual_type(contextual: &Type, name: &str) -> (r: Option<Type>)
    ensures
        opt_view(r) == spec_attribute_contextual_type(contextual@, name@),
    decreases type_height(contextual@),
{
    let p = peeled(contextual);
    match p {
        Type::Union(ms) => {
            let ghost s = view_types(ms@);
            proof {
                lemma_peel_height(contextual@);
                lemma_view_types(ms@);
                lemma_seq_height(s);
            }
            let mut found: Vec<Type> = Vec::new();
            let mut i: usize = 0;
            assert(s.take(0) =~= Seq::<SpecType>::empty());
            while i < ms.len()
                invariant
                    0 <= i <= ms.len(),
                    s == view_types(ms@),
                    s.len() == ms.len(),
                    seq_height(s) < type_height(contextual@),
                    forall|j: int| 0 <= j < ms.len() ==> #[trigger] s[j] == view_type(ms@[j]),
                    forall|j: int| 0 <= j < s.len() ==> type_height(#[trigger] s[j]) <= seq_height(s),
                    view_types(found@) == spec_attribute_contextual_types(s.take(i as int), name@),
                decreases ms.len() - i,
            {
                proof {
                    assert(s.take(i + 1).drop_last() =~= s.take(i as int));
                    assert(s.take(i + 1).last() == s[i as int]);
                    assert(type_height(ms@[i as int]@) < type_height(contextual@));
                }
                match attribute_contextual_type(&ms[i], name) {
                    Some(t) => {
                        proof {
                            crate::types::lemma_view_types_push(found@, t);
                        }
                        found.push(t);
                    },
                    None => {},
                }
                i = i + 1;
            }
            assert(s.take(ms.len() as int) =~= s);
            proof {
                lemma_view_types(found@);
            }
            if found.len() == 0 {
                None
            } else {
                Some(union_of(found))
            }
        },
        Type::Object(o) => {
            proof {
                assert(p@ == SpecType::Object(view_object(*o)));
                lemma_view_properties(o.properties@);
                assert(o@.properties == view_properties(o.properties@));
            }
            match find_property(&o.properties, name) {
                Some(i) => {
                    proof {
                        lemma_find_index(view_properties(o.properties@), name@);
                        assert(view_properties(o.properties@)[i as int] == view_property(
                            o.properties@[i as int],
                        ));
                    }
                    Some(optional_aware_property_type(&o.properties[i]))
                },
                None => {
                    if o.synthetic_open_index {
                        Some(Type::Unknown)
                    } else {
                        match &o.string_index {
                            Some(t) => Some(copy_type(t)),
                            None => None,
                        }
                    }
                },
            }
        },
        _ => None,
    }
}


/// How a JSX attribute's value is written.
pub enum JsxAttributeValueKind {
    /// `<C flag />`.
    BooleanShorthand,
    /// `<C name="text" />`.
    StringLiteral(String),
    /// `<C name={expression} />`.
    Expression,
}

/// A JSX attribute as written.
pub struct JsxAttribute {
    pub name: String,
    pub value_kind: JsxAttributeValueKind,
    /// The `{expression}`, when there is one.
    pub value: Option<Expr>,
}

/// An attribute value expression that may discriminate a union: a literal,
/// a name, or a member read off one.
pub open spec fn spec_possibly_discriminant_expression(e: Expr) -> bool
    decreases e,
{
    match e {
        Expr::StringLiteral(_) => true,
        Expr::NumberLiteral(_) => true,
        Expr::BigIntLiteral(_) => true,
        Expr::TemplateLiteral => true,
        Expr::BooleanLiteral(_) => true,
        Expr::NullLiteral => true,
        Expr::UndefinedLiteral => true,
        Expr::Identifier(_) => true,
        Expr::PropertyAccess { object, .. } => spec_possibly_discriminant_expression(*object),
        _ => false,
    }
}

/// tsc's `isPossiblyDiscriminantValue` for an attribute's initializer: the
/// shorthand, a string, an empty `{}`, or a possibly discriminant
/// expression.
pub open spec fn spec_is_possibly_discriminant_value(attribute: JsxAttribute) -> bool {
    match attribute.value_kind {
        JsxAttributeValueKind::BooleanShorthand => true,
        JsxAttributeValueKind::StringLiteral(_) => true,
        JsxAttributeValueKind::Expression => match attribute.value {
            Some(v) => spec_possibly_discriminant_expression(v),
            None => true,
        },
    }
}

fn possibly_discriminant_expression(e: &Expr) -> (r: bool)
    ensures
        r == spec_possibly_discriminant_expression(*e),
    decreases e,
{
    match e {
        Expr::StringLiteral(_) | Expr::NumberLiteral(_) | Expr::BigIntLiteral(_) | Expr::TemplateLiteral
        | Expr::BooleanLiteral(_) | Expr::NullLiteral | Expr::UndefinedLiteral | Expr::Identifier(_) => true,
        Expr::PropertyAccess { object, .. } => possibly_discriminant_expression(object),
        _ => false,
    }
}

/// See [`spec_is_possibly_discriminant_value`].
pub fn is_possibly_discriminant_value(attribute: &JsxAttribute) -> (r: bool)
    ensures
        r == spec_is_possibly_discriminant_value(*attribute),
{
    match &attribute.value_kind {
        JsxAttributeValueKind::BooleanShorthand | JsxAttributeValueKind::StringLiteral(_) => true,
        JsxAttributeValueKind::Expression => match &attribute.value {
            Some(v) => possibly_discriminant_expression(v),
            None => true,
        },
    }
}

} // verus!
