//! How a declaration's inferred type widens: `null` and `undefined` to `any`
//! without strict null checks, and object literals written together to one
//! shape.

use vstd::prelude::*;
use crate::aliases::view_strings;
use crate::guard_bindings::{push_unique, spec_push_unique};
use crate::types::{
    copy_properties, find_property, lemma_filter_take_step, opt_index, spec_find_index,
    spec_union, union_of, copy_type, lemma_view_properties, view_object, lemma_view_types, view_properties, view_property,
    view_type, view_types, ObjectProperty, ObjectType, SpecObject, SpecProperty, SpecType, Type,
};

verus! {

/// `null` or `undefined`: the types that widen to `any`.
pub open spec fn spec_widens_to_any(t: SpecType) -> bool {
    t is Null || t is Undefined
}

/// Whether a property of `props` is typed `null` or `undefined`.
pub open spec fn spec_has_widening_property(props: Seq<SpecProperty>) -> bool {
    exists|i: int| 0 <= i < props.len() && spec_widens_to_any(#[trigger] props[i].ty)
}

/// tsc's `getWidenedType` without strict null checks: `null` and `undefined`
/// become `any`, and so do array elements, tuple elements and the members of
/// an anonymous object shape one of whose properties is `null` or
/// `undefined`. Every other type is kept as it is.
pub open spec fn spec_widen_nullable(t: SpecType) -> SpecType
    decreases t, 0nat,
{
    match t {
        SpecType::Null => SpecType::Any,
        SpecType::Undefined => SpecType::Any,
        SpecType::Array(e) => SpecType::Array(Box::new(spec_widen_nullable(*e))),
        SpecType::Tuple(es) => SpecType::Tuple(spec_widen_nullable_seq(es)),
        SpecType::Object(o) => if o.alias_name is None && spec_has_widening_property(o.properties) {
            SpecType::Object(spec_widen_nullable_object(o))
        } else {
            SpecType::Object(o)
        },
        _ => t,
    }
}

/// Each element of `s` widened.
pub open spec fn spec_widen_nullable_seq(s: Seq<SpecType>) -> Seq<SpecType>
    decreases s, 1nat,
{
    if s.len() == 0 {
        Seq::empty()
    } else {
        spec_widen_nullable_seq(s.drop_last()).push(spec_widen_nullable(s.last()))
    }
}

/// An object shape whose properties are widened; its index signature,
/// call signature and open-index marker are kept.
pub open spec fn spec_widen_nullable_object(o: SpecObject) -> SpecObject
    decreases o, 1nat,
{
    SpecObject {
        properties: spec_widen_nullable_properties(o.properties),
        string_index: o.string_index,
        callable: o.callable,
        alias_name: o.alias_name,
        synthetic_open_index: o.synthetic_open_index,
    }
}

/// Each property of `s` with its type widened.
pub open spec fn spec_widen_nullable_properties(s: Seq<SpecProperty>) -> Seq<SpecProperty>
    decreases s, 1nat,
{
    if s.len() == 0 {
        Seq::empty()
    } else {
        spec_widen_nullable_properties(s.drop_last()).push(
            spec_widen_nullable_property(s.last()),
        )
    }
}

/// A property with its type widened.
pub open spec fn spec_widen_nullable_property(p: SpecProperty) -> SpecProperty
    decreases p, 1nat,
{
    SpecProperty {
        name: p.name,
        ty: spec_widen_nullable(p.ty),
        optional: p.optional,
        readonly: p.readonly,
        method: p.method,
    }
}

/// The widened sequence, element by element.
pub proof fn lemma_widen_nullable_seq(s: Seq<SpecType>)
    ensures
        spec_widen_nullable_seq(s).len() == s.len(),
        forall|i: int|
            0 <= i < s.len() ==> #[trigger] spec_widen_nullable_seq(s)[i] == spec_widen_nullable(
                s[i],
            ),
    decreases s.len(),
{
    if s.len() > 0 {
        lemma_widen_nullable_seq(s.drop_last());
    }
}

/// The widened properties, property by property.
pub proof fn lemma_widen_nullable_properties(s: Seq<SpecProperty>)
    ensures
        spec_widen_nullable_properties(s).len() == s.len(),
        forall|i: int|
            0 <= i < s.len() ==> #[trigger] spec_widen_nullable_properties(s)[i]
                == spec_widen_nullable_property(s[i]),
    decreases s.len(),
{
    if s.len() > 0 {
        lemma_widen_nullable_properties(s.drop_last());
    }
}

fn copy_index(index: &Option<Box<Type>>) -> (r: Option<Box<Type>>)
    ensures
        match (r, index) {
            (Some(a), Some(b)) => view_type(*a) == view_type(**b),
            (None, None) => true,
            _ => false,
        },
{
    match index {
        Some(t) => Some(Box::new(copy_type(t))),
        None => None,
    }
}

fn is_widening(t: &Type) -> (r: bool)
    ensures
        r == spec_widens_to_any(t@),
{
    match t {
        Type::Null | Type::Undefined => true,
        _ => false,
    }
}

fn has_widening_property(props: &Vec<ObjectProperty>) -> (r: bool)
    ensures
        r == spec_has_widening_property(view_properties(props@)),
{
    let ghost vs = view_properties(props@);
    proof {
        lemma_view_properties(props@);
    }
    let mut i: usize = 0;
    while i < props.len()
        invariant
            0 <= i <= props.len(),
            vs == view_properties(props@),
            vs.len() == props.len(),
            forall|j: int| 0 <= j < props.len() ==> #[trigger] vs[j] == view_property(props@[j]),
            forall|j: int| 0 <= j < i ==> !spec_widens_to_any(#[trigger] vs[j].ty),
        decreases props.len() - i,
    {
        if is_widening(&props[i].ty) {
            assert(spec_widens_to_any(vs[i as int].ty));
            return true;
        }
        i = i + 1;
    }
    false
}

fn widen_nullable_all(es: &Vec<Type>) -> (r: Vec<Type>)
    ensures
        view_types(r@) == spec_widen_nullable_seq(view_types(es@)),
    decreases es, 1nat,
{
    let ghost vs = view_types(es@);
    proof {
        lemma_view_types(es@);
        lemma_widen_nullable_seq(vs);
    }
    let mut out: Vec<Type> = Vec::new();
    let mut i: usize = 0;
    while i < es.len()
        invariant
            0 <= i <= es.len(),
            vs == view_types(es@),
            vs.len() == es.len(),
            forall|j: int| 0 <= j < es.len() ==> #[trigger] vs[j] == view_type(es@[j]),
            out@.len() == i,
            forall|j: int| 0 <= j < i ==> #[trigger] view_type(out@[j]) == spec_widen_nullable(vs[j]),
        decreases es.len() - i,
    {
        proof {
            assert(decreases_to!(*es => es@));
            assert(decreases_to!(es@ => es@[i as int]));
        }
        let w = widen_nullable(&es[i]);
        out.push(w);
        i = i + 1;
    }
    proof {
        lemma_view_types(out@);
        assert(view_types(out@) =~= spec_widen_nullable_seq(vs));
    }
    out
}

fn widen_nullable_properties(props: &Vec<ObjectProperty>) -> (r: Vec<ObjectProperty>)
    ensures
        view_properties(r@) == spec_widen_nullable_properties(view_properties(props@)),
    decreases props, 1nat,
{
    let ghost vs = view_properties(props@);
    proof {
        lemma_view_properties(props@);
        lemma_widen_nullable_properties(vs);
    }
    let mut out: Vec<ObjectProperty> = Vec::new();
    let mut i: usize = 0;
    while i < props.len()
        invariant
            0 <= i <= props.len(),
            vs == view_properties(props@),
            vs.len() == props.len(),
            forall|j: int| 0 <= j < props.len() ==> #[trigger] vs[j] == view_property(props@[j]),
            out@.len() == i,
            forall|j: int|
                0 <= j < i ==> #[trigger] view_property(out@[j]) == spec_widen_nullable_property(
                    vs[j],
                ),
        decreases props.len() - i,
    {
        let p = &props[i];
        proof {
            assert(decreases_to!(*props => props@));
            assert(decreases_to!(props@ => props@[i as int]));
            assert(decreases_to!(props@[i as int] => props@[i as int].ty));
        }
        let w = ObjectProperty {
            name: p.name.clone(),
            ty: widen_nullable(&p.ty),
            optional: p.optional,
            readonly: p.readonly,
            method: p.method,
        };
        out.push(w);
        i = i + 1;
    }
    proof {
        lemma_view_properties(out@);
        assert(view_properties(out@) =~= spec_widen_nullable_properties(vs));
    }
    out
}

fn widen_nullable(ty: &Type) -> (r: Type)
    ensures
        r@ == spec_widen_nullable(ty@),
    decreases ty, 0nat,
{
    match ty {
        Type::Null => Type::Any,
        Type::Undefined => Type::Any,
        Type::Array(e) => Type::Array(Box::new(widen_nullable(e))),
        Type::Tuple(es) => Type::Tuple(widen_nullable_all(es)),
        Type::Object(o) => {
            if o.alias_name.is_none() && has_widening_property(&o.properties) {
                proof {
                    assert(decreases_to!(*o => o.properties));
                }
                let widened = ObjectType {
                    properties: widen_nullable_properties(&o.properties),
                    string_index: copy_index(&o.string_index),
                    callable: o.callable,
                    alias_name: None,
                    synthetic_open_index: o.synthetic_open_index,
                };
                proof {
                    let vo = view_object(*o);
                    assert(ty@ == SpecType::Object(vo));
                    assert(vo.properties == view_properties(o.properties@));
                    assert(vo.alias_name is None);
                    let vw = view_object(widened);
                    assert(vw.properties == view_properties(widened.properties@));
                    assert(vw == spec_widen_nullable_object(vo));
                }
                Type::Object(widened)
            } else {
                copy_type(ty)
            }
        },
        _ => copy_type(ty),
    }
}

/// The type a declaration is given for an inferred `ty`: kept as it is under
/// strict null checks, widened by [`spec_widen_nullable`] otherwise.
pub fn widen_nullable_type(ty: &Type, strict_null_checks: bool) -> (r: Type)
    ensures
        r@ == (if strict_null_checks {
            ty@
        } else {
            spec_widen_nullable(ty@)
        }),
{
    if strict_null_checks {
        copy_type(ty)
    } else {
        widen_nullable(ty)
    }
}


/// An object shape written as a literal: anonymous, with no index signature,
/// call signature or open-index marker.
pub open spec fn spec_is_written_literal(t: SpecType) -> bool {
    match t {
        SpecType::Object(o) => o.alias_name is None && !o.synthetic_open_index
            && o.string_index is None && !o.callable,
        _ => false,
    }
}

/// The member test [`spec_is_written_literal`].
pub open spec fn written_literal_test() -> spec_fn(SpecType) -> bool {
    |m: SpecType| spec_is_written_literal(m)
}

/// `names` with the names of `props` it lacks appended, in order.
pub open spec fn spec_add_property_names(names: Seq<Seq<char>>, props: Seq<SpecProperty>) -> Seq<Seq<char>>
    decreases props.len(),
{
    if props.len() == 0 {
        names
    } else {
        spec_push_unique(spec_add_property_names(names, props.drop_last()), props.last().name)
    }
}

/// The property names the written object literals among `members` declare,
/// each once, in the order they are first written.
pub open spec fn spec_literal_names(members: Seq<SpecType>) -> Seq<Seq<char>>
    decreases members.len(),
{
    if members.len() == 0 {
        Seq::empty()
    } else {
        let names = spec_literal_names(members.drop_last());
        match members.last() {
            SpecType::Object(o) => if spec_is_written_literal(members.last()) {
                spec_add_property_names(names, o.properties)
            } else {
                names
            },
            _ => names,
        }
    }
}

/// `name?: undefined`.
pub open spec fn spec_optional_undefined(name: Seq<char>) -> SpecProperty {
    SpecProperty { name, ty: SpecType::Undefined, optional: true, readonly: false, method: false }
}

/// `props` with each of `names` it lacks appended as `name?: undefined`.
pub open spec fn spec_pad_properties(props: Seq<SpecProperty>, names: Seq<Seq<char>>) -> Seq<SpecProperty>
    decreases names.len(),
{
    if names.len() == 0 {
        props
    } else {
        let padded = spec_pad_properties(props, names.drop_last());
        if spec_find_index(padded, names.last()) is Some {
            padded
        } else {
            padded.push(spec_optional_undefined(names.last()))
        }
    }
}

/// A union member as object literals written together leave it: a written
/// literal gains the names it lacks; any other member is kept.
pub open spec fn spec_normalize_member(m: SpecType, names: Seq<Seq<char>>) -> SpecType {
    match m {
        SpecType::Object(o) => if spec_is_written_literal(m) {
            SpecType::Object(
                SpecObject {
                    properties: spec_pad_properties(o.properties, names),
                    string_index: None,
                    callable: false,
                    alias_name: None,
                    synthetic_open_index: false,
                },
            )
        } else {
            m
        },
        _ => m,
    }
}

/// tsc's `getWidenedTypeOfObjectLiteral` on a union (or an array of one)
/// holding two or more written object literals: each of them gains, as
/// `name?: undefined`, the names its siblings write. A union with fewer, and
/// any other type, is kept.
pub open spec fn spec_normalize_object_literal_union(t: SpecType) -> SpecType
    decreases t,
{
    match t {
        SpecType::Array(e) => SpecType::Array(Box::new(spec_normalize_object_literal_union(*e))),
        SpecType::Union(ms) => if ms.filter(written_literal_test()).len() < 2 {
            t
        } else {
            let names = spec_literal_names(ms);
            spec_union(ms.map_values(|m: SpecType| spec_normalize_member(m, names)))
        },
        _ => t,
    }
}

fn is_written_literal(t: &Type) -> (r: bool)
    ensures
        r == spec_is_written_literal(t@),
{
    match t {
        Type::Object(o) => {
            proof {
                assert(t@ == SpecType::Object(view_object(*o)));
            }
            o.alias_name.is_none() && !o.synthetic_open_index && o.string_index.is_none()
                && !o.callable
        },
        _ => false,
    }
}

fn add_property_names(names: &mut Vec<String>, props: &Vec<ObjectProperty>)
    ensures
        view_strings(final(names)@) == spec_add_property_names(
            view_strings(old(names)@),
            view_properties(props@),
        ),
{
    let ghost start = view_strings(names@);
    let ghost vs = view_properties(props@);
    proof {
        lemma_view_properties(props@);
    }
    let mut i: usize = 0;
    while i < props.len()
        invariant
            0 <= i <= props.len(),
            vs == view_properties(props@),
            vs.len() == props.len(),
            forall|j: int| 0 <= j < props.len() ==> #[trigger] vs[j] == view_property(props@[j]),
            view_strings(names@) == spec_add_property_names(start, vs.take(i as int)),
        decreases props.len() - i,
    {
        proof {
            assert(vs.take(i + 1).drop_last() =~= vs.take(i as int));
            assert(vs.take(i + 1).last() == vs[i as int]);
        }
        push_unique(names, props[i].name.clone());
        i = i + 1;
    }
    assert(vs.take(props.len() as int) =~= vs);
}

fn literal_names(ms: &Vec<Type>) -> (r: (Vec<String>, usize))
    ensures
        view_strings(r.0@) == spec_literal_names(view_types(ms@)),
        r.1 == view_types(ms@).filter(written_literal_test()).len(),
{
    let ghost vs = view_types(ms@);
    let ghost pred = written_literal_test();
    proof {
        lemma_view_types(ms@);
    }
    let mut names: Vec<String> = Vec::new();
    let mut count: usize = 0;
    let mut i: usize = 0;
    assert(view_strings(names@) =~= Seq::<Seq<char>>::empty());
    while i < ms.len()
        invariant
            0 <= i <= ms.len(),
            vs == view_types(ms@),
            vs.len() == ms.len(),
            pred == written_literal_test(),
            forall|j: int| 0 <= j < ms.len() ==> #[trigger] vs[j] == view_type(ms@[j]),
            view_strings(names@) == spec_literal_names(vs.take(i as int)),
            count == vs.take(i as int).filter(pred).len(),
            count <= i,
        decreases ms.len() - i,
    {
        proof {
            assert(vs.take(i + 1).drop_last() =~= vs.take(i as int));
            assert(vs.take(i + 1).last() == vs[i as int]);
            lemma_filter_take_step(vs, i as int, pred);
        }
        let m = &ms[i];
        if is_written_literal(m) {
            count = count + 1;
            match m {
                Type::Object(o) => {
                    proof {
                        assert(vs[i as int] == SpecType::Object(view_object(*o)));
                        assert(view_object(*o).properties == view_properties(o.properties@));
                    }
                    add_property_names(&mut names, &o.properties);
                },
                _ => {},
            }
        }
        i = i + 1;
    }
    assert(vs.take(ms.len() as int) =~= vs);
    (names, count)
}

fn pad_properties(props: &Vec<ObjectProperty>, names: &Vec<String>) -> (r: Vec<ObjectProperty>)
    ensures
        view_properties(r@) == spec_pad_properties(view_properties(props@), view_strings(names@)),
{
    let ghost ns = view_strings(names@);
    let ghost base = view_properties(props@);
    let mut out = copy_properties(props);
    let mut k: usize = 0;
    while k < names.len()
        invariant
            0 <= k <= names.len(),
            ns == view_strings(names@),
            base == view_properties(props@),
            view_properties(out@) == spec_pad_properties(base, ns.take(k as int)),
        decreases names.len() - k,
    {
        proof {
            assert(ns.take(k + 1).drop_last() =~= ns.take(k as int));
            assert(ns.take(k + 1).last() == ns[k as int]);
            assert(ns[k as int] == names@[k as int]@);
        }
        let found = find_property(&out, names[k].as_str());
        if found.is_none() {
            let p = ObjectProperty {
                name: names[k].clone(),
                ty: Type::Undefined,
                optional: true,
                readonly: false,
                method: false,
            };
            proof {
                crate::types::lemma_view_properties_push(out@, p);
            }
            out.push(p);
        }
        k = k + 1;
    }
    assert(ns.take(names.len() as int) =~= ns);
    out
}

fn normalize_member(m: &Type, names: &Vec<String>) -> (r: Type)
    ensures
        r@ == spec_normalize_member(m@, view_strings(names@)),
{
    match m {
        Type::Object(o) => {
            if is_written_literal(m) {
                let padded = ObjectType {
                    properties: pad_properties(&o.properties, names),
                    string_index: None,
                    callable: false,
                    alias_name: None,
                    synthetic_open_index: false,
                };
                proof {
                    let vo = view_object(*o);
                    assert(m@ == SpecType::Object(vo));
                    assert(vo.properties == view_properties(o.properties@));
                    let vp = view_object(padded);
                    assert(vp.properties == view_properties(padded.properties@));
                }
                Type::Object(padded)
            } else {
                copy_type(m)
            }
        },
        _ => copy_type(m),
    }
}

/// See [`spec_normalize_object_literal_union`].
pub fn normalize_object_literal_union(ty: &Type) -> (r: Type)
    ensures
        r@ == spec_normalize_object_literal_union(ty@),
    decreases ty,
{
    match ty {
        Type::Array(e) => Type::Array(Box::new(normalize_object_literal_union(e))),
        Type::Union(ms) => {
            let (names, literals) = literal_names(ms);
            if literals < 2 {
                return copy_type(ty);
            }
            let ghost vs = view_types(ms@);
            let ghost ns = view_strings(names@);
            proof {
                lemma_view_types(ms@);
            }
            let mut out: Vec<Type> = Vec::new();
            let mut i: usize = 0;
            while i < ms.len()
                invariant
                    0 <= i <= ms.len(),
                    vs == view_types(ms@),
                    vs.len() == ms.len(),
                    ns == view_strings(names@),
                    forall|j: int| 0 <= j < ms.len() ==> #[trigger] vs[j] == view_type(ms@[j]),
                    out@.len() == i,
                    forall|j: int|
                        0 <= j < i ==> #[trigger] view_type(out@[j]) == spec_normalize_member(
                            vs[j],
                            ns,
                        ),
                decreases ms.len() - i,
            {
                let n = normalize_member(&ms[i], &names);
                out.push(n);
                i = i + 1;
            }
            proof {
                lemma_view_types(out@);
                assert(view_types(out@) =~= vs.map_values(
                    |m: SpecType| spec_normalize_member(m, ns),
                ));
            }
            union_of(out)
        },
        _ => copy_type(ty),
    }
}


/// Appending names keeps those already there and adds each name of `props`.
pub proof fn lemma_add_property_names(names: Seq<Seq<char>>, props: Seq<SpecProperty>)
    ensures
        forall|n: Seq<char>| names.contains(n) ==> #[trigger] spec_add_property_names(names, props).contains(n),
        forall|k: int| 0 <= k < props.len() ==> spec_add_property_names(names, props).contains(
            #[trigger] props[k].name,
        ),
    decreases props.len(),
{
    if props.len() > 0 {
        let front = props.drop_last();
        lemma_add_property_names(names, front);
        let before = spec_add_property_names(names, front);
        let after = spec_add_property_names(names, props);
        assert(after == spec_push_unique(before, props.last().name));
        assert forall|n: Seq<char>| before.contains(n) implies after.contains(n) by {
            if !before.contains(props.last().name) {
                let w = choose|w: int| 0 <= w < before.len() && before[w] == n;
                assert(after[w] == n);
            }
        }
        assert forall|k: int| 0 <= k < props.len() implies after.contains(#[trigger] props[k].name) by {
            if k < props.len() - 1 {
                assert(props[k] == front[k]);
                assert(before.contains(front[k].name));
            } else if !before.contains(props.last().name) {
                assert(after[before.len() as int] == props.last().name);
            }
        }
    }
}

/// The names collected from a union include every name a written literal in
/// it declares.
pub proof fn lemma_literal_names(members: Seq<SpecType>, j: int, k: int)
    requires
        0 <= j < members.len(),
        spec_is_written_literal(members[j]),
        members[j] matches SpecType::Object(o) && 0 <= k < o.properties.len(),
    ensures
        members[j] matches SpecType::Object(o) && spec_literal_names(members).contains(
            o.properties[k].name,
        ),
    decreases members.len(),
{
    let front = members.drop_last();
    let names = spec_literal_names(front);
    if j < members.len() - 1 {
        assert(members[j] == front[j]);
        lemma_literal_names(front, j, k);
        match members.last() {
            SpecType::Object(o) => {
                lemma_add_property_names(names, o.properties);
            },
            _ => {},
        }
    } else {
        match members.last() {
            SpecType::Object(o) => {
                lemma_add_property_names(names, o.properties);
            },
            _ => {},
        }
    }
}

/// Finding a name in a property list with one property appended.
pub proof fn lemma_find_index_push(s: Seq<SpecProperty>, p: SpecProperty, name: Seq<char>)
    ensures
        spec_find_index(s.push(p), name) == (match spec_find_index(s, name) {
            Some(i) => Some(i),
            None => if p.name == name {
                Some(s.len() as int)
            } else {
                None
            },
        }),
{
    assert(s.push(p).drop_last() =~= s);
}

/// Padding keeps the properties as written, in front, and declares every one
/// of the names.
pub proof fn lemma_pad_properties(props: Seq<SpecProperty>, names: Seq<Seq<char>>)
    ensures
        spec_pad_properties(props, names).len() >= props.len(),
        spec_pad_properties(props, names).subrange(0, props.len() as int) == props,
        forall|n: Seq<char>| #[trigger] names.contains(n) ==> spec_find_index(
            spec_pad_properties(props, names),
            n,
        ) is Some,
    decreases names.len(),
{
    if names.len() > 0 {
        let front = names.drop_last();
        lemma_pad_properties(props, front);
        let padded = spec_pad_properties(props, front);
        let last = names.last();
        if spec_find_index(padded, last) is None {
            let q = spec_optional_undefined(last);
            assert forall|n: Seq<char>| #[trigger] names.contains(n) implies spec_find_index(
                padded.push(q),
                n,
            ) is Some by {
                lemma_find_index_push(padded, q, n);
                if n != last {
                    let w = choose|w: int| 0 <= w < names.len() && names[w] == n;
                    assert(front[w] == n);
                    assert(front.contains(n));
                }
            }
            assert(padded.push(q).subrange(0, props.len() as int) =~= padded.subrange(
                0,
                props.len() as int,
            ));
        } else {
            assert forall|n: Seq<char>| #[trigger] names.contains(n) implies spec_find_index(
                padded,
                n,
            ) is Some by {
                if n != last {
                    let w = choose|w: int| 0 <= w < names.len() && names[w] == n;
                    assert(front[w] == n);
                    assert(front.contains(n));
                }
            }
        }
    }
}

} // verus!
