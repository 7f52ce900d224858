//! `"prop" in x` guards.

use vstd::prelude::*;
use crate::syntax::Expr;
use crate::text::{chars_are, chars_of, chars_start_with};
use crate::types::{
    copy_object, copy_type, find_property, lemma_peel_height, lemma_seq_height, lemma_view_types,
    lemma_view_types_push, opt_view, peeled, seq_height, set_property, spec_find_index,
    spec_peel, spec_set_property, spec_union, type_eq, type_height, union_of, view_object,
    view_properties, view_property, view_type, view_types, ObjectProperty, ObjectType, SpecObject,
    SpecProperty, SpecType, Type,
};

verus! {

/// What a union member proves about `"prop" in value`.
#[derive(PartialEq, Eq, Structural, Clone, Copy, Debug)]
pub enum PropertyPresence {
    /// Declared and required: every value of the member has the key.
    Required,
    /// Declared optional: the key may or may not be there, so the member
    /// survives both branches.
    Optional,
    Absent,
    /// Not statically decidable (a string index signature, a non-object member).
    Undecidable,
}

/// Whether `property` spells a well-known symbol key (`[Symbol.iterator]`).
pub open spec fn spec_is_symbol_key(property: Seq<char>) -> bool {
    property.len() >= 8 && property.take(8) == "[Symbol."@
}

/// What `member` proves about `"property" in value`.
pub open spec fn spec_property_presence_of(member: SpecType, property: Seq<char>) -> PropertyPresence {
    match member {
        SpecType::Object(o) => match spec_find_index(o.properties, property) {
            Some(i) => if o.properties[i].optional {
                PropertyPresence::Optional
            } else {
                PropertyPresence::Required
            },
            None => if o.string_index is Some && (!spec_is_symbol_key(property)
                || o.synthetic_open_index) {
                PropertyPresence::Undecidable
            } else {
                PropertyPresence::Absent
            },
        },
        SpecType::Null | SpecType::Undefined | SpecType::Void => PropertyPresence::Absent,
        _ => PropertyPresence::Undecidable,
    }
}

/// See [`spec_property_presence_of`].
pub fn property_presence_of(member: &Type, property: &str) -> (r: PropertyPresence)
    ensures
        r == spec_property_presence_of(member@, property@),
{
    match member {
        Type::Object(o) => {
            assert(member@ == SpecType::Object(view_object(*o)));
            proof {
                crate::types::lemma_view_properties(o.properties@);
            }
            match find_property(&o.properties, property) {
                Some(i) => if o.properties[i].optional {
                    PropertyPresence::Optional
                } else {
                    PropertyPresence::Required
                },
                None => {
                    let p = chars_of(property);
                    let prefix = chars_of("[Symbol.");
                    proof {
                        assert(prefix@.len() == 8) by {
                            reveal_strlit("[Symbol.");
                        }
                    }
                    let symbol_key = chars_start_with(&p, &prefix);
                    if o.string_index.is_some() && (!symbol_key || o.synthetic_open_index) {
                        PropertyPresence::Undecidable
                    } else {
                        PropertyPresence::Absent
                    }
                },
            }
        },
        Type::Null | Type::Undefined | Type::Void => PropertyPresence::Absent,
        _ => PropertyPresence::Undecidable,
    }
}

/// Whether a member with `presence` survives the branch.
pub open spec fn spec_presence_survives(presence: PropertyPresence, keep_present: bool) -> bool {
    match presence {
        PropertyPresence::Required => keep_present,
        PropertyPresence::Absent => !keep_present,
        PropertyPresence::Optional | PropertyPresence::Undecidable => true,
    }
}

/// The outcome of narrowing one member.
pub enum PresenceNarrowing {
    Kept,
    Removed,
    Narrowed(Type),
}

/// The mathematical value of a [`PresenceNarrowing`].
pub enum SpecPresenceNarrowing {
    Kept,
    Removed,
    Narrowed(SpecType),
}

impl View for PresenceNarrowing {
    type V = SpecPresenceNarrowing;

    open spec fn view(&self) -> SpecPresenceNarrowing {
        match self {
            PresenceNarrowing::Kept => SpecPresenceNarrowing::Kept,
            PresenceNarrowing::Removed => SpecPresenceNarrowing::Removed,
            PresenceNarrowing::Narrowed(t) => SpecPresenceNarrowing::Narrowed(t@),
        }
    }
}

/// Decides one union member. Named aliases are looked through, and an alias of
/// a union is narrowed constituent by constituent; the unpeeled member is what
/// survives when nothing was dropped, so its nominal name stays.
pub open spec fn spec_narrow_member_by_property_presence(member: SpecType, property: Seq<char>, keep_present: bool) -> SpecPresenceNarrowing
    decreases type_height(member), 0nat, 0nat,
{
    let p = spec_peel(member);
    proof {
        lemma_peel_height(member);
    }
    match p {
        SpecType::Union(inner) => {
            let (kept, changed) = spec_presence_over(inner, property, keep_present);
            if !changed {
                SpecPresenceNarrowing::Kept
            } else if kept.len() == 0 {
                SpecPresenceNarrowing::Removed
            } else {
                SpecPresenceNarrowing::Narrowed(spec_union(kept))
            }
        },
        _ => if spec_presence_survives(spec_property_presence_of(p, property), keep_present) {
            SpecPresenceNarrowing::Kept
        } else {
            SpecPresenceNarrowing::Removed
        },
    }
}

/// Narrows each member of `s` in turn: the members kept (narrowed where that
/// changed them) and whether anything changed.
pub open spec fn spec_presence_over(s: Seq<SpecType>, property: Seq<char>, keep_present: bool) -> (Seq<SpecType>, bool)
    decreases seq_height(s), 1nat, s.len(),
{
    if s.len() == 0 {
        (Seq::empty(), false)
    } else {
        proof {
            lemma_seq_height(s);
        }
        let (kept, changed) = spec_presence_over(s.drop_last(), property, keep_present);
        match spec_narrow_member_by_property_presence(s.last(), property, keep_present) {
            SpecPresenceNarrowing::Kept => (kept.push(s.last()), changed),
            SpecPresenceNarrowing::Removed => (kept, true),
            SpecPresenceNarrowing::Narrowed(n) => (kept.push(n), true),
        }
    }
}

/// See [`spec_narrow_member_by_property_presence`].
pub fn narrow_member_by_property_presence(member: &Type, property: &str, keep_present: bool) -> (r: PresenceNarrowing)
    ensures
        r@ == spec_narrow_member_by_property_presence(member@, property@, keep_present),
    decreases type_height(member@), 0nat,
{
    let p = peeled(member);
    proof {
        lemma_peel_height(member@);
    }
    match p {
        Type::Union(inner) => {
            let ghost s = view_types(inner@);
            proof {
                lemma_view_types(inner@);
                lemma_seq_height(s);
            }
            let mut kept: Vec<Type> = Vec::new();
            let mut changed = false;
            let mut i: usize = 0;
            while i < inner.len()
                invariant
                    0 <= i <= inner.len(),
                    s == view_types(inner@),
                    s.len() == inner.len(),
                    p@ == SpecType::Union(s),
                    p@ == spec_peel(member@),
                    type_height(spec_peel(member@)) <= type_height(member@),
                    forall|j: int| 0 <= j < inner.len() ==> #[trigger] s[j] == view_type(inner@[j]),
                    forall|j: int| 0 <= j < s.len() ==> type_height(#[trigger] s[j]) <= seq_height(s),
                    (view_types(kept@), changed) == spec_presence_over(s.take(i as int), property@, keep_present),
                decreases inner.len() - i,
            {
                let c = &inner[i];
                proof {
                    assert(s.take(i + 1).drop_last() =~= s.take(i as int));
                    assert(s.take(i + 1).last() == s[i as int]);
                    assert(type_height(c@) < type_height(member@));
                }
                match narrow_member_by_property_presence(c, property, keep_present) {
                    PresenceNarrowing::Kept => {
                        let copy = copy_type(c);
                        proof {
                            lemma_view_types_push(kept@, copy);
                        }
                        kept.push(copy);
                    },
                    PresenceNarrowing::Removed => {
                        changed = true;
                    },
                    PresenceNarrowing::Narrowed(n) => {
                        changed = true;
                        proof {
                            lemma_view_types_push(kept@, n);
                        }
                        kept.push(n);
                    },
                }
                i = i + 1;
            }
            assert(s.take(inner.len() as int) =~= s);
            proof {
                lemma_view_types(kept@);
            }
            if !changed {
                PresenceNarrowing::Kept
            } else if kept.len() == 0 {
                PresenceNarrowing::Removed
            } else {
                PresenceNarrowing::Narrowed(union_of(kept))
            }
        },
        _ => {
            let presence = property_presence_of(p, property);
            let survives = match presence {
                PropertyPresence::Required => keep_present,
                PropertyPresence::Absent => !keep_present,
                PropertyPresence::Optional | PropertyPresence::Undecidable => true,
            };
            if survives {
                PresenceNarrowing::Kept
            } else {
                PresenceNarrowing::Removed
            }
        },
    }
}

/// Members every object answers through `Object.prototype`: testing them
/// proves nothing new.
pub open spec fn spec_is_object_prototype_member(property: Seq<char>) -> bool {
    property == "toString"@ || property == "toLocaleString"@ || property == "valueOf"@ || property
        == "hasOwnProperty"@ || property == "isPrototypeOf"@ || property
        == "propertyIsEnumerable"@ || property == "constructor"@ || property == "__proto__"@
}

/// See [`spec_is_object_prototype_member`].
pub fn is_object_prototype_member(property: &str) -> (r: bool)
    ensures
        r == spec_is_object_prototype_member(property@),
{
    let p = chars_of(property);
    chars_are(&p, "toString") || chars_are(&p, "toLocaleString") || chars_are(&p, "valueOf")
        || chars_are(&p, "hasOwnProperty") || chars_are(&p, "isPrototypeOf") || chars_are(
        &p,
        "propertyIsEnumerable",
    ) || chars_are(&p, "constructor") || chars_are(&p, "__proto__")
}

/// Whether some constituent of `ty` can have `property`: it declares it, or an
/// index signature may answer it.
pub open spec fn spec_presence_possible(ty: SpecType, property: Seq<char>) -> bool
    decreases type_height(ty), 0nat, 0nat,
{
    let p = spec_peel(ty);
    proof {
        lemma_peel_height(ty);
    }
    match p {
        SpecType::Union(ms) => spec_presence_possible_any(ms, property),
        SpecType::Object(_) => spec_property_presence_of(p, property) != PropertyPresence::Absent,
        _ => false,
    }
}

/// Whether some member of `s` can have `property`.
pub open spec fn spec_presence_possible_any(s: Seq<SpecType>, property: Seq<char>) -> bool
    decreases seq_height(s), 1nat, s.len(),
{
    if s.len() == 0 {
        false
    } else {
        proof {
            lemma_seq_height(s);
        }
        spec_presence_possible_any(s.drop_last(), property) || spec_presence_possible(
            s.last(),
            property,
        )
    }
}

/// See [`spec_presence_possible`].
pub fn presence_possible(ty: &Type, property: &str) -> (r: bool)
    ensures
        r == spec_presence_possible(ty@, property@),
    decreases type_height(ty@), 0nat,
{
    let p = peeled(ty);
    proof {
        lemma_peel_height(ty@);
    }
    match p {
        Type::Union(ms) => {
            let ghost s = view_types(ms@);
            proof {
                lemma_view_types(ms@);
                lemma_seq_height(s);
            }
            let mut found = false;
            let mut i: usize = 0;
            while i < ms.len()
                invariant
                    0 <= i <= ms.len(),
                    s == view_types(ms@),
                    s.len() == ms.len(),
                    p@ == SpecType::Union(s),
                    p@ == spec_peel(ty@),
                    type_height(spec_peel(ty@)) <= type_height(ty@),
                    forall|j: int| 0 <= j < ms.len() ==> #[trigger] s[j] == view_type(ms@[j]),
                    forall|j: int| 0 <= j < s.len() ==> type_height(#[trigger] s[j]) <= seq_height(s),
                    found == spec_presence_possible_any(s.take(i as int), property@),
                decreases ms.len() - i,
            {
                proof {
                    assert(s.take(i + 1).drop_last() =~= s.take(i as int));
                    assert(s.take(i + 1).last() == s[i as int]);
                    assert(type_height(ms@[i as int]@) < type_height(ty@));
                }
                let here = presence_possible(&ms[i], property);
                found = found || here;
                i = i + 1;
            }
            assert(s.take(ms.len() as int) =~= s);
            found
        },
        Type::Object(_) => property_presence_of(p, property) != PropertyPresence::Absent,
        _ => false,
    }
}

/// An object that learned `property` is present, typed `unknown`: the shape
/// with the property stored (see [`spec_set_property`]), no call signature and
/// no alias name. A type variable or a non-object learns nothing here.
pub open spec fn spec_with_unknown_property(member: SpecType, property: Seq<char>) -> Option<SpecType> {
    match spec_peel(member) {
        SpecType::Object(o) => Some(
            SpecType::Object(
                SpecObject {
                    properties: spec_set_property(
                        o.properties,
                        SpecProperty {
                            name: property,
                            ty: SpecType::GenuineUnknown,
                            optional: false,
                            readonly: false,
                            method: false,
                        },
                    ),
                    string_index: o.string_index,
                    callable: false,
                    alias_name: None,
                    synthetic_open_index: false,
                },
            ),
        ),
        _ => None,
    }
}

/// See [`spec_with_unknown_property`].
pub fn with_unknown_property(member: &Type, property: &str) -> (r: Option<Type>)
    ensures
        opt_view(r) == spec_with_unknown_property(member@, property@),
{
    let p = peeled(member);
    match p {
        Type::Object(o) => {
            assert(p@ == SpecType::Object(view_object(*o)));
            let copy = copy_object(o);
            let mut properties = copy.properties;
            let name = String::from_str(property);
            let added = ObjectProperty {
                name,
                ty: Type::GenuineUnknown,
                optional: false,
                readonly: false,
                method: false,
            };
            assert(view_type(Type::GenuineUnknown) == SpecType::GenuineUnknown);
            set_property(&mut properties, added);
            let object = ObjectType {
                properties,
                string_index: copy.string_index,
                callable: false,
                alias_name: None,
                synthetic_open_index: false,
            };
            let result = Type::Object(object);
            assert(result@ == SpecType::Object(view_object(object)));
            Some(result)
        },
        _ => None,
    }
}

/// Narrowing by `"property" in ty` (tsc's `narrowTypeByInKeyword`): when some
/// constituent can have the key, each constituent is kept or dropped by what it
/// proves (`never` when nothing is left); otherwise only the true branch
/// learns the key, as an `unknown` property on each object member.
pub open spec fn spec_narrow_union_by_property_presence(ty: SpecType, property: Seq<char>, keep_present: bool) -> Option<SpecType> {
    let p = spec_peel(ty);
    if spec_presence_possible(p, property) {
        match spec_narrow_member_by_property_presence(ty, property, keep_present) {
            SpecPresenceNarrowing::Kept => None,
            SpecPresenceNarrowing::Removed => Some(SpecType::Never),
            SpecPresenceNarrowing::Narrowed(n) => Some(n),
        }
    } else if !keep_present || spec_is_object_prototype_member(property) {
        None
    } else {
        match p {
            SpecType::Union(ms) => {
                let narrowed = spec_union(
                    ms.map_values(
                        |m: SpecType|
                            match spec_with_unknown_property(m, property) {
                                Some(n) => n,
                                None => m,
                            },
                    ),
                );
                if narrowed != p {
                    Some(narrowed)
                } else {
                    None
                }
            },
            _ => spec_with_unknown_property(p, property),
        }
    }
}

/// See [`spec_narrow_union_by_property_presence`].
pub fn narrow_union_by_property_presence(ty: &Type, property: &str, keep_present: bool) -> (r: Option<Type>)
    ensures
        opt_view(r) == spec_narrow_union_by_property_presence(ty@, property@, keep_present),
{
    let p = peeled(ty);
    if presence_possible(p, property) {
        return match narrow_member_by_property_presence(ty, property, keep_present) {
            PresenceNarrowing::Kept => None,
            PresenceNarrowing::Removed => Some(Type::Never),
            PresenceNarrowing::Narrowed(n) => Some(n),
        };
    }
    if !keep_present || is_object_prototype_member(property) {
        return None;
    }
    match p {
        Type::Union(ms) => {
            let ghost s = view_types(ms@);
            let ghost f = |m: SpecType|
                match spec_with_unknown_property(m, property@) {
                    Some(n) => n,
                    None => m,
                };
            proof {
                lemma_view_types(ms@);
            }
            let mut members: Vec<Type> = Vec::new();
            let mut i: usize = 0;
            while i < ms.len()
                invariant
                    0 <= i <= ms.len(),
                    s == view_types(ms@),
                    s.len() == ms.len(),
                    forall|j: int| 0 <= j < ms.len() ==> #[trigger] s[j] == view_type(ms@[j]),
                    f == (|m: SpecType|
                        match spec_with_unknown_property(m, property@) {
                            Some(n) => n,
                            None => m,
                        }),
                    view_types(members@) == s.take(i as int).map_values(f),
                decreases ms.len() - i,
            {
                let m = match with_unknown_property(&ms[i], property) {
                    Some(n) => n,
                    None => copy_type(&ms[i]),
                };
                proof {
                    lemma_view_types_push(members@, m);
                    assert(s.take(i + 1).map_values(f) =~= s.take(i as int).map_values(f).push(
                        f(s[i as int]),
                    ));
                }
                members.push(m);
                i = i + 1;
            }
            assert(s.take(ms.len() as int) =~= s);
            let narrowed = union_of(members);
            if !type_eq(&narrowed, p) {
                Some(narrowed)
            } else {
                None
            }
        },
        _ => with_unknown_property(p, property),
    }
}

/// The property name a `"p" in x` test names: a string literal, a number
/// literal in canonical decimal form, or a well-known symbol (`Symbol.iterator`).
pub open spec fn spec_in_property_name(left: Expr) -> Option<Seq<char>> {
    match left {
        Expr::StringLiteral(s) => Some(s@),
        Expr::NumberLiteral(s) => if spec_is_canonical_integer(s@) {
            Some(s@)
        } else {
            None
        },
        Expr::PropertyAccess { object, property_name } => match *object {
            Expr::Identifier(name) => if name@ == "Symbol"@ {
                spec_well_known_symbol_key(property_name@)
            } else {
                None
            },
            _ => None,
        },
        _ => None,
    }
}

/// A decimal integer as JavaScript prints it: digits only, no leading zero
/// unless it is `0` itself.
pub open spec fn spec_is_canonical_integer(s: Seq<char>) -> bool {
    s.len() > 0 && (forall|i: int| 0 <= i < s.len() ==> '0' <= #[trigger] s[i] <= '9') && (s[0]
        != '0' || s.len() == 1)
}

fn is_canonical_integer(s: &Vec<char>) -> (r: bool)
    ensures
        r == spec_is_canonical_integer(s@),
{
    if s.len() == 0 {
        return false;
    }
    let mut i: usize = 0;
    while i < s.len()
        invariant
            0 <= i <= s.len(),
            forall|j: int| 0 <= j < i ==> '0' <= #[trigger] s@[j] <= '9',
        decreases s.len() - i,
    {
        if s[i] < '0' || s[i] > '9' {
            return false;
        }
        i = i + 1;
    }
    s[0] != '0' || s.len() == 1
}

/// The computed key a well-known symbol names.
pub open spec fn spec_well_known_symbol_key(name: Seq<char>) -> Option<Seq<char>> {
    if name == "asyncDispose"@ {
        Some("[Symbol.asyncDispose]"@)
    } else if name == "asyncIterator"@ {
        Some("[Symbol.asyncIterator]"@)
    } else if name == "dispose"@ {
        Some("[Symbol.dispose]"@)
    } else if name == "hasInstance"@ {
        Some("[Symbol.hasInstance]"@)
    } else if name == "isConcatSpreadable"@ {
        Some("[Symbol.isConcatSpreadable]"@)
    } else if name == "iterator"@ {
        Some("[Symbol.iterator]"@)
    } else if name == "match"@ {
        Some("[Symbol.match]"@)
    } else if name == "matchAll"@ {
        Some("[Symbol.matchAll]"@)
    } else if name == "replace"@ {
        Some("[Symbol.replace]"@)
    } else if name == "search"@ {
        Some("[Symbol.search]"@)
    } else if name == "species"@ {
        Some("[Symbol.species]"@)
    } else if name == "split"@ {
        Some("[Symbol.split]"@)
    } else if name == "toPrimitive"@ {
        Some("[Symbol.toPrimitive]"@)
    } else if name == "toStringTag"@ {
        Some("[Symbol.toStringTag]"@)
    } else if name == "unscopables"@ {
        Some("[Symbol.unscopables]"@)
    } else {
        None
    }
}

/// See [`spec_well_known_symbol_key`].
pub fn well_known_symbol_key(name: &str) -> (r: Option<&'static str>)
    ensures
        match r {
            Some(k) => spec_well_known_symbol_key(name@) == Some(k@),
            None => spec_well_known_symbol_key(name@) is None,
        },
{
    let n = chars_of(name);
    if chars_are(&n, "asyncDispose") {
        Some("[Symbol.asyncDispose]")
    } else if chars_are(&n, "asyncIterator") {
        Some("[Symbol.asyncIterator]")
    } else if chars_are(&n, "dispose") {
        Some("[Symbol.dispose]")
    } else if chars_are(&n, "hasInstance") {
        Some("[Symbol.hasInstance]")
    } else if chars_are(&n, "isConcatSpreadable") {
        Some("[Symbol.isConcatSpreadable]")
    } else if chars_are(&n, "iterator") {
        Some("[Symbol.iterator]")
    } else if chars_are(&n, "match") {
        Some("[Symbol.match]")
    } else if chars_are(&n, "matchAll") {
        Some("[Symbol.matchAll]")
    } else if chars_are(&n, "replace") {
        Some("[Symbol.replace]")
    } else if chars_are(&n, "search") {
        Some("[Symbol.search]")
    } else if chars_are(&n, "species") {
        Some("[Symbol.species]")
    } else if chars_are(&n, "split") {
        Some("[Symbol.split]")
    } else if chars_are(&n, "toPrimitive") {
        Some("[Symbol.toPrimitive]")
    } else if chars_are(&n, "toStringTag") {
        Some("[Symbol.toStringTag]")
    } else if chars_are(&n, "unscopables") {
        Some("[Symbol.unscopables]")
    } else {
        None
    }
}

/// A `"property" in object` test: the object expression and the property name.
pub open spec fn spec_parse_in_condition(condition: Expr) -> Option<(Expr, Seq<char>)> {
    match condition {
        Expr::Binary { left, operator, right } => if operator == crate::syntax::BinaryOperator::In {
            match spec_in_property_name(*left) {
                Some(p) => Some((*right, p)),
                None => None,
            }
        } else {
            None
        },
        _ => None,
    }
}

/// See [`spec_parse_in_condition`].
pub fn parse_in_condition(condition: &Expr) -> (r: Option<(&Expr, String)>)
    ensures
        match r {
            Some((e, p)) => spec_parse_in_condition(*condition) == Some((*e, p@)),
            None => spec_parse_in_condition(*condition) is None,
        },
{
    match condition {
        Expr::Binary { left, operator, right } => {
            if *operator != crate::syntax::BinaryOperator::In {
                return None;
            }
            let property: String = match &**left {
                Expr::StringLiteral(s) => s.clone(),
                Expr::NumberLiteral(s) => {
                    let c = chars_of(s.as_str());
                    if is_canonical_integer(&c) {
                        s.clone()
                    } else {
                        return None;
                    }
                },
                Expr::PropertyAccess { object, property_name } => match &**object {
                    Expr::Identifier(name) => {
                        let n = chars_of(name.as_str());
                        if !chars_are(&n, "Symbol") {
                            return None;
                        }
                        match well_known_symbol_key(property_name.as_str()) {
                            Some(k) => String::from_str(k),
                            None => return None,
                        }
                    },
                    _ => return None,
                },
                _ => return None,
            };
            Some((&**right, property))
        },
        _ => None,
    }
}

} // verus!
