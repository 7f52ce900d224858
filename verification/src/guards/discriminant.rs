//! Discriminant tests read off a condition, and their effect through optional
//! chains and on a property of a binding.

use vstd::prelude::*;
use crate::guards::literal_equality::{
    narrow_union_by_discriminant, spec_compared_literal, spec_narrow_union_by_discriminant,
};
use crate::symbols::SymbolTable;
use crate::syntax::{equality_polarity, spec_equality_polarity, Expr};
use crate::types::{
    copy_object, copy_type, find_property, lemma_seq_height, seq_height, type_height, is_unknown, lemma_view_properties, lemma_view_types,
    lemma_view_types_push, opt_view, peeled, remove_nullish, set_property, spec_find_index,
    spec_is_unknown, spec_peel, spec_remove_nullish, spec_set_property, spec_union, type_eq,
    union_of, view_object, view_type, view_types, ObjectProperty, ObjectType, SpecObject,
    SpecProperty, SpecType, Type,
};

verus! {

/// `e` with any `!` non-null assertions around it removed.
pub open spec fn spec_without_non_null(e: Expr) -> Expr
    decreases e,
{
    match e {
        Expr::NonNullAssertion(inner) => spec_without_non_null(*inner),
        _ => e,
    }
}

fn without_non_null_assertions(e: &Expr) -> (r: &Expr)
    ensures
        *r == spec_without_non_null(*e),
    decreases e,
{
    match e {
        Expr::NonNullAssertion(inner) => without_non_null_assertions(inner),
        _ => e,
    }
}

/// One side of a discriminant comparison: `access` must read a property
/// (plainly or through `?.`), `value` must name a literal.
pub open spec fn spec_discriminant_side(access: Expr, value: Expr, eq: bool, table: SymbolTable) -> Option<(Expr, Seq<char>, SpecType, bool)> {
    match spec_compared_literal(value, table) {
        None => None,
        Some(literal) => match access {
            Expr::PropertyAccess { object, property_name } => Some(
                (spec_without_non_null(*object), property_name@, literal, eq),
            ),
            Expr::OptionalPropertyAccess { object, property_name } => Some(
                (spec_without_non_null(*object), property_name@, literal, eq),
            ),
            _ => None,
        },
    }
}

/// A `base.property === literal` (or `!==`, `?.`) test: the base expression,
/// the property, the literal, and whether the operator is an equality.
pub open spec fn spec_parse_discriminant_condition(condition: Expr, table: SymbolTable) -> Option<(Expr, Seq<char>, SpecType, bool)> {
    match condition {
        Expr::Binary { left, operator, right } => match spec_equality_polarity(operator) {
            Some(eq) => match spec_discriminant_side(*left, *right, eq, table) {
                Some(r) => Some(r),
                None => spec_discriminant_side(*right, *left, eq, table),
            },
            None => None,
        },
        _ => None,
    }
}

/// The view of a parsed discriminant test.
pub open spec fn discriminant_view(r: Option<(&Expr, &str, Type, bool)>) -> Option<(Expr, Seq<char>, SpecType, bool)> {
    match r {
        Some((e, p, l, eq)) => Some((*e, p@, l@, eq)),
        None => None,
    }
}

fn discriminant_side<'a>(access: &'a Expr, value: &Expr, eq: bool, symbols: &SymbolTable) -> (r: Option<(&'a Expr, &'a str, Type, bool)>)
    ensures
        discriminant_view(r) == spec_discriminant_side(*access, *value, eq, *symbols),
{
    let literal = match crate::guards::literal_equality::literal_expression_value(value) {
        Some(l) => l,
        None => match crate::guards::literal_equality::const_member_literal_value(value, symbols) {
            Some(l) => l,
            None => return None,
        },
    };
    match access {
        Expr::PropertyAccess { object, property_name } => Some(
            (without_non_null_assertions(object), property_name.as_str(), literal, eq),
        ),
        Expr::OptionalPropertyAccess { object, property_name } => Some(
            (without_non_null_assertions(object), property_name.as_str(), literal, eq),
        ),
        _ => None,
    }
}

/// See [`spec_parse_discriminant_condition`].
pub fn parse_discriminant_condition_with<'a>(condition: &'a Expr, symbols: &SymbolTable) -> (r: Option<(&'a Expr, &'a str, Type, bool)>)
    ensures
        discriminant_view(r) == spec_parse_discriminant_condition(*condition, *symbols),
{
    match condition {
        Expr::Binary { left, operator, right } => match equality_polarity(*operator) {
            Some(eq) => match discriminant_side(left, right, eq, symbols) {
                Some(r) => Some(r),
                None => discriminant_side(right, left, eq, symbols),
            },
            None => None,
        },
        _ => None,
    }
}

/// Whether `condition` holds only for a non-nullish optional-chain base: it
/// reads through `?.`, holds in this branch, and the literal is not `undefined`.
pub open spec fn spec_optional_chain_excludes_nullish(condition: Expr, literal: SpecType, keep_matching: bool) -> bool {
    match condition {
        Expr::Binary { left, operator: _, right } => (*left is OptionalPropertyAccess
            || *right is OptionalPropertyAccess) && keep_matching && literal != SpecType::Undefined,
        _ => false,
    }
}

fn optional_chain_excludes_nullish(condition: &Expr, literal: &Type, keep_matching: bool) -> (r: bool)
    ensures
        r == spec_optional_chain_excludes_nullish(*condition, literal@, keep_matching),
{
    match condition {
        Expr::Binary { left, operator: _, right } => {
            let optional = match &**left {
                Expr::OptionalPropertyAccess { .. } => true,
                _ => false,
            } || match &**right {
                Expr::OptionalPropertyAccess { .. } => true,
                _ => false,
            };
            let undefined = match literal {
                Type::Undefined => true,
                _ => false,
            };
            optional && keep_matching && !undefined
        },
        _ => false,
    }
}

/// `x?.p === lit` holds only where `x` is not nullish, so the true branch drops
/// `x`'s nullish members. `None` when nothing changes.
pub open spec fn spec_narrow_optional_chain_base(condition: Expr, subject: SpecType, literal: SpecType, keep_matching: bool) -> Option<SpecType> {
    if !spec_optional_chain_excludes_nullish(condition, literal, keep_matching) {
        None
    } else {
        let narrowed = spec_remove_nullish(subject);
        if narrowed != subject && !spec_is_unknown(narrowed) {
            Some(narrowed)
        } else {
            None
        }
    }
}

/// See [`spec_narrow_optional_chain_base`].
pub fn narrow_optional_chain_base(condition: &Expr, subject: &Type, literal: &Type, keep_matching: bool) -> (r: Option<Type>)
    ensures
        opt_view(r) == spec_narrow_optional_chain_base(*condition, subject@, literal@, keep_matching),
{
    if !optional_chain_excludes_nullish(condition, literal, keep_matching) {
        return None;
    }
    let narrowed = remove_nullish(subject);
    if !type_eq(&narrowed, subject) && !is_unknown(&narrowed) {
        Some(narrowed)
    } else {
        None
    }
}

/// A discriminant test through an optional chain narrows twice: the union by
/// the discriminant, and the base by the chain's non-nullishness.
pub open spec fn spec_narrow_discriminant_through_optional_chain(condition: Expr, subject: SpecType, property: Seq<char>, literal: SpecType, keep_matching: bool) -> Option<SpecType> {
    match spec_narrow_union_by_discriminant(subject, property, literal, keep_matching) {
        Some(n) => match spec_narrow_optional_chain_base(condition, n, literal, keep_matching) {
            Some(m) => Some(m),
            None => Some(n),
        },
        None => spec_narrow_optional_chain_base(condition, subject, literal, keep_matching),
    }
}

/// See [`spec_narrow_discriminant_through_optional_chain`].
pub fn narrow_discriminant_through_optional_chain(condition: &Expr, subject: &Type, property: &str, literal: &Type, keep_matching: bool) -> (r: Option<Type>)
    ensures
        opt_view(r) == spec_narrow_discriminant_through_optional_chain(
            *condition,
            subject@,
            property@,
            literal@,
            keep_matching,
        ),
{
    match narrow_union_by_discriminant(subject, property, literal, keep_matching) {
        Some(n) => match narrow_optional_chain_base(condition, &n, literal, keep_matching) {
            Some(m) => Some(m),
            None => Some(n),
        },
        None => narrow_optional_chain_base(condition, subject, literal, keep_matching),
    }
}

/// A type whose every value is nullish.
pub open spec fn spec_is_nullish_only(t: SpecType) -> bool
    decreases t, 0nat,
{
    match t {
        SpecType::Null | SpecType::Undefined | SpecType::Void => true,
        SpecType::Union(ms) => spec_all_nullish_only(ms),
        _ => false,
    }
}

/// Every member of `s` is nullish only.
pub open spec fn spec_all_nullish_only(s: Seq<SpecType>) -> bool
    decreases s, 1nat,
{
    if s.len() == 0 {
        true
    } else {
        spec_all_nullish_only(s.drop_last()) && spec_is_nullish_only(s.last())
    }
}

fn is_nullish_only(t: &Type) -> (r: bool)
    ensures
        r == spec_is_nullish_only(t@),
    decreases type_height(t@),
{
    match t {
        Type::Null | Type::Undefined | Type::Void => true,
        Type::Union(ms) => {
            let ghost s = view_types(ms@);
            proof {
                lemma_view_types(ms@);
                lemma_seq_height(s);
            }
            assert(t@ == SpecType::Union(s));
            let mut all = true;
            let mut i: usize = 0;
            while i < ms.len()
                invariant
                    0 <= i <= ms.len(),
                    s == view_types(ms@),
                    s.len() == ms.len(),
                    forall|j: int| 0 <= j < ms.len() ==> #[trigger] s[j] == view_type(ms@[j]),
                    all == spec_all_nullish_only(s.take(i as int)),
                    t@ == SpecType::Union(s),
                    forall|j: int| 0 <= j < s.len() ==> type_height(#[trigger] s[j]) <= seq_height(s),
                decreases ms.len() - i,
            {
                proof {
                    assert(s.take(i + 1).drop_last() =~= s.take(i as int));
                    assert(s[i as int] == view_type(ms@[i as int]));
                    assert(type_height(s[i as int]) <= seq_height(s));
                    assert(type_height(SpecType::Union(s)) == 1 + seq_height(s));
                    assert(type_height(ms@[i as int]@) < type_height(t@));
                }
                let here = is_nullish_only(&ms[i]);
                all = all && here;
                i = i + 1;
            }
            assert(s.take(ms.len() as int) =~= s);
            all
        },
        _ => false,
    }
}

/// `o` with its `base_property` narrowed by the discriminant test (a property
/// that is only nullish becomes `never` where the chain must be non-nullish).
pub open spec fn spec_narrow_object_property_by_discriminant(o: SpecObject, base_property: Seq<char>, condition: Expr, property: Seq<char>, literal: SpecType, keep_matching: bool) -> Option<SpecObject> {
    match spec_find_index(o.properties, base_property) {
        None => None,
        Some(i) => {
            let declared = o.properties[i];
            let narrowed = match spec_narrow_discriminant_through_optional_chain(
                condition,
                declared.ty,
                property,
                literal,
                keep_matching,
            ) {
                Some(n) => Some(n),
                None => if spec_is_nullish_only(declared.ty)
                    && spec_optional_chain_excludes_nullish(condition, literal, keep_matching) {
                    Some(SpecType::Never)
                } else {
                    None
                },
            };
            match narrowed {
                Some(n) => Some(
                    SpecObject {
                        properties: spec_set_property(
                            o.properties,
                            SpecProperty {
                                name: base_property,
                                ty: n,
                                optional: declared.optional,
                                readonly: declared.readonly,
                                method: declared.method,
                            },
                        ),
                        ..o
                    },
                ),
                None => None,
            }
        },
    }
}

fn narrow_object_property_by_discriminant(o: &ObjectType, base_property: &str, condition: &Expr, property: &str, literal: &Type, keep_matching: bool) -> (r: Option<ObjectType>)
    ensures
        match r {
            Some(n) => spec_narrow_object_property_by_discriminant(
                o@,
                base_property@,
                *condition,
                property@,
                literal@,
                keep_matching,
            ) == Some(n@),
            None => spec_narrow_object_property_by_discriminant(
                o@,
                base_property@,
                *condition,
                property@,
                literal@,
                keep_matching,
            ) is None,
        },
{
    proof {
        lemma_view_properties(o.properties@);
    }
    let i = match find_property(&o.properties, base_property) {
        None => return None,
        Some(i) => i,
    };
    let declared = &o.properties[i];
    let narrowed = match narrow_discriminant_through_optional_chain(
        condition,
        &declared.ty,
        property,
        literal,
        keep_matching,
    ) {
        Some(n) => n,
        None => if is_nullish_only(&declared.ty) && optional_chain_excludes_nullish(
            condition,
            literal,
            keep_matching,
        ) {
            Type::Never
        } else {
            return None;
        },
    };
    let copy = copy_object(o);
    let mut properties = copy.properties;
    let replaced = ObjectProperty {
        name: String::from_str(base_property),
        ty: narrowed,
        optional: declared.optional,
        readonly: declared.readonly,
        method: declared.method,
    };
    set_property(&mut properties, replaced);
    let result = ObjectType {
        properties,
        string_index: copy.string_index,
        callable: copy.callable,
        alias_name: copy.alias_name,
        synthetic_open_index: copy.synthetic_open_index,
    };
    Some(result)
}

/// `base.prop?.kind === "a"` narrows the property `prop` of the base's type by
/// the discriminant, in an object base or in every object member of a union
/// base (a member narrowed this way is replaced by its narrowed structure).
pub open spec fn spec_narrow_base_property_by_discriminant(base: SpecType, base_property: Seq<char>, condition: Expr, property: Seq<char>, literal: SpecType, keep_matching: bool) -> Option<SpecType> {
    match spec_peel(base) {
        SpecType::Object(o) => match spec_narrow_object_property_by_discriminant(
            o,
            base_property,
            condition,
            property,
            literal,
            keep_matching,
        ) {
            Some(n) => Some(SpecType::Object(n)),
            None => None,
        },
        SpecType::Union(ms) => {
            let f = |m: SpecType|
                match spec_peel(m) {
                    SpecType::Object(o) => match spec_narrow_object_property_by_discriminant(
                        o,
                        base_property,
                        condition,
                        property,
                        literal,
                        keep_matching,
                    ) {
                        Some(n) => SpecType::Object(n),
                        None => m,
                    },
                    _ => m,
                };
            let changed = exists|j: int|
                0 <= j < ms.len() && (match spec_peel(#[trigger] ms[j]) {
                    SpecType::Object(o) => spec_narrow_object_property_by_discriminant(
                        o,
                        base_property,
                        condition,
                        property,
                        literal,
                        keep_matching,
                    ) is Some,
                    _ => false,
                });
            if changed {
                Some(spec_union(ms.map_values(f)))
            } else {
                None
            }
        },
        _ => None,
    }
}


/// See [`spec_narrow_base_property_by_discriminant`].
pub fn narrow_base_property_by_discriminant(base: &Type, base_property: &str, condition: &Expr, property: &str, literal: &Type, keep_matching: bool) -> (r: Option<Type>)
    ensures
        opt_view(r) == spec_narrow_base_property_by_discriminant(
            base@,
            base_property@,
            *condition,
            property@,
            literal@,
            keep_matching,
        ),
{
    let p = peeled(base);
    match p {
        Type::Object(o) => {
            assert(p@ == SpecType::Object(view_object(*o)));
            match narrow_object_property_by_discriminant(
                o,
                base_property,
                condition,
                property,
                literal,
                keep_matching,
            ) {
                Some(n) => {
                    let t = Type::Object(n);
                    assert(t@ == SpecType::Object(view_object(n)));
                    Some(t)
                },
                None => None,
            }
        },
        Type::Union(ms) => {
            let ghost s = view_types(ms@);
            let ghost f = |m: SpecType|
                match spec_peel(m) {
                    SpecType::Object(o) => match spec_narrow_object_property_by_discriminant(
                        o,
                        base_property@,
                        *condition,
                        property@,
                        literal@,
                        keep_matching,
                    ) {
                        Some(n) => SpecType::Object(n),
                        None => m,
                    },
                    _ => m,
                };
            let ghost hit = |m: SpecType|
                match spec_peel(m) {
                    SpecType::Object(o) => spec_narrow_object_property_by_discriminant(
                        o,
                        base_property@,
                        *condition,
                        property@,
                        literal@,
                        keep_matching,
                    ) is Some,
                    _ => false,
                };
            proof {
                lemma_view_types(ms@);
            }
            let mut members: Vec<Type> = Vec::new();
            let mut changed = false;
            let mut i: usize = 0;
            while i < ms.len()
                invariant
                    0 <= i <= ms.len(),
                    s == view_types(ms@),
                    s.len() == ms.len(),
                    forall|j: int| 0 <= j < ms.len() ==> #[trigger] s[j] == view_type(ms@[j]),
                    view_types(members@) == s.take(i as int).map_values(f),
                    changed == (exists|j: int| 0 <= j < i && hit(#[trigger] s[j])),
                    f == (|m: SpecType|
                        match spec_peel(m) {
                            SpecType::Object(o) => match spec_narrow_object_property_by_discriminant(
                                o,
                                base_property@,
                                *condition,
                                property@,
                                literal@,
                                keep_matching,
                            ) {
                                Some(n) => SpecType::Object(n),
                                None => m,
                            },
                            _ => m,
                        }),
                    hit == (|m: SpecType|
                        match spec_peel(m) {
                            SpecType::Object(o) => spec_narrow_object_property_by_discriminant(
                                o,
                                base_property@,
                                *condition,
                                property@,
                                literal@,
                                keep_matching,
                            ) is Some,
                            _ => false,
                        }),
                decreases ms.len() - i,
            {
                let member = &ms[i];
                let mp = peeled(member);
                let next = match mp {
                    Type::Object(o) => {
                        assert(mp@ == SpecType::Object(view_object(*o)));
                        match narrow_object_property_by_discriminant(
                            o,
                            base_property,
                            condition,
                            property,
                            literal,
                            keep_matching,
                        ) {
                            Some(n) => {
                                changed = true;
                                assert(hit(s[i as int]));
                                let t = Type::Object(n);
                                assert(t@ == SpecType::Object(view_object(n)));
                                t
                            },
                            None => copy_type(member),
                        }
                    },
                    _ => copy_type(member),
                };
                proof {
                    lemma_view_types_push(members@, next);
                    assert(s.take(i + 1).map_values(f) =~= s.take(i as int).map_values(f).push(
                        f(s[i as int]),
                    ));
                }
                members.push(next);
                i = i + 1;
            }
            assert(s.take(ms.len() as int) =~= s);
            if changed {
                Some(union_of(members))
            } else {
                None
            }
        },
        _ => None,
    }
}

} // verus!
