//! Truthiness: what a type keeps once a value is known falsy or truthy, and
//! which references a truthiness test guards.

use vstd::prelude::*;
use crate::syntax::{Expr, LogicalOperator, UnaryOperator};
use crate::text::chars_of;
use crate::types::{
    copy_string, copy_type, filter_members, find_property, lemma_filter_height, lemma_find_index,
    lemma_peel_height, lemma_seq_height, lemma_union_height, lemma_view_properties,
    lemma_view_types, lemma_view_types_push, non_nullish_test, opt_view, peeled, remove_nullish,
    seq_height, spec_find_index, spec_peel, spec_remove_nullish, spec_union, type_height,
    union_of, view_object, view_properties, view_property, view_type, view_types, ObjectProperty,
    SpecObject, SpecProperty, SpecType, Type,
};

verus! {

/// The falsy values a member keeps once known falsy, or `None` when nothing can
/// be said (`any`, `unknown`, a type variable, an enum, which may hold `0`).
/// A primitive keeps its type, `boolean` becomes `false`, the nullish members
/// and the falsy literals stay, and what is always truthy contributes nothing.
pub open spec fn spec_falsy_parts(t: SpecType) -> Option<Seq<SpecType>>
    decreases type_height(t), 0nat, 0nat,
{
    match t {
        SpecType::Any | SpecType::Unknown | SpecType::GenuineUnknown | SpecType::ErrorType
        | SpecType::TypeParameter(_) => None,
        SpecType::String | SpecType::Number | SpecType::BigInt | SpecType::Undefined
        | SpecType::Null | SpecType::Void => Some(seq![t]),
        SpecType::Boolean => Some(seq![SpecType::BooleanLiteral(false)]),
        SpecType::BooleanLiteral(b) => if !b {
            Some(seq![SpecType::BooleanLiteral(false)])
        } else {
            Some(Seq::empty())
        },
        SpecType::StringLiteral(s) => if s.len() == 0 {
            Some(seq![t])
        } else {
            Some(Seq::empty())
        },
        SpecType::NumberLiteral(s) => if s == "0"@ {
            Some(seq![t])
        } else {
            Some(Seq::empty())
        },
        SpecType::Union(ms) => spec_falsy_parts_all(ms),
        SpecType::Reference(r) => if r.enum_owner {
            None
        } else {
            proof {
                lemma_peel_height(*r.target);
            }
            spec_falsy_parts(spec_peel(*r.target))
        },
        _ => Some(Seq::empty()),
    }
}

/// The falsy parts of every member of `s`, in order, or `None` when some member
/// says nothing.
pub open spec fn spec_falsy_parts_all(s: Seq<SpecType>) -> Option<Seq<SpecType>>
    decreases seq_height(s), 1nat, s.len(),
{
    if s.len() == 0 {
        Some(Seq::empty())
    } else {
        proof {
            lemma_seq_height(s);
        }
        match spec_falsy_parts_all(s.drop_last()) {
            None => None,
            Some(front) => match spec_falsy_parts(s.last()) {
                None => None,
                Some(back) => Some(front + back),
            },
        }
    }
}

/// What is left of `ty` once it is known falsy (tsc's `TypeFacts.Falsy`):
/// `ty` itself when nothing can be said, `never` when nothing is left.
pub open spec fn spec_keep_possibly_falsy(ty: SpecType) -> SpecType {
    match spec_falsy_parts(ty) {
        None => ty,
        Some(parts) => if parts.len() == 0 {
            SpecType::Never
        } else {
            spec_union(parts)
        },
    }
}

fn append_falsy_parts(t: &Type, out: &mut Vec<Type>) -> (ok: bool)
    ensures
        match spec_falsy_parts(t@) {
            Some(parts) => ok && view_types(final(out)@) == view_types(old(out)@) + parts,
            None => !ok,
        },
    decreases type_height(t@), 0nat,
{
    match t {
        Type::Any | Type::Unknown | Type::GenuineUnknown | Type::ErrorType | Type::TypeParameter(_) => false,
        Type::String | Type::Number | Type::BigInt | Type::Undefined | Type::Null | Type::Void => {
            push_part(out, copy_type(t));
            true
        },
        Type::Boolean => {
            push_part(out, Type::BooleanLiteral(false));
            true
        },
        Type::BooleanLiteral(b) => {
            if !*b {
                push_part(out, Type::BooleanLiteral(false));
            } else {
                assert(view_types(out@) =~= view_types(out@) + Seq::<SpecType>::empty());
            }
            true
        },
        Type::StringLiteral(s) => {
            let c = chars_of(s.as_str());
            if c.len() == 0 {
                push_part(out, copy_type(t));
            } else {
                assert(view_types(out@) =~= view_types(out@) + Seq::<SpecType>::empty());
            }
            true
        },
        Type::NumberLiteral(s) => {
            let c = chars_of(s.as_str());
            if crate::text::chars_are(&c, "0") {
                push_part(out, copy_type(t));
            } else {
                assert(view_types(out@) =~= view_types(out@) + Seq::<SpecType>::empty());
            }
            true
        },
        Type::Union(ms) => {
            let ghost s = view_types(ms@);
            let ghost start = view_types(out@);
            proof {
                lemma_view_types(ms@);
                lemma_seq_height(s);
            }
            assert(t@ == SpecType::Union(s));
            let mut i: usize = 0;
            while i < ms.len()
                invariant
                    0 <= i <= ms.len(),
                    s == view_types(ms@),
                    s.len() == ms.len(),
                    t@ == SpecType::Union(s),
                    forall|j: int| 0 <= j < ms.len() ==> #[trigger] s[j] == view_type(ms@[j]),
                    forall|j: int| 0 <= j < s.len() ==> type_height(#[trigger] s[j]) <= seq_height(s),
                    spec_falsy_parts_all(s.take(i as int)) is Some,
                    view_types(out@) == start + spec_falsy_parts_all(s.take(i as int)).unwrap(),
                decreases ms.len() - i,
            {
                proof {
                    assert(s.take(i + 1).drop_last() =~= s.take(i as int));
                    assert(s.take(i + 1).last() == s[i as int]);
                    assert(type_height(ms@[i as int]@) < type_height(t@));
                }
                let ghost before = view_types(out@);
                if !append_falsy_parts(&ms[i], out) {
                    assert(spec_falsy_parts_all(s.take(i + 1)) is None);
                    proof {
                        lemma_falsy_parts_all_prefix_none(s, i + 1);
                    }
                    assert(s.take(ms.len() as int) =~= s);
                    return false;
                }
                proof {
                    let back = spec_falsy_parts(s[i as int]).unwrap();
                    assert(view_types(out@) =~= start + (spec_falsy_parts_all(s.take(i as int)).unwrap() + back));
                }
                i = i + 1;
            }
            assert(s.take(ms.len() as int) =~= s);
            true
        },
        Type::Reference(reference) => {
            assert(t@ == SpecType::Reference(crate::types::view_reference(*reference)));
            if reference.enum_owner {
                return false;
            }
            let target: &Type = &reference.target;
            let p = peeled(target);
            proof {
                lemma_peel_height(target@);
            }
            append_falsy_parts(p, out)
        },
        _ => {
            assert(view_types(out@) =~= view_types(out@) + Seq::<SpecType>::empty());
            true
        },
    }
}

proof fn lemma_falsy_parts_all_prefix_none(s: Seq<SpecType>, k: int)
    requires
        0 < k <= s.len(),
        spec_falsy_parts_all(s.take(k)) is None,
    ensures
        spec_falsy_parts_all(s) is None,
    decreases s.len(),
{
    if s.len() > k {
        assert(s.drop_last().take(k) =~= s.take(k));
        lemma_falsy_parts_all_prefix_none(s.drop_last(), k);
    } else {
        assert(s.take(k) =~= s);
    }
}

fn push_part(out: &mut Vec<Type>, t: Type)
    ensures
        view_types(final(out)@) == view_types(old(out)@) + seq![t@],
{
    proof {
        lemma_view_types_push(out@, t);
    }
    out.push(t);
    assert(view_types(old(out)@).push(t@) =~= view_types(old(out)@) + seq![t@]);
}

/// See [`spec_keep_possibly_falsy`].
pub fn keep_possibly_falsy(ty: &Type) -> (r: Type)
    ensures
        r@ == spec_keep_possibly_falsy(ty@),
{
    let mut kept: Vec<Type> = Vec::new();
    assert(view_types(kept@) =~= Seq::<SpecType>::empty());
    if !append_falsy_parts(ty, &mut kept) {
        return copy_type(ty);
    }
    assert(view_types(kept@) =~= spec_falsy_parts(ty@).unwrap());
    proof {
        lemma_view_types(kept@);
    }
    if kept.len() == 0 {
        Type::Never
    } else {
        union_of(kept)
    }
}

/// `false`, `""` or `0`: a literal that is always falsy.
pub open spec fn spec_is_falsy_literal(t: SpecType) -> bool {
    match t {
        SpecType::BooleanLiteral(b) => !b,
        SpecType::StringLiteral(s) => s.len() == 0,
        SpecType::NumberLiteral(s) => s == "0"@,
        _ => false,
    }
}

fn is_falsy_literal(t: &Type) -> (r: bool)
    ensures
        r == spec_is_falsy_literal(t@),
{
    match t {
        Type::BooleanLiteral(b) => !*b,
        Type::StringLiteral(s) => chars_of(s.as_str()).len() == 0,
        Type::NumberLiteral(s) => {
            let c = chars_of(s.as_str());
            crate::text::chars_are(&c, "0")
        },
        _ => false,
    }
}

/// A member that is not a falsy literal.
pub open spec fn truthy_literal_test() -> spec_fn(SpecType) -> bool {
    |m: SpecType| !spec_is_falsy_literal(m)
}

/// What is left of `ty` once it is known truthy: its nullish members and its
/// falsy literals are dropped; a named type is opened only when that changes it.
pub open spec fn spec_remove_definitely_falsy(ty: SpecType) -> SpecType {
    let narrowed = spec_remove_nullish(ty);
    match spec_peel(narrowed) {
        SpecType::Union(ms) => if exists|j: int| 0 <= j < ms.len() && spec_is_falsy_literal(#[trigger] ms[j]) {
            spec_union(ms.filter(truthy_literal_test()))
        } else {
            narrowed
        },
        _ => narrowed,
    }
}

/// See [`spec_remove_definitely_falsy`].
pub fn remove_definitely_falsy(ty: &Type) -> (r: Type)
    ensures
        r@ == spec_remove_definitely_falsy(ty@),
{
    let narrowed = remove_nullish(ty);
    let p = peeled(&narrowed);
    let ms = match p {
        Type::Union(ms) => ms,
        _ => return narrowed,
    };
    let ghost s = view_types(ms@);
    let ghost pred = truthy_literal_test();
    proof {
        lemma_view_types(ms@);
    }
    let mut any_falsy = false;
    let mut mask: Vec<bool> = Vec::new();
    let mut i: usize = 0;
    while i < ms.len()
        invariant
            0 <= i <= ms.len(),
            mask@.len() == i,
            s == view_types(ms@),
            s.len() == ms.len(),
            forall|j: int| 0 <= j < ms.len() ==> #[trigger] s[j] == view_type(ms@[j]),
            pred == truthy_literal_test(),
            forall|j: int| 0 <= j < i ==> mask@[j] == pred(#[trigger] view_type(ms@[j])),
            any_falsy == (exists|j: int| 0 <= j < i && spec_is_falsy_literal(#[trigger] s[j])),
        decreases ms.len() - i,
    {
        let falsy = is_falsy_literal(&ms[i]);
        if falsy {
            assert(spec_is_falsy_literal(s[i as int]));
        }
        any_falsy = any_falsy || falsy;
        mask.push(!falsy);
        i = i + 1;
    }
    if !any_falsy {
        return copy_type(&narrowed);
    }
    let kept = filter_members(ms, &mask, Ghost(pred));
    union_of(kept)
}

/// Dropping nullish members never makes a type higher.
pub proof fn lemma_remove_nullish_height(t: SpecType)
    ensures
        type_height(spec_remove_nullish(t)) <= type_height(t),
{
    match t {
        SpecType::Union(ms) => {
            lemma_filter_height(ms, non_nullish_test());
            lemma_union_height(ms.filter(non_nullish_test()));
        },
        _ => {},
    }
}

/// Dropping what is definitely falsy never makes a type higher.
pub proof fn lemma_remove_definitely_falsy_height(t: SpecType)
    ensures
        type_height(spec_remove_definitely_falsy(t)) <= type_height(t),
{
    let narrowed = spec_remove_nullish(t);
    lemma_remove_nullish_height(t);
    lemma_peel_height(narrowed);
    match spec_peel(narrowed) {
        SpecType::Union(ms) => {
            lemma_filter_height(ms, truthy_literal_test());
            lemma_union_height(ms.filter(truthy_literal_test()));
        },
        _ => {},
    }
}

/// A type once its property `property` is known truthy: the type itself
/// loses what is definitely falsy; an object shape declaring the property
/// holds it as required, with its definitely falsy part dropped; each member
/// of a union is narrowed the same way.
pub open spec fn spec_narrow_truthy_guarded_property(ty: SpecType, property: Seq<char>) -> SpecType
    decreases type_height(ty), 0nat, 0nat,
{
    let base = spec_remove_definitely_falsy(spec_peel(ty));
    proof {
        lemma_peel_height(ty);
        lemma_remove_definitely_falsy_height(spec_peel(ty));
    }
    match base {
        SpecType::Object(o) => match spec_find_index(o.properties, property) {
            Some(i) => SpecType::Object(
                SpecObject {
                    properties: o.properties.update(
                        i,
                        SpecProperty {
                            ty: spec_remove_definitely_falsy(o.properties[i].ty),
                            optional: false,
                            ..o.properties[i]
                        },
                    ),
                    ..o
                },
            ),
            None => base,
        },
        SpecType::Union(ms) => spec_union(spec_truthy_property_over(ms, property)),
        _ => base,
    }
}

/// [`spec_narrow_truthy_guarded_property`] on each member of `s`.
pub open spec fn spec_truthy_property_over(s: Seq<SpecType>, property: Seq<char>) -> Seq<SpecType>
    decreases seq_height(s), 1nat, s.len(),
{
    if s.len() == 0 {
        Seq::empty()
    } else {
        proof {
            lemma_seq_height(s);
        }
        spec_truthy_property_over(s.drop_last(), property).push(
            spec_narrow_truthy_guarded_property(s.last(), property),
        )
    }
}

/// See [`spec_narrow_truthy_guarded_property`].
pub fn narrow_truthy_guarded_property(ty: &Type, property: &str) -> (r: Type)
    ensures
        r@ == spec_narrow_truthy_guarded_property(ty@, property@),
    decreases type_height(ty@),
{
    let base = remove_definitely_falsy(peeled(ty));
    proof {
        lemma_peel_height(ty@);
        lemma_remove_definitely_falsy_height(spec_peel(ty@));
    }
    match base {
        Type::Object(o) => {
            let mut o = o;
            let ghost before = view_object(o);
            proof {
                lemma_view_properties(o.properties@);
            }
            match find_property(&o.properties, property) {
                Some(i) => {
                    proof {
                        lemma_find_index(view_properties(o.properties@), property@);
                    }
                    let narrowed = ObjectProperty {
                        name: o.properties[i].name.clone(),
                        ty: remove_definitely_falsy(&o.properties[i].ty),
                        optional: false,
                        readonly: o.properties[i].readonly,
                        method: o.properties[i].method,
                    };
                    let ghost nv = view_property(narrowed);
                    o.properties.set(i, narrowed);
                    proof {
                        lemma_view_properties(o.properties@);
                        assert(view_properties(o.properties@) =~= before.properties.update(
                            i as int,
                            nv,
                        ));
                        assert(view_object(o) == SpecObject {
                            properties: before.properties.update(i as int, nv),
                            ..before
                        });
                    }
                },
                None => {},
            }
            Type::Object(o)
        },
        Type::Union(ms) => {
            let ghost s = view_types(ms@);
            proof {
                lemma_view_types(ms@);
                lemma_seq_height(s);
            }
            let mut out: Vec<Type> = Vec::new();
            let mut i: usize = 0;
            assert(view_types(out@) =~= spec_truthy_property_over(s.take(0), property@));
            while i < ms.len()
                invariant
                    0 <= i <= ms.len(),
                    s == view_types(ms@),
                    s.len() == ms.len(),
                    1 + seq_height(s) <= type_height(ty@),
                    forall|j: int| 0 <= j < ms.len() ==> #[trigger] s[j] == view_type(ms@[j]),
                    forall|j: int| 0 <= j < s.len() ==> type_height(#[trigger] s[j]) <= seq_height(s),
                    view_types(out@) == spec_truthy_property_over(s.take(i as int), property@),
                decreases ms.len() - i,
            {
                proof {
                    assert(s.take(i + 1).drop_last() =~= s.take(i as int));
                    assert(s.take(i + 1).last() == s[i as int]);
                }
                let n = narrow_truthy_guarded_property(&ms[i], property);
                proof {
                    lemma_view_types_push(out@, n);
                }
                out.push(n);
                i = i + 1;
            }
            assert(s.take(ms.len() as int) =~= s);
            union_of(out)
        },
        other => other,
    }
}

/// A reference a truthiness test guards: a binding, or one property of one.
pub enum TruthyGuardTarget {
    Identifier(String),
    Property { base: String, property: String },
}

/// The mathematical value of a [`TruthyGuardTarget`].
pub enum SpecTruthyTarget {
    Identifier(Seq<char>),
    Property { base: Seq<char>, property: Seq<char> },
}

impl View for TruthyGuardTarget {
    type V = SpecTruthyTarget;

    open spec fn view(&self) -> SpecTruthyTarget {
        match self {
            TruthyGuardTarget::Identifier(n) => SpecTruthyTarget::Identifier(n@),
            TruthyGuardTarget::Property { base, property } => SpecTruthyTarget::Property {
                base: base@,
                property: property@,
            },
        }
    }
}

/// The binding under any `!` non-null assertions.
pub open spec fn spec_truthy_guard_base_identifier(e: Expr) -> Option<Seq<char>>
    decreases e,
{
    match e {
        Expr::Identifier(name) => Some(name@),
        Expr::NonNullAssertion(inner) => spec_truthy_guard_base_identifier(*inner),
        _ => None,
    }
}

/// See [`spec_truthy_guard_base_identifier`].
pub fn truthy_guard_base_identifier(e: &Expr) -> (r: Option<String>)
    ensures
        match r {
            Some(n) => spec_truthy_guard_base_identifier(*e) == Some(n@),
            None => spec_truthy_guard_base_identifier(*e) is None,
        },
    decreases e,
{
    match e {
        Expr::Identifier(name) => Some(copy_string(name)),
        Expr::NonNullAssertion(inner) => truthy_guard_base_identifier(inner),
        _ => None,
    }
}

/// The reference an operand's truthiness guards: a binding, a property read
/// off one (plainly or through `?.`), looking through `!` assertions and `!!`.
pub open spec fn spec_truthy_guard_target(e: Expr) -> Option<SpecTruthyTarget>
    decreases e,
{
    match e {
        Expr::Identifier(name) => Some(SpecTruthyTarget::Identifier(name@)),
        Expr::PropertyAccess { object, property_name } => match spec_truthy_guard_base_identifier(*object) {
            Some(base) => Some(SpecTruthyTarget::Property { base, property: property_name@ }),
            None => None,
        },
        Expr::OptionalPropertyAccess { object, property_name } => match spec_truthy_guard_base_identifier(*object) {
            Some(base) => Some(SpecTruthyTarget::Property { base, property: property_name@ }),
            None => None,
        },
        Expr::NonNullAssertion(inner) => spec_truthy_guard_target(*inner),
        Expr::Unary { operator, operand } => if operator == UnaryOperator::Not {
            match *operand {
                Expr::Unary { operator: inner_operator, operand: inner } => if inner_operator
                    == UnaryOperator::Not {
                    spec_truthy_guard_target(*inner)
                } else {
                    None
                },
                _ => None,
            }
        } else {
            None
        },
        _ => None,
    }
}

/// The view of an optional truthiness target.
pub open spec fn opt_target(o: Option<TruthyGuardTarget>) -> Option<SpecTruthyTarget> {
    match o {
        Some(t) => Some(t@),
        None => None,
    }
}

/// See [`spec_truthy_guard_target`].
pub fn truthy_guard_target(e: &Expr) -> (r: Option<TruthyGuardTarget>)
    ensures
        opt_target(r) == spec_truthy_guard_target(*e),
    decreases e,
{
    match e {
        Expr::Identifier(name) => Some(TruthyGuardTarget::Identifier(copy_string(name))),
        Expr::PropertyAccess { object, property_name } => match truthy_guard_base_identifier(object) {
            Some(base) => Some(TruthyGuardTarget::Property { base, property: copy_string(property_name) }),
            None => None,
        },
        Expr::OptionalPropertyAccess { object, property_name } => match truthy_guard_base_identifier(object) {
            Some(base) => Some(TruthyGuardTarget::Property { base, property: copy_string(property_name) }),
            None => None,
        },
        Expr::NonNullAssertion(inner) => truthy_guard_target(inner),
        Expr::Unary { operator, operand } => {
            if *operator != UnaryOperator::Not {
                return None;
            }
            match &**operand {
                Expr::Unary { operator: inner_operator, operand: inner } => if *inner_operator
                    == UnaryOperator::Not {
                    truthy_guard_target(inner)
                } else {
                    None
                },
                _ => None,
            }
        },
        _ => None,
    }
}

fn targets_eq(a: &TruthyGuardTarget, b: &TruthyGuardTarget) -> (r: bool)
    ensures
        r == (a@ == b@),
{
    match (a, b) {
        (TruthyGuardTarget::Identifier(x), TruthyGuardTarget::Identifier(y)) => *x == *y,
        (
            TruthyGuardTarget::Property { base: b1, property: p1 },
            TruthyGuardTarget::Property { base: b2, property: p2 },
        ) => *b1 == *b2 && *p1 == *p2,
        _ => false,
    }
}

/// The targets a falsy test guards across `||`, first occurrence first: in
/// `!a || !b.c` every negated operand names one.
pub open spec fn spec_collect_truthy_guarded(condition: Expr, acc: Seq<SpecTruthyTarget>) -> Seq<SpecTruthyTarget>
    decreases condition,
{
    match condition {
        Expr::Logical { left, operator, right } => if operator == LogicalOperator::Or {
            spec_collect_truthy_guarded(*right, spec_collect_truthy_guarded(*left, acc))
        } else {
            acc
        },
        Expr::Unary { operator, operand } => if operator == UnaryOperator::Not {
            match spec_truthy_guard_target(*operand) {
                Some(t) => if acc.contains(t) {
                    acc
                } else {
                    acc.push(t)
                },
                None => acc,
            }
        } else {
            acc
        },
        _ => acc,
    }
}

/// Appends to `targets` what the truthiness test `condition` guards (see
/// [`spec_collect_truthy_guarded`]).
pub fn collect_truthy_guarded_identifiers(condition: &Expr, targets: &mut Vec<TruthyGuardTarget>)
    ensures
        final(targets)@.map_values(|t: TruthyGuardTarget| t@) == spec_collect_truthy_guarded(
            *condition,
            old(targets)@.map_values(|t: TruthyGuardTarget| t@),
        ),
    decreases condition,
{
    match condition {
        Expr::Logical { left, operator, right } => {
            if *operator == LogicalOperator::Or {
                collect_truthy_guarded_identifiers(left, targets);
                collect_truthy_guarded_identifiers(right, targets);
            }
        },
        Expr::Unary { operator, operand } => {
            if *operator == UnaryOperator::Not {
                if let Some(target) = truthy_guard_target(operand) {
                    let ghost views = targets@.map_values(|t: TruthyGuardTarget| t@);
                    let mut found = false;
                    let mut i: usize = 0;
                    while i < targets.len()
                        invariant
                            0 <= i <= targets.len(),
                            views == targets@.map_values(|t: TruthyGuardTarget| t@),
                            found == (exists|j: int| 0 <= j < i && #[trigger] views[j] == target@),
                        decreases targets.len() - i,
                    {
                        let same = targets_eq(&targets[i], &target);
                        if same {
                            assert(views[i as int] == target@);
                        }
                        found = found || same;
                        i = i + 1;
                    }
                    if !found {
                        let ghost tv = target@;
                        targets.push(target);
                        assert(targets@.map_values(|t: TruthyGuardTarget| t@) =~= views.push(tv));
                    } else {
                        assert(views.contains(target@));
                    }
                }
            }
        },
        _ => {},
    }
}

/// The views of a sequence of targets.
pub open spec fn view_targets(s: Seq<TruthyGuardTarget>) -> Seq<SpecTruthyTarget> {
    s.map_values(|t: TruthyGuardTarget| t@)
}

/// `targets` with `target` appended unless it is there already.
fn push_target_unique(targets: &mut Vec<TruthyGuardTarget>, target: TruthyGuardTarget)
    ensures
        view_targets(final(targets)@) == if view_targets(old(targets)@).contains(target@) {
            view_targets(old(targets)@)
        } else {
            view_targets(old(targets)@).push(target@)
        },
{
    let ghost views = view_targets(targets@);
    let mut found = false;
    let mut i: usize = 0;
    while i < targets.len()
        invariant
            0 <= i <= targets.len(),
            views == view_targets(targets@),
            found == (exists|j: int| 0 <= j < i && #[trigger] views[j] == target@),
        decreases targets.len() - i,
    {
        let same = targets_eq(&targets[i], &target);
        if same {
            assert(views[i as int] == target@);
        }
        found = found || same;
        i = i + 1;
    }
    if !found {
        let ghost tv = target@;
        targets.push(target);
        assert(view_targets(targets@) =~= views.push(tv));
    } else {
        assert(views.contains(target@));
    }
}

/// The references an `&&` chain proves truthy, first occurrence first,
/// appended to `acc`: each operand of the chain that is a truthiness target.
pub open spec fn spec_collect_and_chain_truthy_targets(condition: Expr, acc: Seq<SpecTruthyTarget>) -> Seq<SpecTruthyTarget>
    decreases condition,
{
    match condition {
        Expr::Logical { left, operator, right } => if operator == LogicalOperator::And {
            spec_collect_and_chain_truthy_targets(
                *right,
                spec_collect_and_chain_truthy_targets(*left, acc),
            )
        } else {
            acc
        },
        _ => match spec_truthy_guard_target(condition) {
            Some(t) => if acc.contains(t) {
                acc
            } else {
                acc.push(t)
            },
            None => acc,
        },
    }
}

/// See [`spec_collect_and_chain_truthy_targets`].
pub fn collect_and_chain_truthy_targets(condition: &Expr, targets: &mut Vec<TruthyGuardTarget>)
    ensures
        view_targets(final(targets)@) == spec_collect_and_chain_truthy_targets(
            *condition,
            view_targets(old(targets)@),
        ),
    decreases condition,
{
    match condition {
        Expr::Logical { left, operator, right } => {
            if *operator == LogicalOperator::And {
                collect_and_chain_truthy_targets(left, targets);
                collect_and_chain_truthy_targets(right, targets);
            }
        },
        _ => {
            if let Some(target) = truthy_guard_target(condition) {
                push_target_unique(targets, target);
            }
        },
    }
}

} // verus!
