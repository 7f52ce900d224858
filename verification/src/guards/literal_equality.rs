//! Equality against a literal: discriminant tests (`x.kind === "a"`) and
//! whole-value tests (`x === "a"`).

use vstd::prelude::*;
use crate::symbols::{spec_get, SymbolKind, SymbolTable};
use crate::syntax::{equality_polarity, spec_equality_polarity, Expr};
use crate::types::{
    contains_type, copy_type, filter_members, filter_union, find_property, lemma_filter_all,
    lemma_filter_none, lemma_view_properties, lemma_view_types, opt_view, peeled,
    spec_filter_union, spec_find_index, spec_peel, spec_union, type_eq, union_of, view_object,
    view_property, view_type, view_types, SpecType, Type,
};

verus! {

/// Whether a union member's discriminant property is the given literal.
#[derive(PartialEq, Eq, Structural, Clone, Copy, Debug)]
pub enum DiscriminantMatch {
    Yes,
    No,
    Unknown,
}

/// A unit literal type: a string, number or boolean literal.
pub open spec fn spec_is_unit_literal(t: SpecType) -> bool {
    t is StringLiteral || t is NumberLiteral || t is BooleanLiteral
}

fn is_unit_literal(t: &Type) -> (r: bool)
    ensures
        r == spec_is_unit_literal(t@),
{
    match t {
        Type::StringLiteral(_) | Type::NumberLiteral(_) | Type::BooleanLiteral(_) => true,
        _ => false,
    }
}

/// The literal type a literal expression denotes.
pub open spec fn spec_literal_expression_value(e: Expr) -> Option<SpecType> {
    match e {
        Expr::StringLiteral(s) => Some(SpecType::StringLiteral(s@)),
        Expr::BooleanLiteral(b) => Some(SpecType::BooleanLiteral(b)),
        Expr::NumberLiteral(s) => Some(SpecType::NumberLiteral(s@)),
        _ => None,
    }
}

/// See [`spec_literal_expression_value`].
pub fn literal_expression_value(e: &Expr) -> (r: Option<Type>)
    ensures
        opt_view(r) == spec_literal_expression_value(*e),
{
    match e {
        Expr::StringLiteral(s) => Some(Type::StringLiteral(s.clone())),
        Expr::BooleanLiteral(b) => Some(Type::BooleanLiteral(*b)),
        Expr::NumberLiteral(s) => Some(Type::NumberLiteral(s.clone())),
        _ => None,
    }
}

/// A comparison operand that names a unit value through a binding: a `const`
/// holding a literal (or a `symbol`, which a `const` makes unique), or a member
/// of a const-enum-like object whose declared type is a literal.
pub open spec fn spec_const_member_literal_value(e: Expr, table: SymbolTable) -> Option<SpecType> {
    match e {
        Expr::Identifier(name) => match spec_get(table, name@) {
            Some(symbol) => {
                let ty = spec_peel(symbol.ty);
                if (ty is Symbol && symbol.kind == SymbolKind::Const) || spec_is_unit_literal(ty) {
                    Some(ty)
                } else {
                    None
                }
            },
            None => None,
        },
        Expr::PropertyAccess { object, property_name } => match *object {
            Expr::Identifier(name) => match spec_get(table, name@) {
                Some(symbol) => match spec_peel(symbol.ty) {
                    SpecType::Object(o) => match spec_find_index(o.properties, property_name@) {
                        Some(i) => if spec_is_unit_literal(o.properties[i].ty) {
                            Some(o.properties[i].ty)
                        } else {
                            None
                        },
                        None => None,
                    },
                    _ => None,
                },
                None => None,
            },
            _ => None,
        },
        _ => None,
    }
}

/// See [`spec_const_member_literal_value`].
pub fn const_member_literal_value(e: &Expr, symbols: &SymbolTable) -> (r: Option<Type>)
    ensures
        opt_view(r) == spec_const_member_literal_value(*e, *symbols),
{
    match e {
        Expr::Identifier(name) => {
            let symbol = match symbols.get(name.as_str()) {
                Some(s) => s,
                None => return None,
            };
            let ty = peeled(&symbol.ty);
            let unique_symbol = match ty {
                Type::Symbol => symbol.kind == SymbolKind::Const,
                _ => false,
            };
            if unique_symbol || is_unit_literal(ty) {
                Some(copy_type(ty))
            } else {
                None
            }
        },
        Expr::PropertyAccess { object, property_name } => match &**object {
            Expr::Identifier(name) => {
                let symbol = match symbols.get(name.as_str()) {
                    Some(s) => s,
                    None => return None,
                };
                let ty = peeled(&symbol.ty);
                match ty {
                    Type::Object(o) => {
                        assert(ty@ == SpecType::Object(view_object(*o)));
                        proof {
                            lemma_view_properties(o.properties@);
                        }
                        match find_property(&o.properties, property_name.as_str()) {
                            Some(i) => {
                                let p = &o.properties[i];
                                if is_unit_literal(&p.ty) {
                                    Some(copy_type(&p.ty))
                                } else {
                                    None
                                }
                            },
                            None => None,
                        }
                    },
                    _ => None,
                }
            },
            _ => None,
        },
        _ => None,
    }
}

/// How a union member's `property` relates to `literal`: `Yes` when it must
/// equal it, `No` when it cannot, `Unknown` when either may hold.
pub open spec fn spec_discriminant_match(member: SpecType, property: Seq<char>, literal: SpecType) -> DiscriminantMatch {
    match spec_peel(member) {
        SpecType::Object(o) => match spec_find_index(o.properties, property) {
            None => DiscriminantMatch::No,
            Some(i) => {
                let declared = o.properties[i];
                let pt = spec_peel(declared.ty);
                if spec_is_unit_literal(pt) {
                    if pt != literal {
                        DiscriminantMatch::No
                    } else if declared.optional {
                        DiscriminantMatch::Unknown
                    } else {
                        DiscriminantMatch::Yes
                    }
                } else {
                    match pt {
                        SpecType::Union(us) => if us.contains(literal) {
                            DiscriminantMatch::Unknown
                        } else if forall|j: int|
                            0 <= j < us.len() ==> spec_is_unit_literal(#[trigger] us[j]) {
                            DiscriminantMatch::No
                        } else {
                            DiscriminantMatch::Unknown
                        },
                        _ => DiscriminantMatch::Unknown,
                    }
                }
            },
        },
        _ => DiscriminantMatch::Unknown,
    }
}

fn all_unit_literals(us: &Vec<Type>) -> (r: bool)
    ensures
        r == (forall|j: int| 0 <= j < view_types(us@).len() ==> spec_is_unit_literal(#[trigger] view_types(us@)[j])),
{
    proof {
        lemma_view_types(us@);
    }
    let mut i: usize = 0;
    while i < us.len()
        invariant
            0 <= i <= us.len(),
            view_types(us@).len() == us.len(),
            forall|j: int| 0 <= j < us.len() ==> #[trigger] view_types(us@)[j] == view_type(us@[j]),
            forall|j: int| 0 <= j < i ==> spec_is_unit_literal(#[trigger] view_types(us@)[j]),
        decreases us.len() - i,
    {
        if !is_unit_literal(&us[i]) {
            assert(!spec_is_unit_literal(view_types(us@)[i as int]));
            return false;
        }
        i = i + 1;
    }
    true
}

/// See [`spec_discriminant_match`].
pub fn discriminant_match(member: &Type, property: &str, literal: &Type) -> (r: DiscriminantMatch)
    ensures
        r == spec_discriminant_match(member@, property@, literal@),
{
    let p = peeled(member);
    let o = match p {
        Type::Object(o) => o,
        _ => return DiscriminantMatch::Unknown,
    };
    assert(p@ == SpecType::Object(view_object(*o)));
    proof {
        lemma_view_properties(o.properties@);
    }
    let i = match find_property(&o.properties, property) {
        None => return DiscriminantMatch::No,
        Some(i) => i,
    };
    let declared = &o.properties[i];
    let pt = peeled(&declared.ty);
    if is_unit_literal(pt) {
        if !type_eq(pt, literal) {
            DiscriminantMatch::No
        } else if declared.optional {
            DiscriminantMatch::Unknown
        } else {
            DiscriminantMatch::Yes
        }
    } else {
        match pt {
            Type::Union(us) => {
                if contains_type(us, literal) {
                    DiscriminantMatch::Unknown
                } else if all_unit_literals(us) {
                    DiscriminantMatch::No
                } else {
                    DiscriminantMatch::Unknown
                }
            },
            _ => DiscriminantMatch::Unknown,
        }
    }
}

/// Whether `member` is an object whose required `property` is exactly
/// `literal`, so `member.property !== literal` cannot hold.
pub open spec fn spec_discriminant_is_exactly(member: SpecType, property: Seq<char>, literal: SpecType) -> bool {
    match spec_peel(member) {
        SpecType::Object(o) => match spec_find_index(o.properties, property) {
            Some(i) => !o.properties[i].optional && spec_peel(o.properties[i].ty) == literal,
            None => false,
        },
        _ => false,
    }
}

fn discriminant_is_exactly(member: &Type, property: &str, literal: &Type) -> (r: bool)
    ensures
        r == spec_discriminant_is_exactly(member@, property@, literal@),
{
    let p = peeled(member);
    match p {
        Type::Object(o) => {
            assert(p@ == SpecType::Object(view_object(*o)));
            proof {
                lemma_view_properties(o.properties@);
            }
            match find_property(&o.properties, property) {
                Some(i) => !o.properties[i].optional && type_eq(peeled(&o.properties[i].ty), literal),
                None => false,
            }
        },
        _ => false,
    }
}

/// Whether every member's required `property` is exactly `literal`.
pub open spec fn spec_all_exactly(members: Seq<SpecType>, property: Seq<char>, literal: SpecType) -> bool {
    forall|j: int| 0 <= j < members.len() ==> spec_discriminant_is_exactly(#[trigger] members[j], property, literal)
}

/// Whether a member survives a discriminant test in a branch.
pub open spec fn discriminant_test(property: Seq<char>, literal: SpecType, keep_matching: bool) -> spec_fn(SpecType) -> bool {
    |m: SpecType|
        if keep_matching {
            spec_discriminant_match(m, property, literal) != DiscriminantMatch::No
        } else {
            spec_discriminant_match(m, property, literal) != DiscriminantMatch::Yes
        }
}

/// Narrowing a discriminated union by `property` against `literal`:
/// `keep_matching` keeps the members that can equal the literal (the `===`
/// true branch), otherwise the members that can differ. A named alias is
/// opened first. The last member excluded by `!==` leaves `never`.
pub open spec fn spec_narrow_union_by_discriminant(ty: SpecType, property: Seq<char>, literal: SpecType, keep_matching: bool) -> Option<SpecType> {
    let subject = if ty is Reference {
        spec_peel(ty)
    } else {
        ty
    };
    match subject {
        SpecType::Union(members) => {
            let kept = members.filter(discriminant_test(property, literal, keep_matching));
            if kept.len() == 0 {
                if !keep_matching && spec_all_exactly(members, property, literal) {
                    Some(SpecType::Never)
                } else {
                    None
                }
            } else if kept.len() == members.len() {
                None
            } else {
                Some(spec_union(kept))
            }
        },
        _ => if !keep_matching && spec_discriminant_is_exactly(subject, property, literal) {
            Some(SpecType::Never)
        } else {
            None
        },
    }
}

/// See [`spec_narrow_union_by_discriminant`].
pub fn narrow_union_by_discriminant(ty: &Type, property: &str, literal: &Type, keep_matching: bool) -> (r: Option<Type>)
    ensures
        opt_view(r) == spec_narrow_union_by_discriminant(ty@, property@, literal@, keep_matching),
{
    let subject: &Type = match ty {
        Type::Reference(_) => peeled(ty),
        _ => ty,
    };
    let ms = match subject {
        Type::Union(ms) => ms,
        _ => {
            return if !keep_matching && discriminant_is_exactly(subject, property, literal) {
                Some(Type::Never)
            } else {
                None
            };
        },
    };
    let ghost members = view_types(ms@);
    let ghost pred = discriminant_test(property@, literal@, keep_matching);
    proof {
        lemma_view_types(ms@);
    }
    let mut mask: Vec<bool> = Vec::new();
    let mut all_exact = true;
    let mut i: usize = 0;
    while i < ms.len()
        invariant
            0 <= i <= ms.len(),
            mask@.len() == i,
            members == view_types(ms@),
            members.len() == ms.len(),
            forall|j: int| 0 <= j < ms.len() ==> #[trigger] members[j] == view_type(ms@[j]),
            pred == discriminant_test(property@, literal@, keep_matching),
            forall|j: int| 0 <= j < i ==> mask@[j] == pred(#[trigger] view_type(ms@[j])),
            all_exact == (forall|j: int| 0 <= j < i ==> spec_discriminant_is_exactly(#[trigger] members[j], property@, literal@)),
        decreases ms.len() - i,
    {
        let result = discriminant_match(&ms[i], property, literal);
        let survives = if keep_matching {
            result != DiscriminantMatch::No
        } else {
            result != DiscriminantMatch::Yes
        };
        mask.push(survives);
        let exact = discriminant_is_exactly(&ms[i], property, literal);
        if !exact {
            assert(!spec_discriminant_is_exactly(members[i as int], property@, literal@));
        }
        all_exact = all_exact && exact;
        i = i + 1;
    }
    let kept = filter_members(ms, &mask, Ghost(pred));
    proof {
        lemma_view_types(kept@);
    }
    assert(subject@ == SpecType::Union(members));
    assert(subject@ == (if ty@ is Reference {
        spec_peel(ty@)
    } else {
        ty@
    }));
    let ghost spec_kept = members.filter(discriminant_test(property@, literal@, keep_matching));
    assert(view_types(kept@) == spec_kept);
    if kept.len() == 0 {
        if !keep_matching && all_exact {
            assert(spec_narrow_union_by_discriminant(ty@, property@, literal@, keep_matching) == Some(SpecType::Never));
            Some(Type::Never)
        } else {
            None
        }
    } else if kept.len() == ms.len() {
        assert(spec_kept.len() == members.len());
        assert(spec_narrow_union_by_discriminant(ty@, property@, literal@, keep_matching) is None);
        None
    } else {
        assert(spec_kept.len() != members.len() && spec_kept.len() != 0);
        assert(spec_narrow_union_by_discriminant(ty@, property@, literal@, keep_matching) == Some(spec_union(spec_kept)));
        Some(union_of(kept))
    }
}

/// The operand of an equality: the literal it names, read from the token or
/// from a binding.
pub open spec fn spec_compared_literal(e: Expr, table: SymbolTable) -> Option<SpecType> {
    match spec_literal_expression_value(e) {
        Some(l) => Some(l),
        None => spec_const_member_literal_value(e, table),
    }
}

fn compared_literal(e: &Expr, symbols: &SymbolTable) -> (r: Option<Type>)
    ensures
        opt_view(r) == spec_compared_literal(*e, *symbols),
{
    match literal_expression_value(e) {
        Some(l) => Some(l),
        None => const_member_literal_value(e, symbols),
    }
}

/// `value === "lit"` / `value !== 3` on a bare identifier: the identifier, the
/// literal, and whether the operator is an equality.
pub open spec fn spec_parse_identifier_literal_equality(condition: Expr, table: SymbolTable) -> Option<(Seq<char>, SpecType, bool)> {
    match condition {
        Expr::Binary { left, operator, right } => match spec_equality_polarity(operator) {
            Some(eq) => match (*left, spec_compared_literal(*right, table)) {
                (Expr::Identifier(name), Some(l)) => Some((name@, l, eq)),
                _ => match (*right, spec_compared_literal(*left, table)) {
                    (Expr::Identifier(name), Some(l)) => Some((name@, l, eq)),
                    _ => None,
                },
            },
            None => None,
        },
        _ => None,
    }
}

/// See [`spec_parse_identifier_literal_equality`].
pub fn parse_identifier_literal_equality<'a>(condition: &'a Expr, symbols: &SymbolTable) -> (r: Option<(&'a str, Type, bool)>)
    ensures
        match r {
            Some((name, l, eq)) => spec_parse_identifier_literal_equality(*condition, *symbols)
                == Some((name@, l@, eq)),
            None => spec_parse_identifier_literal_equality(*condition, *symbols) is None,
        },
{
    match condition {
        Expr::Binary { left, operator, right } => match equality_polarity(*operator) {
            Some(eq) => {
                if let Expr::Identifier(name) = &**left {
                    if let Some(l) = compared_literal(right, symbols) {
                        return Some((name.as_str(), l, eq));
                    }
                }
                if let Expr::Identifier(name) = &**right {
                    if let Some(l) = compared_literal(left, symbols) {
                        return Some((name.as_str(), l, eq));
                    }
                }
                None
            },
            None => None,
        },
        _ => None,
    }
}

/// The wide primitive a unit literal inhabits.
pub open spec fn spec_literal_base_primitive(literal: SpecType) -> Option<SpecType> {
    match literal {
        SpecType::StringLiteral(_) => Some(SpecType::String),
        SpecType::NumberLiteral(_) => Some(SpecType::Number),
        SpecType::BooleanLiteral(_) => Some(SpecType::Boolean),
        SpecType::Symbol => Some(SpecType::Symbol),
        _ => None,
    }
}

/// See [`spec_literal_base_primitive`].
pub fn literal_base_primitive(literal: &Type) -> (r: Option<Type>)
    ensures
        opt_view(r) == spec_literal_base_primitive(literal@),
{
    match literal {
        Type::StringLiteral(_) => Some(Type::String),
        Type::NumberLiteral(_) => Some(Type::Number),
        Type::BooleanLiteral(_) => Some(Type::Boolean),
        Type::Symbol => Some(Type::Symbol),
        _ => None,
    }
}

/// Whether a literal equality says anything about the subject: not for a
/// degraded type, `any`, `unknown` or `never`.
pub open spec fn spec_literal_equality_applies(ty: SpecType) -> bool {
    !crate::types::spec_is_unknown(ty) && !(ty is Any || ty is GenuineUnknown || ty is Never)
}

/// See [`spec_literal_equality_applies`].
pub fn literal_equality_applies(ty: &Type) -> (r: bool)
    ensures
        r == spec_literal_equality_applies(ty@),
{
    !crate::types::is_unknown(ty) && !(match ty {
        Type::Any | Type::GenuineUnknown | Type::Never => true,
        _ => false,
    })
}

/// A member differs from the literal.
pub open spec fn not_literal_test(literal: SpecType) -> spec_fn(SpecType) -> bool {
    |m: SpecType| m != literal
}

/// Narrowing by `=== literal` (`keep_matching`) or `!== literal`: the matching
/// branch keeps the literal where a member is it or its wide primitive; the
/// complement drops only the members that are the literal.
pub open spec fn spec_narrow_by_literal_equality(ty: SpecType, literal: SpecType, keep_matching: bool) -> Option<SpecType> {
    if !spec_literal_equality_applies(ty) {
        None
    } else {
        match spec_literal_base_primitive(literal) {
            None => None,
            Some(base) => match ty {
                SpecType::Union(members) => if keep_matching {
                    if exists|j: int|
                        0 <= j < members.len() && (#[trigger] members[j] == literal || members[j]
                            == base) {
                        let narrowed = spec_union(seq![literal]);
                        if narrowed != ty {
                            Some(narrowed)
                        } else {
                            None
                        }
                    } else {
                        None
                    }
                } else {
                    spec_filter_union(members, not_literal_test(literal))
                },
                _ => if keep_matching && ty == base {
                    Some(literal)
                } else {
                    None
                },
            },
        }
    }
}

/// See [`spec_narrow_by_literal_equality`].
pub fn narrow_by_literal_equality(ty: &Type, literal: &Type, keep_matching: bool) -> (r: Option<Type>)
    ensures
        opt_view(r) == spec_narrow_by_literal_equality(ty@, literal@, keep_matching),
{
    if !literal_equality_applies(ty) {
        return None;
    }
    let base = match literal_base_primitive(literal) {
        None => return None,
        Some(b) => b,
    };
    let ms = match ty {
        Type::Union(ms) => ms,
        _ => {
            return if keep_matching && type_eq(ty, &base) {
                Some(copy_type(literal))
            } else {
                None
            };
        },
    };
    let ghost members = view_types(ms@);
    proof {
        lemma_view_types(ms@);
    }
    if keep_matching {
        let mut found = false;
        let mut i: usize = 0;
        while i < ms.len()
            invariant
                0 <= i <= ms.len(),
                members == view_types(ms@),
                members.len() == ms.len(),
                forall|j: int| 0 <= j < ms.len() ==> #[trigger] members[j] == view_type(ms@[j]),
                found == (exists|j: int| 0 <= j < i && (#[trigger] members[j] == literal@ || members[j] == base@)),
            decreases ms.len() - i,
        {
            let hit = type_eq(&ms[i], literal) || type_eq(&ms[i], &base);
            if hit {
                assert(members[i as int] == literal@ || members[i as int] == base@);
            }
            found = found || hit;
            i = i + 1;
        }
        if !found {
            return None;
        }
        let single = crate::types::singleton(copy_type(literal));
        let narrowed = union_of(single);
        if !type_eq(&narrowed, ty) {
            Some(narrowed)
        } else {
            None
        }
    } else {
        let ghost pred = not_literal_test(literal@);
        let mut mask: Vec<bool> = Vec::new();
        let mut i: usize = 0;
        while i < ms.len()
            invariant
                0 <= i <= ms.len(),
                mask@.len() == i,
                pred == not_literal_test(literal@),
                forall|j: int| 0 <= j < i ==> mask@[j] == pred(#[trigger] view_type(ms@[j])),
            decreases ms.len() - i,
        {
            mask.push(!type_eq(&ms[i], literal));
            i = i + 1;
        }
        filter_union(ms, &mask, Ghost(pred))
    }
}


/// A property reference (`o.p`, `o?.p`) compared with a literal, written
/// either way round: the reference, the literal operand, and whether the
/// operator is an equality. It feeds the guard that narrows the property
/// itself.
pub open spec fn spec_parse_reference_literal_equality(condition: Expr) -> Option<(Expr, Expr, bool)> {
    match condition {
        Expr::Binary { left, operator, right } => match spec_equality_polarity(operator) {
            Some(eq) => if (*left is PropertyAccess || *left is OptionalPropertyAccess)
                && spec_literal_expression_value(*right) is Some {
                Some((*left, *right, eq))
            } else if (*right is PropertyAccess || *right is OptionalPropertyAccess)
                && spec_literal_expression_value(*left) is Some {
                Some((*right, *left, eq))
            } else {
                None
            },
            None => None,
        },
        _ => None,
    }
}

fn is_property_reference(e: &Expr) -> (r: bool)
    ensures
        r == (*e is PropertyAccess || *e is OptionalPropertyAccess),
{
    match e {
        Expr::PropertyAccess { .. } | Expr::OptionalPropertyAccess { .. } => true,
        _ => false,
    }
}

/// See [`spec_parse_reference_literal_equality`].
pub fn parse_reference_literal_equality(condition: &Expr) -> (r: Option<(&Expr, &Expr, bool)>)
    ensures
        match r {
            Some((reference, literal, eq)) => spec_parse_reference_literal_equality(*condition) == Some(
                (*reference, *literal, eq),
            ),
            None => spec_parse_reference_literal_equality(*condition) is None,
        },
{
    match condition {
        Expr::Binary { left, operator, right } => {
            let eq = match equality_polarity(*operator) {
                Some(eq) => eq,
                None => return None,
            };
            if is_property_reference(left) && literal_expression_value(right).is_some() {
                return Some((&**left, &**right, eq));
            }
            if is_property_reference(right) && literal_expression_value(left).is_some() {
                return Some((&**right, &**left, eq));
            }
            None
        },
        _ => None,
    }
}

} // verus!
