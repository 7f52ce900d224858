//! `typeof x === "tag"` guards.

use vstd::prelude::*;
use crate::text::{chars_are, chars_of};
use crate::types::{
    copy_type, lemma_filter_all, lemma_view_properties, type_eq, lemma_filter_single, lemma_filter_take_step, lemma_view_types, lemma_view_types_push, opt_view, peeled, reference_own_name,
    spec_members, spec_peel, spec_reference_own_name, spec_union, union_of, view_object,
    view_reference, view_type, view_types, SpecType, Type,
};

verus! {

/// A tag `typeof` reports at runtime.
#[derive(PartialEq, Eq, Structural, Clone, Copy, Debug)]
pub enum TypeofTag {
    Number,
    String,
    Boolean,
    BigInt,
    Symbol,
    Undefined,
    Function,
    Object,
}

/// The tag a `typeof` comparison names, when it is one `typeof` reports.
pub open spec fn spec_parse_typeof_tag(s: Seq<char>) -> Option<TypeofTag> {
    if s == "number"@ {
        Some(TypeofTag::Number)
    } else if s == "string"@ {
        Some(TypeofTag::String)
    } else if s == "boolean"@ {
        Some(TypeofTag::Boolean)
    } else if s == "bigint"@ {
        Some(TypeofTag::BigInt)
    } else if s == "symbol"@ {
        Some(TypeofTag::Symbol)
    } else if s == "undefined"@ {
        Some(TypeofTag::Undefined)
    } else if s == "function"@ {
        Some(TypeofTag::Function)
    } else if s == "object"@ {
        Some(TypeofTag::Object)
    } else {
        None
    }
}

/// See [`spec_parse_typeof_tag`].
pub fn parse_typeof_tag(s: &str) -> (r: Option<TypeofTag>)
    ensures
        r == spec_parse_typeof_tag(s@),
{
    let c = chars_of(s);
    if chars_are(&c, "number") {
        Some(TypeofTag::Number)
    } else if chars_are(&c, "string") {
        Some(TypeofTag::String)
    } else if chars_are(&c, "boolean") {
        Some(TypeofTag::Boolean)
    } else if chars_are(&c, "bigint") {
        Some(TypeofTag::BigInt)
    } else if chars_are(&c, "symbol") {
        Some(TypeofTag::Symbol)
    } else if chars_are(&c, "undefined") {
        Some(TypeofTag::Undefined)
    } else if chars_are(&c, "function") {
        Some(TypeofTag::Function)
    } else if chars_are(&c, "object") {
        Some(TypeofTag::Object)
    } else {
        None
    }
}

/// The global `Function` interface, which `typeof` reports as `"function"`.
pub open spec fn spec_is_global_function_interface(t: SpecType) -> bool {
    match t {
        SpecType::Reference(r) => spec_reference_own_name(r) == "Function"@,
        _ => false,
    }
}

/// The `typeof` tag a type reports at runtime, or `None` for a type whose tag
/// is not statically decidable (`any`, `unknown`, `never`, a type variable).
pub open spec fn spec_typeof_tag_of(member: SpecType) -> Option<TypeofTag> {
    if spec_is_global_function_interface(member) {
        Some(TypeofTag::Function)
    } else {
        match spec_peel(member) {
            SpecType::Number | SpecType::NumberLiteral(_) => Some(TypeofTag::Number),
            SpecType::String | SpecType::StringLiteral(_) => Some(TypeofTag::String),
            SpecType::Boolean | SpecType::BooleanLiteral(_) => Some(TypeofTag::Boolean),
            SpecType::BigInt => Some(TypeofTag::BigInt),
            SpecType::Symbol => Some(TypeofTag::Symbol),
            SpecType::Undefined | SpecType::Void => Some(TypeofTag::Undefined),
            SpecType::Function => Some(TypeofTag::Function),
            SpecType::Object(o) => if o.callable {
                Some(TypeofTag::Function)
            } else {
                Some(TypeofTag::Object)
            },
            SpecType::Array(_) | SpecType::Tuple(_) | SpecType::Null => Some(TypeofTag::Object),
            _ => None,
        }
    }
}

fn is_global_function_interface(member: &Type) -> (r: bool)
    ensures
        r == spec_is_global_function_interface(member@),
{
    match member {
        Type::Reference(reference) => {
            assert(member@ == SpecType::Reference(view_reference(*reference)));
            let own = reference_own_name(reference);
            chars_are(&own, "Function")
        },
        _ => false,
    }
}

/// See [`spec_typeof_tag_of`].
pub fn typeof_tag_of(member: &Type) -> (r: Option<TypeofTag>)
    ensures
        r == spec_typeof_tag_of(member@),
{
    if is_global_function_interface(member) {
        return Some(TypeofTag::Function);
    }
    let p = peeled(member);
    match p {
        Type::Number | Type::NumberLiteral(_) => Some(TypeofTag::Number),
        Type::String | Type::StringLiteral(_) => Some(TypeofTag::String),
        Type::Boolean | Type::BooleanLiteral(_) => Some(TypeofTag::Boolean),
        Type::BigInt => Some(TypeofTag::BigInt),
        Type::Symbol => Some(TypeofTag::Symbol),
        Type::Undefined | Type::Void => Some(TypeofTag::Undefined),
        Type::Function => Some(TypeofTag::Function),
        Type::Object(o) => {
            assert(p@ == SpecType::Object(view_object(*o)));
            if o.callable {
                Some(TypeofTag::Function)
            } else {
                Some(TypeofTag::Object)
            }
        },
        Type::Array(_) | Type::Tuple(_) | Type::Null => Some(TypeofTag::Object),
        _ => None,
    }
}

/// `s` with later duplicates dropped.
pub open spec fn seq_dedup<A>(s: Seq<A>) -> Seq<A>
    decreases s.len(),
{
    if s.len() == 0 {
        Seq::empty()
    } else {
        let d = seq_dedup(s.drop_last());
        if d.contains(s.last()) {
            d
        } else {
            d.push(s.last())
        }
    }
}

/// Every `typeof` tag a value of `ty` can report, in member order without
/// repeats, or `None` when some member's tag cannot be decided.
pub open spec fn spec_typeof_tags_of(ty: SpecType) -> Option<Seq<TypeofTag>> {
    let members = spec_members(spec_peel(ty));
    if forall|i: int| 0 <= i < members.len() ==> (#[trigger] spec_typeof_tag_of(members[i])) is Some {
        Some(seq_dedup(members.map_values(|m: SpecType| spec_typeof_tag_of(m).unwrap())))
    } else {
        None
    }
}

/// See [`spec_typeof_tags_of`].
pub fn typeof_tags_of(ty: &Type) -> (r: Option<Vec<TypeofTag>>)
    ensures
        match r {
            Some(v) => spec_typeof_tags_of(ty@) == Some(v@),
            None => spec_typeof_tags_of(ty@) is None,
        },
{
    let p = peeled(ty);
    let ghost members = spec_members(spec_peel(ty@));
    let ghost f = |m: SpecType| spec_typeof_tag_of(m).unwrap();
    let mut tags: Vec<TypeofTag> = Vec::new();
    match p {
        Type::Union(ms) => {
            proof {
                lemma_view_types(ms@);
            }
            let mut i: usize = 0;
            while i < ms.len()
                invariant
                    0 <= i <= ms.len(),
                    members == view_types(ms@),
                    members == spec_members(spec_peel(ty@)),
                    members.len() == ms.len(),
                    forall|j: int| 0 <= j < ms.len() ==> #[trigger] members[j] == view_type(ms@[j]),
                    forall|j: int| 0 <= j < i ==> (#[trigger] spec_typeof_tag_of(members[j])) is Some,
                    f == (|m: SpecType| spec_typeof_tag_of(m).unwrap()),
                    tags@ == seq_dedup(members.take(i as int).map_values(f)),
                decreases ms.len() - i,
            {
                let tag = match typeof_tag_of(&ms[i]) {
                    Some(t) => t,
                    None => {
                        assert(spec_typeof_tag_of(members[i as int]) is None);
                        assert(!(forall|j: int|
                            0 <= j < members.len() ==> (#[trigger] spec_typeof_tag_of(
                                members[j],
                            )) is Some));
                        return None;
                    },
                };
                proof {
                    assert(members.take(i + 1).map_values(f).drop_last() =~= members.take(
                        i as int,
                    ).map_values(f));
                    assert(members.take(i + 1).map_values(f).last() == tag);
                }
                if !tags_contain(&tags, tag) {
                    tags.push(tag);
                }
                i = i + 1;
            }
            assert(members.take(ms.len() as int) =~= members);
            Some(tags)
        },
        _ => {
            assert(members =~= seq![p@]);
            match typeof_tag_of(p) {
                Some(t) => {
                    tags.push(t);
                    proof {
                        let mapped = members.map_values(f);
                        assert(mapped =~= seq![t]);
                        assert(mapped.drop_last() =~= Seq::<TypeofTag>::empty());
                        assert(seq_dedup(Seq::<TypeofTag>::empty()) =~= Seq::<TypeofTag>::empty());
                        assert(mapped.last() == t);
                        assert(seq_dedup(mapped) =~= seq![t]);
                    }
                    Some(tags)
                },
                None => {
                    assert(spec_typeof_tag_of(members[0]) is None);
                    None
                },
            }
        },
    }
}

fn tags_contain(tags: &Vec<TypeofTag>, tag: TypeofTag) -> (r: bool)
    ensures
        r == tags@.contains(tag),
{
    let mut i: usize = 0;
    while i < tags.len()
        invariant
            0 <= i <= tags.len(),
            forall|j: int| 0 <= j < i ==> tags@[j] != tag,
        decreases tags.len() - i,
    {
        if tags[i] == tag {
            assert(tags@[i as int] == tag);
            return true;
        }
        i = i + 1;
    }
    false
}

/// The type a `typeof x === "<tag>"` test proves for a subject with no tag of
/// its own; only tags naming exactly one type have one.
pub open spec fn spec_type_for_typeof_tag(tag: Option<TypeofTag>) -> Option<SpecType> {
    match tag {
        Some(TypeofTag::String) => Some(SpecType::String),
        Some(TypeofTag::Number) => Some(SpecType::Number),
        Some(TypeofTag::Boolean) => Some(SpecType::Boolean),
        Some(TypeofTag::BigInt) => Some(SpecType::BigInt),
        Some(TypeofTag::Symbol) => Some(SpecType::Symbol),
        Some(TypeofTag::Undefined) => Some(SpecType::Undefined),
        _ => None,
    }
}

fn type_for_tag(tag: Option<TypeofTag>) -> (r: Option<Type>)
    ensures
        opt_view(r) == spec_type_for_typeof_tag(tag),
{
    match tag {
        Some(TypeofTag::String) => Some(Type::String),
        Some(TypeofTag::Number) => Some(Type::Number),
        Some(TypeofTag::Boolean) => Some(Type::Boolean),
        Some(TypeofTag::BigInt) => Some(Type::BigInt),
        Some(TypeofTag::Symbol) => Some(Type::Symbol),
        Some(TypeofTag::Undefined) => Some(Type::Undefined),
        _ => None,
    }
}

/// See [`spec_type_for_typeof_tag`].
pub fn type_for_typeof_tag(tag: &str) -> (r: Option<Type>)
    ensures
        opt_view(r) == spec_type_for_typeof_tag(spec_parse_typeof_tag(tag@)),
{
    type_for_tag(parse_typeof_tag(tag))
}

/// A tag that names a primitive.
pub open spec fn spec_is_primitive_tag(tag: Option<TypeofTag>) -> bool {
    match tag {
        Some(TypeofTag::String) | Some(TypeofTag::Number) | Some(TypeofTag::Boolean) | Some(
            TypeofTag::BigInt,
        ) | Some(TypeofTag::Symbol) | Some(TypeofTag::Undefined) => true,
        _ => false,
    }
}

/// A tag no value reports (`typeof x === "Object"`): the two branches split the
/// subject by primitiveness — the true branch keeps what is not primitive.
pub open spec fn spec_narrow_by_unmatched_typeof_tag(ty: SpecType, keep_matching: bool) -> Option<
    SpecType,
> {
    let members = spec_members(ty);
    let kept = members.filter(
        |m: SpecType| spec_is_primitive_tag(spec_typeof_tag_of(m)) != keep_matching,
    );
    if kept.len() == 0 {
        Some(SpecType::Never)
    } else if kept.len() == members.len() {
        None
    } else {
        Some(spec_union(kept))
    }
}

/// See [`spec_narrow_by_unmatched_typeof_tag`].
pub fn narrow_by_unmatched_typeof_tag(ty: &Type, keep_matching: bool) -> (r: Option<Type>)
    ensures
        opt_view(r) == spec_narrow_by_unmatched_typeof_tag(ty@, keep_matching),
{
    let ghost pred = |m: SpecType| spec_is_primitive_tag(spec_typeof_tag_of(m)) != keep_matching;
    match ty {
        Type::Union(ms) => {
            let ghost members = view_types(ms@);
            proof {
                lemma_view_types(ms@);
            }
            let mut kept: Vec<Type> = Vec::new();
            let mut i: usize = 0;
            while i < ms.len()
                invariant
                    0 <= i <= ms.len(),
                    members == view_types(ms@),
                    members.len() == ms.len(),
                    forall|j: int| 0 <= j < ms.len() ==> #[trigger] members[j] == view_type(ms@[j]),
                    pred == (|m: SpecType|
                        spec_is_primitive_tag(spec_typeof_tag_of(m)) != keep_matching),
                    view_types(kept@) == members.take(i as int).filter(pred),
                decreases ms.len() - i,
            {
                proof {
                    lemma_filter_take_step(members, i as int, pred);
                }
                let tag = typeof_tag_of(&ms[i]);
                let primitive = is_primitive_tag(tag);
                if primitive != keep_matching {
                    let c = copy_type(&ms[i]);
                    proof {
                        lemma_view_types_push(kept@, c);
                    }
                    kept.push(c);
                }
                i = i + 1;
            }
            assert(members.take(ms.len() as int) =~= members);
            proof {
                lemma_view_types(kept@);
                lemma_filter_all(members, pred);
            }
            if kept.len() == 0 {
                Some(Type::Never)
            } else if kept.len() == ms.len() {
                None
            } else {
                Some(union_of(kept))
            }
        },
        _ => {
            let ghost members = spec_members(ty@);
            assert(members =~= seq![ty@]);
            assert(members.drop_last() =~= Seq::<SpecType>::empty());
            let primitive = is_primitive_tag(typeof_tag_of(ty));
            proof {
                lemma_filter_single(ty@, pred);
            }
            if primitive != keep_matching {
                None
            } else {
                Some(Type::Never)
            }
        },
    }
}

fn is_primitive_tag(tag: Option<TypeofTag>) -> (r: bool)
    ensures
        r == spec_is_primitive_tag(tag),
{
    match tag {
        Some(TypeofTag::String) | Some(TypeofTag::Number) | Some(TypeofTag::Boolean) | Some(
            TypeofTag::BigInt,
        ) | Some(TypeofTag::Symbol) | Some(TypeofTag::Undefined) => true,
        _ => false,
    }
}


/// An object shape with no members: the `{}` type every non-nullish value fits.
pub open spec fn spec_is_empty_object(t: SpecType) -> bool {
    match t {
        SpecType::Object(o) => o.properties.len() == 0 && o.string_index is None && !o.callable,
        _ => false,
    }
}

/// Whether the keyword type `keyword` is assignable to the (peeled, non-union)
/// type `target`: the same keyword, `any`, `unknown`, `void` for `undefined`,
/// or `{}` for any non-nullish keyword.
pub open spec fn spec_keyword_fits(keyword: SpecType, target: SpecType) -> bool {
    target == keyword || target is Any || target is GenuineUnknown || (keyword is Undefined
        && target is Void) || (!(keyword is Undefined) && spec_is_empty_object(target))
}

/// Whether the (peeled, non-union) type `source` is assignable to the keyword
/// type `keyword`: the keyword itself, `never`, or one of its literals.
pub open spec fn spec_fits_keyword(source: SpecType, keyword: SpecType) -> bool {
    source == keyword || source is Never || (source is StringLiteral && keyword is String) || (
    source is NumberLiteral && keyword is Number) || (source is BooleanLiteral
        && keyword is Boolean)
}

fn is_empty_object(t: &Type) -> (r: bool)
    ensures
        r == spec_is_empty_object(t@),
{
    match t {
        Type::Object(o) => {
            assert(t@ == SpecType::Object(view_object(*o)));
            proof {
                lemma_view_properties(o.properties@);
            }
            o.properties.len() == 0 && o.string_index.is_none() && !o.callable
        },
        _ => false,
    }
}

fn keyword_fits(keyword: &Type, target: &Type) -> (r: bool)
    ensures
        r == spec_keyword_fits(keyword@, target@),
{
    let undefined = match keyword {
        Type::Undefined => true,
        _ => false,
    };
    let void = match target {
        Type::Void => true,
        _ => false,
    };
    let loose = match target {
        Type::Any | Type::GenuineUnknown => true,
        _ => false,
    };
    type_eq(target, keyword) || loose || (undefined && void) || (!undefined && is_empty_object(
        target,
    ))
}

fn fits_keyword(source: &Type, keyword: &Type) -> (r: bool)
    ensures
        r == spec_fits_keyword(source@, keyword@),
{
    let literal = match (source, keyword) {
        (Type::StringLiteral(_), Type::String) => true,
        (Type::NumberLiteral(_), Type::Number) => true,
        (Type::BooleanLiteral(_), Type::Boolean) => true,
        (Type::Never, _) => true,
        _ => false,
    };
    type_eq(source, keyword) || literal
}

/// A lone primitive whose tag the test rules out leaves the branch unreachable;
/// object and function tags decide nothing here.
pub open spec fn spec_typeof_ruled_out(ty: SpecType, tag: TypeofTag, keep_matching: bool) -> Option<
    SpecType,
> {
    match spec_typeof_tag_of(ty) {
        Some(member_tag) => if member_tag != TypeofTag::Object && member_tag != TypeofTag::Function
            && ((member_tag == tag) != keep_matching) {
            Some(SpecType::Never)
        } else {
            None
        },
        None => None,
    }
}

fn typeof_ruled_out(ty: &Type, tag: TypeofTag, keep_matching: bool) -> (r: Option<Type>)
    ensures
        opt_view(r) == spec_typeof_ruled_out(ty@, tag, keep_matching),
{
    match typeof_tag_of(ty) {
        Some(member_tag) => if member_tag != TypeofTag::Object && member_tag != TypeofTag::Function
            && ((member_tag == tag) != keep_matching) {
            Some(Type::Never)
        } else {
            None
        },
        None => None,
    }
}

/// tsc's `getNarrowedType` for a subject that is not a union: the tag's own
/// type stands in when it is a subtype of the subject, the subject stands when
/// it is the narrower, and a tag the subject can never report leaves the branch
/// unreachable.
pub open spec fn spec_narrow_non_union_by_typeof(ty: SpecType, tag: TypeofTag, keep_matching: bool) -> Option<SpecType> {
    let ruled_out = spec_typeof_ruled_out(ty, tag, keep_matching);
    if !keep_matching {
        ruled_out
    } else if ty is Any {
        spec_type_for_typeof_tag(Some(tag))
    } else if ty is Unknown || ty is ErrorType || ty is TypeParameter {
        None
    } else {
        match spec_type_for_typeof_tag(Some(tag)) {
            None => ruled_out,
            Some(candidate) => if ty is GenuineUnknown {
                Some(candidate)
            } else if spec_keyword_fits(candidate, spec_peel(ty)) {
                if candidate != ty {
                    Some(candidate)
                } else {
                    None
                }
            } else if spec_fits_keyword(spec_peel(ty), candidate) {
                None
            } else {
                match ruled_out {
                    Some(n) => Some(n),
                    None => Some(SpecType::Never),
                }
            },
        }
    }
}

fn narrow_non_union_by_typeof(ty: &Type, tag: TypeofTag, keep_matching: bool) -> (r: Option<Type>)
    ensures
        opt_view(r) == spec_narrow_non_union_by_typeof(ty@, tag, keep_matching),
{
    let ruled_out = typeof_ruled_out(ty, tag, keep_matching);
    if !keep_matching {
        return ruled_out;
    }
    match ty {
        Type::Any => return type_for_tag(Some(tag)),
        Type::Unknown | Type::ErrorType | Type::TypeParameter(_) => return None,
        _ => {},
    }
    let candidate = match type_for_tag(Some(tag)) {
        None => return ruled_out,
        Some(c) => c,
    };
    if let Type::GenuineUnknown = ty {
        return Some(candidate);
    }
    let structure = peeled(ty);
    if keyword_fits(&candidate, structure) {
        if !type_eq(&candidate, ty) {
            return Some(candidate);
        }
        return None;
    }
    if fits_keyword(structure, &candidate) {
        return None;
    }
    match ruled_out {
        Some(n) => Some(n),
        None => Some(Type::Never),
    }
}

/// Whether a union member survives a `typeof` test: its tag lands in the
/// branch, or it has no decidable tag.
pub open spec fn spec_typeof_survives(member: SpecType, tag: TypeofTag, keep_matching: bool) -> bool {
    match spec_typeof_tag_of(member) {
        Some(member_tag) => (member_tag == tag) == keep_matching,
        None => true,
    }
}

/// In the matching branch the `unknown` keyword becomes the tag's own type.
pub open spec fn spec_typeof_member_result(member: SpecType, tag: TypeofTag, keep_matching: bool) -> SpecType {
    if keep_matching && member is GenuineUnknown {
        match spec_type_for_typeof_tag(Some(tag)) {
            Some(c) => c,
            None => member,
        }
    } else {
        member
    }
}

/// The members a `typeof` test keeps in a branch.
pub open spec fn spec_typeof_kept(members: Seq<SpecType>, tag: TypeofTag, keep_matching: bool) -> Seq<SpecType> {
    members.filter(|m: SpecType| spec_typeof_survives(m, tag, keep_matching)).map_values(
        |m: SpecType| spec_typeof_member_result(m, tag, keep_matching),
    )
}

/// A union narrowed by `typeof`: `never` when nothing lands in the branch,
/// `None` when every member does.
pub open spec fn spec_narrow_union_members_by_typeof(members: Seq<SpecType>, tag: TypeofTag, keep_matching: bool) -> Option<SpecType> {
    let kept = spec_typeof_kept(members, tag, keep_matching);
    if kept.len() == 0 {
        Some(SpecType::Never)
    } else if kept.len() == members.len() {
        None
    } else {
        Some(spec_union(kept))
    }
}

/// The subject a `typeof` guard narrows: a named alias of a union is opened.
pub open spec fn spec_typeof_subject(ty: SpecType) -> SpecType {
    if ty is Reference && spec_peel(ty) is Union {
        spec_peel(ty)
    } else {
        ty
    }
}

/// Narrowing `ty` by `typeof x === tag` (`keep_matching`) or its negation.
/// `tag` is `None` for a string no value reports.
pub open spec fn spec_narrow_union_by_typeof(ty: SpecType, tag: Option<TypeofTag>, keep_matching: bool) -> Option<SpecType> {
    let subject = spec_typeof_subject(ty);
    match tag {
        None => spec_narrow_by_unmatched_typeof_tag(subject, keep_matching),
        Some(tag) => match subject {
            SpecType::Union(members) => spec_narrow_union_members_by_typeof(members, tag, keep_matching),
            _ => spec_narrow_non_union_by_typeof(subject, tag, keep_matching),
        },
    }
}

fn typeof_member_result(member: &Type, tag: TypeofTag, keep_matching: bool) -> (r: Type)
    ensures
        r@ == spec_typeof_member_result(member@, tag, keep_matching),
{
    if keep_matching {
        if let Type::GenuineUnknown = member {
            if let Some(c) = type_for_tag(Some(tag)) {
                return c;
            }
        }
    }
    copy_type(member)
}

fn narrow_union_members_by_typeof(ms: &Vec<Type>, tag: TypeofTag, keep_matching: bool) -> (r: Option<Type>)
    ensures
        opt_view(r) == spec_narrow_union_members_by_typeof(view_types(ms@), tag, keep_matching),
{
    let ghost members = view_types(ms@);
    let ghost pred = |m: SpecType| spec_typeof_survives(m, tag, keep_matching);
    let ghost f = |m: SpecType| spec_typeof_member_result(m, tag, keep_matching);
    proof {
        lemma_view_types(ms@);
    }
    let mut kept: Vec<Type> = Vec::new();
    let mut i: usize = 0;
    while i < ms.len()
        invariant
            0 <= i <= ms.len(),
            members == view_types(ms@),
            members.len() == ms.len(),
            forall|j: int| 0 <= j < ms.len() ==> #[trigger] members[j] == view_type(ms@[j]),
            pred == (|m: SpecType| spec_typeof_survives(m, tag, keep_matching)),
            f == (|m: SpecType| spec_typeof_member_result(m, tag, keep_matching)),
            view_types(kept@) == members.take(i as int).filter(pred).map_values(f),
        decreases ms.len() - i,
    {
        proof {
            lemma_filter_take_step(members, i as int, pred);
        }
        let survives = match typeof_tag_of(&ms[i]) {
            Some(member_tag) => (member_tag == tag) == keep_matching,
            None => true,
        };
        if survives {
            let c = typeof_member_result(&ms[i], tag, keep_matching);
            proof {
                lemma_view_types_push(kept@, c);
                let pre = members.take(i as int).filter(pred);
                assert(pre.push(members[i as int]).map_values(f) =~= pre.map_values(f).push(
                    f(members[i as int]),
                ));
            }
            kept.push(c);
        }
        i = i + 1;
    }
    assert(members.take(ms.len() as int) =~= members);
    proof {
        lemma_view_types(kept@);
    }
    if kept.len() == 0 {
        Some(Type::Never)
    } else if kept.len() == ms.len() {
        None
    } else {
        Some(union_of(kept))
    }
}

/// Narrows `ty` by a `typeof x === "tag"` guard: `keep_matching` keeps the
/// members whose runtime tag is `tag` (the `===` true branch), otherwise
/// removes them; members with an undecidable tag are kept either way. `None`
/// when the guard changes nothing.
pub fn narrow_union_by_typeof(ty: &Type, tag: &str, keep_matching: bool) -> (r: Option<Type>)
    ensures
        opt_view(r) == spec_narrow_union_by_typeof(ty@, spec_parse_typeof_tag(tag@), keep_matching),
{
    let parsed = parse_typeof_tag(tag);
    let structure = peeled(ty);
    let subject: &Type = match (ty, structure) {
        (Type::Reference(_), Type::Union(_)) => structure,
        _ => ty,
    };
    match parsed {
        None => narrow_by_unmatched_typeof_tag(subject, keep_matching),
        Some(t) => match subject {
            Type::Union(ms) => narrow_union_members_by_typeof(ms, t, keep_matching),
            _ => narrow_non_union_by_typeof(subject, t, keep_matching),
        },
    }
}

} // verus!
