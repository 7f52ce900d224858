//! What a type says about a value's truthiness: always truthy, always falsy,
//! or undecided; and the same of the value at a property path.

use vstd::prelude::*;
use crate::aliases::view_strings;
use crate::context::{entry_index, spec_entry_index};
use crate::types::{
    find_property, lemma_peel_height, lemma_seq_height, lemma_view_properties, lemma_view_types,
    peeled, seq_height, spec_find_index, spec_peel, type_height, view_properties, view_types,
    SpecType, Type,
};

verus! {

/// What a number literal's spelling decides, as `facts` lists it: whether
/// the floating-point value it parses to is nonzero, `None` when it does not
/// parse. A spelling `facts` does not list decides nothing.
pub open spec fn spec_number_fact(facts: Seq<(String, Option<bool>)>, spelling: Seq<char>) -> Option<bool> {
    match spec_entry_index(facts, spelling) {
        Some(i) => facts[i].1,
        None => None,
    }
}

/// Resolving a named type never makes any member higher.
pub proof fn lemma_peel_heights(ms: Seq<SpecType>)
    ensures
        forall|i: int| 0 <= i < ms.len() ==> type_height(spec_peel(#[trigger] ms[i])) <= type_height(ms[i]),
{
    assert forall|i: int| 0 <= i < ms.len() implies type_height(spec_peel(#[trigger] ms[i])) <= type_height(
        ms[i],
    ) by {
        lemma_peel_height(ms[i]);
    }
}

/// tsc's truthiness facts for a type: every unit type decides (a number
/// literal as `facts` says), a callable, array, tuple or a shape with at
/// least one member is always truthy, a named type as what it resolves to,
/// and a union decides only when all of its members agree. `{}` admits `""`
/// and `0`, so a memberless object stays undecided.
pub open spec fn spec_type_truthiness(t: SpecType, facts: Seq<(String, Option<bool>)>) -> Option<bool>
    decreases type_height(t),
{
    match t {
        SpecType::BooleanLiteral(b) => Some(b),
        SpecType::StringLiteral(s) => Some(s.len() > 0),
        SpecType::NumberLiteral(s) => spec_number_fact(facts, s),
        SpecType::Undefined | SpecType::Null | SpecType::Void | SpecType::Never => Some(false),
        SpecType::Function | SpecType::Array(_) | SpecType::Tuple(_) => Some(true),
        SpecType::Object(o) => if o.properties.len() > 0 || o.callable {
            Some(true)
        } else {
            None
        },
        SpecType::Union(ms) => {
            proof {
                lemma_seq_height(ms);
                lemma_peel_heights(ms);
            }
            if ms.len() == 0 {
                None
            } else {
                match spec_type_truthiness(spec_peel(ms[0]), facts) {
                    None => None,
                    Some(first) => if forall|i: int|
                        0 <= i < ms.len() ==> spec_type_truthiness(spec_peel(#[trigger] ms[i]), facts)
                            == Some(first) {
                        Some(first)
                    } else {
                        None
                    },
                }
            }
        },
        SpecType::Reference(r) => {
            proof {
                lemma_peel_height(*r.target);
            }
            spec_type_truthiness(spec_peel(*r.target), facts)
        },
        _ => None,
    }
}

/// See [`spec_type_truthiness`].
pub fn type_truthiness(ty: &Type, facts: &Vec<(String, Option<bool>)>) -> (r: Option<bool>)
    ensures
        r == spec_type_truthiness(ty@, facts@),
    decreases type_height(ty@),
{
    match ty {
        Type::BooleanLiteral(b) => Some(*b),
        Type::StringLiteral(s) => Some(crate::text::chars_of(s.as_str()).len() > 0),
        Type::NumberLiteral(s) => match entry_index(facts, s.as_str()) {
            Some(i) => {
                assert(facts@[i as int].1 == facts[i as int].1);
                facts[i].1
            },
            None => None,
        },
        Type::Undefined | Type::Null | Type::Void | Type::Never => Some(false),
        Type::Function | Type::Array(_) | Type::Tuple(_) => Some(true),
        Type::Object(o) => {
            proof {
                lemma_view_properties(o.properties@);
            }
            assert(ty@ == SpecType::Object(crate::types::view_object(*o)));
            let r = if o.properties.len() > 0 || o.callable {
                Some(true)
            } else {
                None
            };
            assert(r == spec_type_truthiness(ty@, facts@));
            r
        },
        Type::Union(ms) => {
            let ghost s = view_types(ms@);
            proof {
                lemma_view_types(ms@);
                lemma_seq_height(s);
            }
            assert(ty@ == SpecType::Union(s));
            if ms.len() == 0 {
                return None;
            }
            assert(s[0] == ms@[0]@);
            assert(type_height(s[0]) <= seq_height(s));
            proof {
                lemma_peel_height(s[0]);
            }
            let first = match type_truthiness(peeled(&ms[0]), facts) {
                Some(f) => f,
                None => return None,
            };
            let mut i: usize = 1;
            while i < ms.len()
                invariant
                    1 <= i <= ms.len(),
                    s == view_types(ms@),
                    s.len() == ms.len(),
                    ty@ == SpecType::Union(s),
                    forall|j: int| 0 <= j < ms.len() ==> #[trigger] s[j] == ms@[j]@,
                    forall|j: int| 0 <= j < s.len() ==> type_height(#[trigger] s[j]) <= seq_height(s),
                    spec_type_truthiness(spec_peel(s[0]), facts@) == Some(first),
                    forall|j: int|
                        0 <= j < i ==> spec_type_truthiness(spec_peel(#[trigger] s[j]), facts@) == Some(first),
                decreases ms.len() - i,
            {
                assert(s[i as int] == ms@[i as int]@);
                assert(type_height(s[i as int]) <= seq_height(s));
                proof {
                    lemma_peel_height(s[i as int]);
                }
                let fact = type_truthiness(peeled(&ms[i]), facts);
                if fact != Some(first) {
                    assert(spec_type_truthiness(spec_peel(s[i as int]), facts@) != Some(first));
                    return None;
                }
                i = i + 1;
            }
            assert(spec_type_truthiness(ty@, facts@) == Some(first));
            Some(first)
        },
        Type::Reference(r) => {
            let target: &Type = &r.target;
            assert(ty@ == SpecType::Reference(crate::types::view_reference(*r)));
            assert(crate::types::view_reference(*r).target == Box::new(target@));
            proof {
                lemma_peel_height(target@);
            }
            type_truthiness(peeled(target), facts)
        },
        _ => None,
    }
}

/// The type at the end of `path` from its `k`th segment on, read through
/// objects (each named type resolved), and whether a segment on the way is
/// optional; `None` when a segment is not a property of an object.
pub open spec fn spec_path_leaf(t: SpecType, path: Seq<Seq<char>>, k: int) -> Option<(SpecType, bool)>
    decreases path.len() - k,
{
    if k >= path.len() {
        Some((spec_peel(t), false))
    } else {
        match spec_peel(t) {
            SpecType::Object(o) => match spec_find_index(o.properties, path[k]) {
                Some(i) => match spec_path_leaf(o.properties[i].ty, path, k + 1) {
                    Some((leaf, optional)) => Some((leaf, optional || o.properties[i].optional)),
                    None => None,
                },
                None => None,
            },
            _ => None,
        }
    }
}

fn path_leaf<'t>(t: &'t Type, path: &Vec<String>, k: usize) -> (r: Option<(&'t Type, bool)>)
    requires
        k <= path.len(),
    ensures
        match r {
            Some((leaf, optional)) => spec_path_leaf(t@, view_strings(path@), k as int) == Some((leaf@, optional)),
            None => spec_path_leaf(t@, view_strings(path@), k as int) is None,
        },
    decreases path.len() - k,
{
    let p = peeled(t);
    if k >= path.len() {
        return Some((p, false));
    }
    match p {
        Type::Object(o) => {
            proof {
                lemma_view_properties(o.properties@);
            }
            assert(p@ == SpecType::Object(crate::types::view_object(*o)));
            assert(view_strings(path@)[k as int] == path@[k as int]@);
            match find_property(&o.properties, path[k].as_str()) {
                Some(i) => {
                    let property = &o.properties[i];
                    assert(view_properties(o.properties@)[i as int] == crate::types::view_property(*property));
                    match path_leaf(&property.ty, path, k + 1) {
                        Some((leaf, optional)) => Some((leaf, optional || property.optional)),
                        None => None,
                    }
                },
                None => None,
            }
        },
        _ => None,
    }
}

/// Whether the value at `path` inside `member` is always truthy
/// (`Some(true)`), always falsy (`Some(false)`) or undecided: the leaf's
/// truthiness (see [`spec_type_truthiness`]), except that below an optional
/// segment the value may be absent, so only a falsy leaf decides.
pub open spec fn spec_path_truthiness(member: SpecType, path: Seq<Seq<char>>, facts: Seq<(String, Option<bool>)>) -> Option<bool> {
    match spec_path_leaf(member, path, 0) {
        Some((leaf, optional)) => match spec_type_truthiness(leaf, facts) {
            Some(fact) => if !optional || !fact {
                Some(fact)
            } else {
                None
            },
            None => None,
        },
        None => None,
    }
}

/// See [`spec_path_truthiness`].
pub fn path_truthiness(member: &Type, path: &Vec<String>, facts: &Vec<(String, Option<bool>)>) -> (r: Option<bool>)
    ensures
        r == spec_path_truthiness(member@, view_strings(path@), facts@),
{
    let (leaf, optional) = match path_leaf(member, path, 0) {
        Some(p) => p,
        None => return None,
    };
    let fact = match type_truthiness(leaf, facts) {
        Some(f) => f,
        None => return None,
    };
    if !optional || !fact {
        Some(fact)
    } else {
        None
    }
}

} // verus!
