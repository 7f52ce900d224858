//! The signature a type-predicate guard reads for its callee, and the shapes
//! predicate narrowing reads.

use vstd::prelude::*;
use crate::aliases::{reference_path, spec_reference_path, view_strings};
use crate::syntax::Expr;
use crate::types::{contains_type, lemma_view_types, view_type, view_types, SpecType, Type};
use crate::signature::opt_signature_view;
use crate::symbols::{copy_signature, FunctionSignatureInfo, SpecSignature, SymbolInfo};

verus! {

/// The signature a predicate guard reads for a callee: the declaration's own
/// collected signature, else the written call signature of the callable type
/// the binding is declared with (`declare const isE: { (v: unknown): v is E }`).
pub open spec fn spec_predicate_signature_of(symbol: SymbolInfo, written: Option<SpecSignature>) -> Option<SpecSignature> {
    match symbol.function_signature {
        Some(s) => Some(s@),
        None => written,
    }
}

/// See [`spec_predicate_signature_of`]; `written` is the call signature read
/// off the binding's declared type, when it has one.
pub fn predicate_signature_of(symbol: &SymbolInfo, written: Option<FunctionSignatureInfo>) -> (r: Option<FunctionSignatureInfo>)
    ensures
        opt_signature_view(r) == spec_predicate_signature_of(*symbol, opt_signature_view(written)),
{
    match &symbol.function_signature {
        Some(s) => Some(copy_signature(s)),
        None => written,
    }
}


/// The dotted type name an expression references: a bare identifier, or a
/// path of property reads off one (`SQL.Aliased`); anything else names no
/// class.
pub open spec fn spec_class_reference_name(e: Expr) -> Option<Seq<char>>
    decreases e,
{
    match e {
        Expr::Identifier(name) => Some(name@),
        Expr::PropertyAccess { object, property_name } => match spec_class_reference_name(*object) {
            Some(base) => Some(base + seq!['.'] + property_name@),
            None => None,
        },
        _ => None,
    }
}

/// See [`spec_class_reference_name`].
pub fn class_reference_name(expression: &Expr) -> (r: Option<String>)
    ensures
        match r {
            Some(n) => spec_class_reference_name(*expression) == Some(n@),
            None => spec_class_reference_name(*expression) is None,
        },
    decreases expression,
{
    match expression {
        Expr::Identifier(name) => Some(name.clone()),
        Expr::PropertyAccess { object, property_name } => match class_reference_name(object) {
            Some(base) => {
                let mut name = base;
                let ghost b = name@;
                proof {
                    reveal_strlit(".");
                }
                name.append(".");
                name.append(property_name.as_str());
                assert(name@ =~= b + seq!['.'] + property_name@);
                Some(name)
            },
            None => None,
        },
        _ => None,
    }
}

/// The members a partition reads a type as: a union's members, none for
/// `never`, the type itself otherwise.
pub open spec fn spec_partition_members(t: SpecType) -> Seq<SpecType> {
    match t {
        SpecType::Union(ms) => ms,
        SpecType::Never => Seq::empty(),
        _ => seq![t],
    }
}

/// Whether `a` and `b` are exactly the two halves `declared` splits into:
/// together they have as many members as it, and the same ones.
pub open spec fn spec_predicate_partitions(declared: SpecType, a: SpecType, b: SpecType) -> bool {
    let whole = spec_partition_members(declared);
    let halves = spec_partition_members(a) + spec_partition_members(b);
    &&& whole.len() == halves.len()
    &&& forall|i: int| 0 <= i < whole.len() ==> halves.contains(#[trigger] whole[i])
    &&& forall|i: int| 0 <= i < halves.len() ==> whole.contains(#[trigger] halves[i])
}

fn partition_members(t: &Type, out: &mut Vec<Type>)
    ensures
        view_types(final(out)@) == view_types(old(out)@) + spec_partition_members(t@),
{
    let ghost before = view_types(out@);
    match t {
        Type::Union(ms) => {
            let mut i: usize = 0;
            proof {
                lemma_view_types(ms@);
            }
            assert(before + view_types(ms@).take(0) =~= before);
            while i < ms.len()
                invariant
                    0 <= i <= ms.len(),
                    view_types(ms@).len() == ms.len(),
                    forall|j: int| 0 <= j < ms.len() ==> #[trigger] view_types(ms@)[j] == view_type(ms@[j]),
                    view_types(out@) == before + view_types(ms@).take(i as int),
                decreases ms.len() - i,
            {
                let c = crate::types::copy_type(&ms[i]);
                proof {
                    crate::types::lemma_view_types_push(out@, c);
                    assert(before + view_types(ms@).take(i + 1) =~= (before + view_types(ms@).take(i as int)).push(
                        view_type(c),
                    ));
                }
                out.push(c);
                i = i + 1;
            }
            assert(view_types(ms@).take(ms.len() as int) =~= view_types(ms@));
        },
        Type::Never => {
            assert(before + Seq::<SpecType>::empty() =~= before);
        },
        _ => {
            let c = crate::types::copy_type(t);
            proof {
                crate::types::lemma_view_types_push(out@, c);
            }
            out.push(c);
            assert(before.push(t@) =~= before + seq![t@]);
        },
    }
}

fn all_contained(items: &Vec<Type>, within: &Vec<Type>) -> (r: bool)
    ensures
        r == forall|i: int| 0 <= i < view_types(items@).len() ==> view_types(within@).contains(
            #[trigger] view_types(items@)[i],
        ),
{
    proof {
        lemma_view_types(items@);
    }
    let mut i: usize = 0;
    while i < items.len()
        invariant
            0 <= i <= items.len(),
            view_types(items@).len() == items.len(),
            forall|j: int| 0 <= j < items.len() ==> #[trigger] view_types(items@)[j] == view_type(items@[j]),
            forall|j: int| 0 <= j < i ==> view_types(within@).contains(#[trigger] view_types(items@)[j]),
        decreases items.len() - i,
    {
        if !contains_type(within, &items[i]) {
            assert(!view_types(within@).contains(view_types(items@)[i as int]));
            return false;
        }
        i = i + 1;
    }
    true
}

/// See [`spec_predicate_partitions`].
pub fn predicate_partitions(declared: &Type, a: &Type, b: &Type) -> (r: bool)
    ensures
        r == spec_predicate_partitions(declared@, a@, b@),
{
    let mut whole: Vec<Type> = Vec::new();
    let mut halves: Vec<Type> = Vec::new();
    assert(view_types(whole@) =~= Seq::<SpecType>::empty());
    assert(view_types(halves@) =~= Seq::<SpecType>::empty());
    partition_members(declared, &mut whole);
    partition_members(a, &mut halves);
    partition_members(b, &mut halves);
    assert(view_types(whole@) =~= spec_partition_members(declared@));
    assert(view_types(halves@) =~= spec_partition_members(a@) + spec_partition_members(b@));
    proof {
        lemma_view_types(whole@);
        lemma_view_types(halves@);
    }
    whole.len() == halves.len() && all_contained(&whole, &halves) && all_contained(&halves, &whole)
}


/// A call of a method with no type arguments and no arguments
/// (`type.isUnion()`) on a reference: the reference's binding, the
/// properties read off it, and the method's name, the shape a `this is T`
/// predicate guards.
pub open spec fn spec_parse_this_predicate_call(condition: Expr) -> Option<(Seq<char>, Seq<Seq<char>>, Seq<char>)> {
    match condition {
        Expr::PropertyCall { object, property_name, type_argument_count, arguments } => if type_argument_count
            == 0 && arguments.len() == 0 {
            match spec_reference_path(*object) {
                Some((subject, path)) => Some((subject, path, property_name@)),
                None => None,
            }
        } else {
            None
        },
        _ => None,
    }
}

/// See [`spec_parse_this_predicate_call`].
pub fn parse_this_predicate_call(condition: &Expr) -> (r: Option<(String, Vec<String>, &str)>)
    ensures
        match r {
            Some((subject, path, method)) => spec_parse_this_predicate_call(*condition) == Some(
                (subject@, view_strings(path@), method@),
            ),
            None => spec_parse_this_predicate_call(*condition) is None,
        },
{
    match condition {
        Expr::PropertyCall { object, property_name, type_argument_count, arguments } => {
            if *type_argument_count != 0 || arguments.len() != 0 {
                return None;
            }
            match reference_path(object) {
                Some((subject, path)) => Some((subject, path, property_name.as_str())),
                None => None,
            }
        },
        _ => None,
    }
}

} // verus!
