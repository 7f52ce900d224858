//! What an overload group keeps of its declarations' signatures, and the
//! unused-parameter bookkeeping of a function body.

use vstd::prelude::*;
use crate::context::{CheckerContext, FileKind};
use crate::symbols::{
    copy_signature, lemma_view_signatures_push, FunctionSignatureInfo, SpecSignature,
};

verus! {

/// Whether a signature's return is a `x is T` type predicate (an `asserts`
/// clause is a different narrowing and is not one).
pub open spec fn spec_declares_type_predicate(s: SpecSignature) -> bool {
    s.predicate matches Some(p) && !p.asserts && p.has_type
}

/// See [`spec_declares_type_predicate`].
pub fn declares_type_predicate(signature: &FunctionSignatureInfo) -> (r: bool)
    ensures
        r == spec_declares_type_predicate(signature@),
{
    match &signature.predicate {
        Some(p) => !p.asserts && p.has_type,
        None => false,
    }
}

/// The option view of a signature.
pub open spec fn opt_signature_view(o: Option<FunctionSignatureInfo>) -> Option<SpecSignature> {
    match o {
        Some(s) => Some(s@),
        None => None,
    }
}

/// The option view of a borrowed signature.
pub open spec fn opt_signature_ref_view(o: Option<&FunctionSignatureInfo>) -> Option<SpecSignature> {
    match o {
        Some(s) => Some(s@),
        None => None,
    }
}

/// The group's kept signature with the incoming overload recorded as its
/// predicate overload: only when the incoming one declares a type predicate,
/// the kept one declares none itself, and none was recorded before (the
/// first such overload wins).
pub open spec fn spec_attach_predicate_overload(kept: Option<SpecSignature>, incoming: Option<SpecSignature>) -> Option<SpecSignature> {
    match kept {
        None => None,
        Some(k) => match incoming {
            None => Some(k),
            Some(i) => if k.predicate_overload is Some || spec_declares_type_predicate(k)
                || !spec_declares_type_predicate(i) {
                Some(k)
            } else {
                Some(SpecSignature { predicate_overload: Some(Box::new(i)), ..k })
            },
        },
    }
}

/// See [`spec_attach_predicate_overload`].
pub fn attach_predicate_overload(kept: Option<FunctionSignatureInfo>, incoming: Option<&FunctionSignatureInfo>) -> (r: Option<FunctionSignatureInfo>)
    ensures
        opt_signature_view(r) == spec_attach_predicate_overload(
            opt_signature_view(kept),
            opt_signature_ref_view(incoming),
        ),
{
    let kept = match kept {
        Some(k) => k,
        None => return None,
    };
    let incoming = match incoming {
        Some(i) => i,
        None => return Some(kept),
    };
    if kept.predicate_overload.is_some() || declares_type_predicate(&kept)
        || !declares_type_predicate(incoming) {
        return Some(kept);
    }
    let mut carried = kept;
    carried.predicate_overload = Some(Box::new(copy_signature(incoming)));
    Some(carried)
}

/// How many later overloads a group records; each one folded in costs an
/// inference run per call.
pub const MAX_ALTERNATIVES: usize = 6;

/// The group's kept signature with the incoming overload appended to its
/// alternatives, unless it already holds [`MAX_ALTERNATIVES`] of them.
pub open spec fn spec_attach_overload_alternative(kept: Option<SpecSignature>, incoming: Option<SpecSignature>) -> Option<SpecSignature> {
    match (kept, incoming) {
        (Some(k), Some(i)) => if k.overload_alternatives.len() >= MAX_ALTERNATIVES {
            Some(k)
        } else {
            Some(SpecSignature { overload_alternatives: k.overload_alternatives.push(i), ..k })
        },
        _ => None,
    }
}

/// See [`spec_attach_overload_alternative`].
pub fn attach_overload_alternative(kept: Option<FunctionSignatureInfo>, incoming: Option<&FunctionSignatureInfo>) -> (r: Option<FunctionSignatureInfo>)
    ensures
        opt_signature_view(r) == spec_attach_overload_alternative(
            opt_signature_view(kept),
            opt_signature_ref_view(incoming),
        ),
{
    let kept = match kept {
        Some(k) => k,
        None => return None,
    };
    let incoming = match incoming {
        Some(i) => i,
        None => return None,
    };
    proof {
        crate::symbols::lemma_view_signatures(kept.overload_alternatives@);
    }
    if kept.overload_alternatives.len() >= MAX_ALTERNATIVES {
        return Some(kept);
    }
    let ghost before = kept@;
    let mut carried = kept;
    let copy = copy_signature(incoming);
    proof {
        lemma_view_signatures_push(carried.overload_alternatives@, copy);
    }
    carried.overload_alternatives.push(copy);
    assert(carried@ == SpecSignature {
        overload_alternatives: before.overload_alternatives.push(incoming@),
        ..before
    });
    Some(carried)
}

/// The signature flagged as the template of an overload group.
pub open spec fn spec_mark_overloaded(signature: Option<SpecSignature>) -> Option<SpecSignature> {
    match signature {
        Some(s) => Some(SpecSignature { overloaded: true, ..s }),
        None => None,
    }
}

/// See [`spec_mark_overloaded`].
pub fn mark_overloaded(signature: Option<FunctionSignatureInfo>) -> (r: Option<FunctionSignatureInfo>)
    ensures
        opt_signature_view(r) == spec_mark_overloaded(opt_signature_view(signature)),
{
    match signature {
        Some(s) => {
            if s.overloaded {
                return Some(s);
            }
            let mut flagged = s;
            flagged.overloaded = true;
            Some(flagged)
        },
        None => None,
    }
}

/// An overload group records at most [`MAX_ALTERNATIVES`] alternatives:
/// attaching keeps a signature within the bound, and never drops one it
/// already held.
pub proof fn lemma_alternatives_bounded(kept: SpecSignature, incoming: SpecSignature)
    requires
        kept.overload_alternatives.len() <= MAX_ALTERNATIVES,
    ensures
        ({
            let r = spec_attach_overload_alternative(Some(kept), Some(incoming)).unwrap();
            &&& r.overload_alternatives.len() <= MAX_ALTERNATIVES
            &&& r.overload_alternatives.take(kept.overload_alternatives.len() as int)
                == kept.overload_alternatives
        }),
{
    let r = spec_attach_overload_alternative(Some(kept), Some(incoming)).unwrap();
    assert(r.overload_alternatives.take(kept.overload_alternatives.len() as int)
        =~= kept.overload_alternatives);
}

/// Once a group has recorded a predicate overload, later overloads leave it
/// as it is: the first predicate-bearing overload wins.
pub proof fn lemma_first_predicate_overload_wins(kept: SpecSignature, incoming: SpecSignature)
    requires
        kept.predicate_overload is Some,
    ensures
        spec_attach_predicate_overload(Some(kept), Some(incoming)) == Some(kept),
{
}

/// Marking a signature as overloaded twice is marking it once.
pub proof fn lemma_mark_overloaded_idempotent(signature: Option<SpecSignature>)
    ensures
        spec_mark_overloaded(spec_mark_overloaded(signature)) == spec_mark_overloaded(signature),
{
}

/// Whether unused parameters are reported in the current file: the option is
/// on and the file is a source of the program itself (declaration files are
/// never reported).
pub open spec fn spec_should_track_unused_parameters(ctx: CheckerContext) -> bool {
    ctx.options.no_unused_parameters && ctx.current_file_kind == FileKind::RootSource
}

/// See [`spec_should_track_unused_parameters`].
pub fn should_track_unused_parameters(ctx: &CheckerContext) -> (r: bool)
    ensures
        r == spec_should_track_unused_parameters(*ctx),
{
    ctx.options.no_unused_parameters && ctx.current_file_kind == FileKind::RootSource
}

/// The order names are sorted in: character by character by code point, a
/// proper prefix first.
pub open spec fn name_less(a: Seq<char>, b: Seq<char>) -> bool
    decreases a.len(),
{
    if a.len() == 0 {
        b.len() > 0
    } else if b.len() == 0 {
        false
    } else if a[0] != b[0] {
        a[0] < b[0]
    } else {
        name_less(a.drop_first(), b.drop_first())
    }
}

/// No name is before itself.
pub proof fn lemma_name_less_irreflexive(a: Seq<char>)
    ensures
        !name_less(a, a),
    decreases a.len(),
{
    if a.len() > 0 {
        lemma_name_less_irreflexive(a.drop_first());
    }
}

/// Of two different names one is before the other.
pub proof fn lemma_name_less_total(a: Seq<char>, b: Seq<char>)
    ensures
        a == b || name_less(a, b) || name_less(b, a),
    decreases a.len(),
{
    if a.len() > 0 && b.len() > 0 && a[0] == b[0] {
        lemma_name_less_total(a.drop_first(), b.drop_first());
        if a.drop_first() == b.drop_first() {
            assert(a =~= seq![a[0]] + a.drop_first());
            assert(b =~= seq![b[0]] + b.drop_first());
        }
    } else if a.len() == 0 && b.len() == 0 {
        assert(a =~= b);
    }
}

/// The order is transitive.
pub proof fn lemma_name_less_transitive(a: Seq<char>, b: Seq<char>, c: Seq<char>)
    requires
        name_less(a, b),
        name_less(b, c),
    ensures
        name_less(a, c),
    decreases a.len(),
{
    if a.len() > 0 && b.len() > 0 && c.len() > 0 && a[0] == b[0] && b[0] == c[0] {
        lemma_name_less_transitive(a.drop_first(), b.drop_first(), c.drop_first());
    }
}

/// The order is asymmetric.
pub proof fn lemma_name_less_asymmetric(a: Seq<char>, b: Seq<char>)
    requires
        name_less(a, b),
    ensures
        !name_less(b, a),
{
    if name_less(b, a) {
        lemma_name_less_transitive(a, b, a);
        lemma_name_less_irreflexive(a);
    }
}

/// The names, each strictly after the one before it: sorted and without
/// duplicates.
pub open spec fn spec_strictly_sorted(reads: Seq<String>) -> bool {
    forall|i: int, j: int| 0 <= i < j < reads.len() ==> name_less(#[trigger] reads[i]@, #[trigger] reads[j]@)
}

/// Whether the names are strictly sorted, checked pair by adjacent pair.
pub open spec fn spec_adjacent_sorted(reads: Seq<String>) -> bool {
    forall|i: int| 0 <= i < reads.len() - 1 ==> name_less(#[trigger] reads[i]@, reads[i + 1]@)
}

proof fn lemma_adjacent_sorted(reads: Seq<String>)
    requires
        spec_adjacent_sorted(reads),
    ensures
        spec_strictly_sorted(reads),
{
    assert forall|i: int, j: int| 0 <= i < j < reads.len() implies name_less(
        #[trigger] reads[i]@,
        #[trigger] reads[j]@,
    ) by {
        lemma_adjacent_chain(reads, i, j);
    }
}

proof fn lemma_adjacent_chain(reads: Seq<String>, i: int, j: int)
    requires
        spec_adjacent_sorted(reads),
        0 <= i < j < reads.len(),
    ensures
        name_less(reads[i]@, reads[j]@),
    decreases j - i,
{
    if j > i + 1 {
        lemma_adjacent_chain(reads, i, j - 1);
        lemma_name_less_transitive(reads[i]@, reads[j - 1]@, reads[j]@);
    }
}

/// See [`name_less`].
fn chars_less(a: &Vec<char>, b: &Vec<char>) -> (r: bool)
    ensures
        r == name_less(a@, b@),
{
    let mut i: usize = 0;
    assert(a@.skip(0) =~= a@);
    assert(b@.skip(0) =~= b@);
    while i < a.len() && i < b.len()
        invariant
            0 <= i <= a.len(),
            i <= b.len(),
            name_less(a@, b@) == name_less(a@.skip(i as int), b@.skip(i as int)),
        decreases a.len() - i,
    {
        if a[i] != b[i] {
            return a[i] < b[i];
        }
        proof {
            assert(a@.skip(i as int).drop_first() =~= a@.skip(i + 1));
            assert(b@.skip(i as int).drop_first() =~= b@.skip(i + 1));
        }
        i = i + 1;
    }
    i == a.len() && i < b.len()
}

/// The reads of a body stay strictly sorted, as the binary search of
/// [`body_reads_name`] needs them: a caller holds that as this function's
/// precondition, so nothing is left to check when it runs.
pub fn debug_assert_reads_sorted(reads: &Vec<String>)
    requires
        spec_strictly_sorted(reads@),
{
}

/// Whether the read names are strictly sorted, as the binary search of
/// [`body_reads_name`] needs them; each pair of neighbours is compared once.
pub fn reads_are_sorted(reads: &Vec<String>) -> (r: bool)
    ensures
        r == spec_strictly_sorted(reads@),
{
    if reads.len() < 2 {
        return true;
    }
    let mut i: usize = 0;
    while i + 1 < reads.len()
        invariant
            reads.len() >= 2,
            0 <= i < reads.len(),
            forall|k: int| 0 <= k < i ==> name_less(#[trigger] reads@[k]@, reads@[k + 1]@),
        decreases reads.len() - i,
    {
        let a = crate::text::chars_of(reads[i].as_str());
        let b = crate::text::chars_of(reads[i + 1].as_str());
        if !chars_less(&a, &b) {
            assert(!name_less(reads@[i as int]@, reads@[i + 1]@));
            return false;
        }
        i = i + 1;
    }
    proof {
        lemma_adjacent_sorted(reads@);
    }
    true
}

/// Whether the body read `name`: a binary search of the strictly sorted read
/// list.
pub fn body_reads_name(reads: &Vec<String>, name: &str) -> (r: bool)
    requires
        spec_strictly_sorted(reads@),
    ensures
        r == exists|i: int| 0 <= i < reads@.len() && #[trigger] reads@[i]@ == name@,
{
    let target = crate::text::chars_of(name);
    let mut lo: usize = 0;
    let mut hi: usize = reads.len();
    while lo < hi
        invariant
            0 <= lo <= hi <= reads.len(),
            target@ == name@,
            spec_strictly_sorted(reads@),
            forall|j: int| 0 <= j < lo ==> name_less(#[trigger] reads@[j]@, name@),
            forall|j: int| hi <= j < reads.len() ==> name_less(name@, #[trigger] reads@[j]@),
        decreases hi - lo,
    {
        let mid = lo + (hi - lo) / 2;
        let m = crate::text::chars_of(reads[mid].as_str());
        if crate::text::chars_eq(&m, &target) {
            assert(reads@[mid as int]@ == name@);
            return true;
        }
        if chars_less(&m, &target) {
            assert forall|j: int| 0 <= j < mid + 1 implies name_less(
                #[trigger] reads@[j]@,
                name@,
            ) by {
                if j < mid {
                    lemma_name_less_transitive(reads@[j]@, reads@[mid as int]@, name@);
                }
            }
            lo = mid + 1;
        } else {
            proof {
                lemma_name_less_total(reads@[mid as int]@, name@);
            }
            assert forall|j: int| mid <= j < reads.len() implies name_less(
                name@,
                #[trigger] reads@[j]@,
            ) by {
                if j > mid {
                    lemma_name_less_transitive(name@, reads@[mid as int]@, reads@[j]@);
                }
            }
            hi = mid;
        }
    }
    assert forall|i: int| 0 <= i < reads@.len() implies #[trigger] reads@[i]@ != name@ by {
        if i < lo {
            if reads@[i]@ == name@ {
                lemma_name_less_irreflexive(name@);
            }
        } else {
            if reads@[i]@ == name@ {
                lemma_name_less_irreflexive(name@);
            }
        }
    }
    false
}

} // verus!
