//! Properties the narrowing rules keep across branches and compositions.

use vstd::prelude::*;
use crate::aliases::{
    spec_is_constant_reference, spec_narrowed_references, spec_retain_constant_reference_guards,
    spec_retain_leaf, spec_stripped_guard, this_name, SpecNarrowedReference,
};
use crate::guards::arrayness::{
    arrayness_test, spec_arrayness_survives, spec_is_array_like_member, spec_is_unclassifiable,
    spec_narrow_union_by_arrayness,
};
use crate::guards::nullish::{nullish_test_keeps, spec_narrow_union_by_nullish, spec_selects, NullishTest};
use crate::guards::property_presence::{
    spec_narrow_member_by_property_presence, spec_property_presence_of, PropertyPresence,
    SpecPresenceNarrowing,
};
use crate::guards::typeof_guard::{
    spec_narrow_union_by_typeof, spec_narrow_union_members_by_typeof, spec_typeof_kept,
    spec_typeof_subject, spec_typeof_survives, spec_typeof_tag_of, TypeofTag,
};
use crate::jsx_props::{
    lemma_discriminate_all_len, spec_discriminate_all, spec_discriminate_step, spec_some_admits,
};
use crate::narrowing::spec_narrow_type_for_identifier;
use crate::reference_guard::{spec_narrow_leaf, SpecReferenceGuard};
use crate::symbols::SymbolTable;
use crate::syntax::{Expr, LogicalOperator, UnaryOperator};
use crate::types::{lemma_filter_all, lemma_filter_none, spec_find_index, spec_peel, SpecType};
use crate::body::BodyStatement;
use crate::reference_guards::spec_reference_guards;
use crate::condition_tables::{spec_narrow_condition, spec_or_view, TableView};
use crate::narrowing::{spec_strip_boolean_literal_comparison, Side};
use crate::context::CheckerContext;
use crate::parameters::{ArrayBindingPattern, BindingName, FunctionParameter, ObjectBindingElement, ObjectBindingPattern};
use crate::syntax::TextSpan;
use crate::unused::{
    spec_array_elements, spec_array_pattern_reports, spec_is_read, spec_object_elements,
    spec_object_pattern_reports, spec_report_group, spec_report_unread, spec_report_unread_types,
    spec_unused_locals, spec_unused_parameters, spec_unused_rest, SpecReport,
};
use crate::widening::{
    lemma_literal_names, lemma_pad_properties, spec_is_written_literal, spec_literal_names,
    spec_normalize_member, lemma_widen_nullable_properties, lemma_widen_nullable_seq, spec_has_widening_property,
    spec_widen_nullable, spec_widen_nullable_object, spec_widen_nullable_property,
    spec_widen_nullable_properties, spec_widen_nullable_seq, spec_widens_to_any,
};

use crate::ops::{
    spec_arithmetic_operand_reports, spec_evaluate_arithmetic_binary, spec_inferred_type,
    spec_is_boolean_like, spec_is_unmodelled, spec_is_valid_arithmetic_operand,
    spec_suggested_boolean_operator, InferredExpression, SpecOperatorReport,
};
use crate::syntax::BinaryOperator;
use crate::guards::instanceof::{instanceof_test, spec_instanceof_matches};
use crate::guards::literal_equality::{spec_literal_base_primitive, spec_narrow_by_literal_equality};
use crate::guards::typeof_guard::{spec_type_for_typeof_tag, spec_typeof_member_result};
use crate::truthy::{spec_falsy_parts, spec_falsy_parts_all, spec_keep_possibly_falsy};
use crate::text::{after_last, before_first, first_index_of, last_index_of, lemma_first_index_of};
use crate::types::{
    lemma_peel_height, lemma_seq_height, seq_height, spec_dedup, spec_flatten, spec_nominal_name,
    spec_union, type_height,
};

verus! {

/// A union member whose `typeof` tag is decidable lands in exactly one branch
/// of a `typeof` test; one whose tag is undecidable stays in both.
pub proof fn lemma_typeof_partition(member: SpecType, tag: TypeofTag)
    ensures
        spec_typeof_survives(member, tag, true) || spec_typeof_survives(member, tag, false),
        spec_typeof_tag_of(member) is Some ==> spec_typeof_survives(member, tag, true)
            != spec_typeof_survives(member, tag, false),
        spec_typeof_tag_of(member) is None ==> spec_typeof_survives(member, tag, true)
            && spec_typeof_survives(member, tag, false),
{
}

/// A `typeof` branch no member of a union can reach is `never`.
pub proof fn lemma_typeof_unreachable_branch(members: Seq<SpecType>, tag: TypeofTag, keep_matching: bool)
    requires
        forall|i: int|
            0 <= i < members.len() ==> !spec_typeof_survives(#[trigger] members[i], tag, keep_matching),
    ensures
        spec_narrow_union_members_by_typeof(members, tag, keep_matching) == Some(SpecType::Never),
        spec_narrow_union_by_typeof(SpecType::Union(members), Some(tag), keep_matching) == Some(
            SpecType::Never,
        ),
{
    let pred = |m: SpecType| spec_typeof_survives(m, tag, keep_matching);
    lemma_filter_none(members, pred);
    assert(spec_typeof_kept(members, tag, keep_matching).len() == 0);
}

/// A `typeof` test every member of a (non-empty) union passes changes
/// nothing: the narrowing answers `None`.
pub proof fn lemma_typeof_unchanged_is_none(members: Seq<SpecType>, tag: TypeofTag, keep_matching: bool)
    requires
        members.len() > 0,
        forall|i: int|
            0 <= i < members.len() ==> spec_typeof_survives(#[trigger] members[i], tag, keep_matching),
    ensures
        spec_narrow_union_members_by_typeof(members, tag, keep_matching) is None,
        spec_narrow_union_by_typeof(SpecType::Union(members), Some(tag), keep_matching) is None,
{
    let pred = |m: SpecType| spec_typeof_survives(m, tag, keep_matching);
    lemma_filter_all(members, pred);
    assert(spec_typeof_kept(members, tag, keep_matching).len() == members.len());
}

/// `Array.isArray` splits a union: a member that can be classified lands in
/// exactly one branch, one that cannot stays in both.
pub proof fn lemma_arrayness_partition(member: SpecType)
    ensures
        !spec_is_unclassifiable(member) ==> spec_arrayness_survives(member, true)
            != spec_arrayness_survives(member, false),
        spec_is_unclassifiable(member) ==> spec_arrayness_survives(member, true)
            && spec_arrayness_survives(member, false),
        spec_arrayness_survives(member, true) == (spec_is_unclassifiable(member)
            || spec_is_array_like_member(member)),
{
}

/// When no member of a union can be an array, the `Array.isArray` true branch
/// is `any[]`, the predicate's own type.
pub proof fn lemma_isarray_without_arrays(members: Seq<SpecType>)
    requires
        forall|i: int|
            0 <= i < members.len() ==> !spec_is_unclassifiable(#[trigger] members[i])
                && !spec_is_array_like_member(members[i]),
    ensures
        spec_narrow_union_by_arrayness(SpecType::Union(members), true) == Some(
            SpecType::Array(Box::new(SpecType::Any)),
        ),
{
    lemma_filter_none(members, arrayness_test(true));
}

/// The members a nullish comparison keeps in a branch are exactly the ones
/// whose selection matches it: `x === null` holds only of `null` members, and
/// `x !== null` of the others.
pub proof fn lemma_nullish_branch_members(members: Seq<SpecType>, keep_matching: bool, test: NullishTest)
    ensures
        forall|i: int|
            0 <= i < members.filter(nullish_test_keeps(test, keep_matching)).len() ==> spec_selects(
                test,
                #[trigger] members.filter(nullish_test_keeps(test, keep_matching))[i],
            ) == keep_matching,
        forall|i: int|
            0 <= i < members.len() && spec_selects(test, #[trigger] members[i]) == keep_matching
                ==> members.filter(nullish_test_keeps(test, keep_matching)).contains(members[i]),
{
    broadcast use vstd::seq_lib::group_filter_ensures;

}

/// A nullish comparison splits only a union that holds a selected member;
/// a lone value is ruled out only where it is exactly the tested one.
pub proof fn lemma_nullish_lone_value(ty: SpecType, test: NullishTest)
    requires
        !(ty is Union),
    ensures
        spec_narrow_union_by_nullish(ty, true, test) is None,
        spec_narrow_union_by_nullish(ty, false, test) == (if spec_selects(test, ty) {
            Some(SpecType::Never)
        } else {
            None
        }),
{
}

/// `!c` narrows a binding in one branch as `c` does in the other.
pub proof fn lemma_not_flips_branch(condition: Expr, var_name: Seq<char>, ty: SpecType, branch_is_true: bool, table: SymbolTable)
    ensures
        spec_narrow_type_for_identifier(
            Expr::Unary { operator: UnaryOperator::Not, operand: Box::new(condition) },
            var_name,
            ty,
            branch_is_true,
            table,
        ) == spec_narrow_type_for_identifier(condition, var_name, ty, !branch_is_true, table),
{
}

/// `!!c` narrows a binding as `c` does.
pub proof fn lemma_double_negation(condition: Expr, var_name: Seq<char>, ty: SpecType, branch_is_true: bool, table: SymbolTable)
    ensures
        spec_narrow_type_for_identifier(
            Expr::Unary {
                operator: UnaryOperator::Not,
                operand: Box::new(
                    Expr::Unary { operator: UnaryOperator::Not, operand: Box::new(condition) },
                ),
            },
            var_name,
            ty,
            branch_is_true,
            table,
        ) == spec_narrow_type_for_identifier(condition, var_name, ty, branch_is_true, table),
{
    lemma_not_flips_branch(condition, var_name, ty, !branch_is_true, table);
}

/// A member that declares the tested property optional, or whose presence
/// cannot be decided, is kept in both branches of an `in` test.
pub proof fn lemma_presence_keeps_undecided_members(member: SpecType, property: Seq<char>, keep_present: bool)
    requires
        !(spec_peel(member) is Union),
        spec_property_presence_of(spec_peel(member), property) == PropertyPresence::Optional
            || spec_property_presence_of(spec_peel(member), property)
            == PropertyPresence::Undecidable,
    ensures
        spec_narrow_member_by_property_presence(member, property, keep_present)
            == SpecPresenceNarrowing::Kept,
{
}

/// A member that surely has the property survives only the true branch of
/// an `in` test, and one that surely lacks it only the false branch.
pub proof fn lemma_presence_decided_members(member: SpecType, property: Seq<char>)
    requires
        !(spec_peel(member) is Union),
    ensures
        spec_property_presence_of(spec_peel(member), property) == PropertyPresence::Required ==> (
        spec_narrow_member_by_property_presence(member, property, true)
            == SpecPresenceNarrowing::Kept && spec_narrow_member_by_property_presence(
            member,
            property,
            false,
        ) == SpecPresenceNarrowing::Removed),
        spec_property_presence_of(spec_peel(member), property) == PropertyPresence::Absent ==> (
        spec_narrow_member_by_property_presence(member, property, true)
            == SpecPresenceNarrowing::Removed && spec_narrow_member_by_property_presence(
            member,
            property,
            false,
        ) == SpecPresenceNarrowing::Kept),
{
}

/// `this` never changes value: a guard on it always narrows through an
/// alias.
pub proof fn lemma_this_is_constant(table: SymbolTable, assigned: Seq<Seq<char>>)
    ensures
        spec_is_constant_reference(
            SpecNarrowedReference { base: this_name(), path: Seq::empty(), element: false },
            table,
            assigned,
        ),
{
}

/// A dropped guard stays dropped: [`Expr::Unknown`] narrows no reference, so
/// it is retained as it is.
proof fn lemma_unknown_retained(table: SymbolTable, assigned: Seq<Seq<char>>)
    ensures
        spec_retain_leaf(Expr::Unknown, table, assigned) == Expr::Unknown,
{
    assert(spec_stripped_guard(Expr::Unknown) == Expr::Unknown);
    assert(spec_narrowed_references(Expr::Unknown, table).len() == 0);
}

/// Retaining the guards of an aliased condition twice is retaining them once.
pub proof fn lemma_retain_idempotent(condition: Expr, table: SymbolTable, assigned: Seq<Seq<char>>)
    ensures
        spec_retain_constant_reference_guards(
            spec_retain_constant_reference_guards(condition, table, assigned),
            table,
            assigned,
        ) == spec_retain_constant_reference_guards(condition, table, assigned),
    decreases condition,
{
    lemma_unknown_retained(table, assigned);
    match condition {
        Expr::Logical { left, operator, right } => {
            if operator == LogicalOperator::And || operator == LogicalOperator::Or {
                lemma_retain_idempotent(*left, table, assigned);
                lemma_retain_idempotent(*right, table, assigned);
            }
        },
        Expr::Unary { operator, operand } => {
            if operator == UnaryOperator::Not {
                lemma_retain_idempotent(*operand, table, assigned);
            }
        },
        _ => {},
    }
}

/// A guard on a reference either leaves its leaf alone (`None`) or changes
/// it: the narrowed type or the `optional` flag differs from what it was.
pub proof fn lemma_narrow_leaf_changes(guard: SpecReferenceGuard, ty: SpecType, optional: bool)
    ensures
        spec_narrow_leaf(guard, ty, optional) matches Some((t, o)) ==> t != ty || o != optional,
{
}

/// Only a literal test or a constructor test keeps a slot optional; every
/// other guard that narrows a leaf proves it present.
pub proof fn lemma_narrow_leaf_clears_optional(guard: SpecReferenceGuard, ty: SpecType, optional: bool)
    requires
        !(guard is LiteralEquality),
        !(guard is ConstructedBy),
    ensures
        spec_narrow_leaf(guard, ty, optional) matches Some((_, o)) ==> !o,
{
}


/// Widening never leaves `null` or `undefined` where it widened: the result is
/// neither, and an anonymous shape it widened has no property typed either.
pub proof fn lemma_widen_nullable_leaves_no_nullable(t: SpecType)
    ensures
        !spec_widens_to_any(spec_widen_nullable(t)),
        (t matches SpecType::Object(o) && o.alias_name is None && spec_has_widening_property(
            o.properties,
        )) ==> (spec_widen_nullable(t) matches SpecType::Object(w)
            && !spec_has_widening_property(w.properties)),
{
    if let SpecType::Object(o) = t {
        if o.alias_name is None && spec_has_widening_property(o.properties) {
            let ws = spec_widen_nullable_properties(o.properties);
            lemma_widen_nullable_properties(o.properties);
            assert forall|i: int| 0 <= i < ws.len() implies !spec_widens_to_any(#[trigger] ws[i].ty) by {
                assert(ws[i] == spec_widen_nullable_property(o.properties[i]));
                lemma_widen_nullable_leaves_no_nullable_top(o.properties[i].ty);
            }
            assert(spec_widen_nullable(t) == SpecType::Object(spec_widen_nullable_object(o)));
            assert(spec_widen_nullable_object(o).properties == ws);
        }
    }
    lemma_widen_nullable_leaves_no_nullable_top(t);
}

proof fn lemma_widen_nullable_leaves_no_nullable_top(t: SpecType)
    ensures
        !spec_widens_to_any(spec_widen_nullable(t)),
{
}

/// Widening a declaration's type twice gives what widening it once gives.
pub proof fn lemma_widen_nullable_idempotent(t: SpecType)
    ensures
        spec_widen_nullable(spec_widen_nullable(t)) == spec_widen_nullable(t),
    decreases t,
{
    match t {
        SpecType::Array(e) => {
            lemma_widen_nullable_idempotent(*e);
        },
        SpecType::Tuple(es) => {
            let w = spec_widen_nullable_seq(es);
            lemma_widen_nullable_seq(es);
            lemma_widen_nullable_seq(w);
            assert forall|i: int| 0 <= i < es.len() implies #[trigger] spec_widen_nullable_seq(w)[i]
                == w[i] by {
                lemma_widen_nullable_idempotent(es[i]);
            }
            assert(spec_widen_nullable_seq(w) =~= w);
        },
        SpecType::Object(o) => {
            lemma_widen_nullable_leaves_no_nullable(t);
        },
        _ => {},
    }
}


/// Object literals written together share their names: normalized, each
/// written literal of a union declares every name that any written literal of
/// the union declares, and keeps in front the properties it was written with.
pub proof fn lemma_normalized_literals_share_names(ms: Seq<SpecType>, i: int, j: int, k: int)
    requires
        0 <= i < ms.len(),
        0 <= j < ms.len(),
        spec_is_written_literal(ms[i]),
        spec_is_written_literal(ms[j]),
        ms[j] matches SpecType::Object(o) && 0 <= k < o.properties.len(),
    ensures
        ms[i] matches SpecType::Object(written) && ms[j] matches SpecType::Object(sibling)
            && spec_normalize_member(ms[i], spec_literal_names(ms)) matches SpecType::Object(n)
            && spec_find_index(n.properties, sibling.properties[k].name) is Some
            && n.properties.subrange(0, written.properties.len() as int) == written.properties,
{
    lemma_literal_names(ms, j, k);
    if let SpecType::Object(written) = ms[i] {
        lemma_pad_properties(written.properties, spec_literal_names(ms));
    }
}


/// A discriminator that no member still in the running admits drops nothing.
pub proof fn lemma_unadmitted_discriminator_drops_nothing(keep: Seq<bool>, admits: Seq<Option<bool>>)
    requires
        !spec_some_admits(keep, admits),
    ensures
        spec_discriminate_step(keep, admits) == keep,
{
    assert(spec_discriminate_step(keep, admits) =~= keep);
}

/// Discriminators only ever drop members: one dropped, or never in the
/// running, is not kept by any later discriminator.
pub proof fn lemma_discriminators_never_restore(keep: Seq<bool>, table: Seq<Seq<Option<bool>>>, i: int)
    requires
        0 <= i < keep.len(),
        spec_discriminate_all(keep, table)[i],
    ensures
        keep[i],
    decreases table.len(),
{
    if table.len() > 0 {
        lemma_discriminate_all_len(keep, table.drop_last());
        lemma_discriminators_never_restore(keep, table.drop_last(), i);
    }
}


/// A report that names a declaration names one the body never reads.
pub open spec fn spec_report_unread_name(r: SpecReport, reads: Seq<String>) -> bool {
    match r {
        SpecReport::Unused { name, .. } => !spec_is_read(reads, name),
        SpecReport::UnusedType { name, .. } => !spec_is_read(reads, name),
        SpecReport::AllDestructuredUnused { .. } => true,
    }
}

/// Every report of `s` names an unread declaration.
pub open spec fn spec_all_unread(s: Seq<SpecReport>, reads: Seq<String>) -> bool {
    forall|k: int| 0 <= k < s.len() ==> spec_report_unread_name(#[trigger] s[k], reads)
}

/// Every name of `s` is unread.
pub open spec fn spec_names_unread(s: Seq<(Seq<char>, Option<TextSpan>)>, reads: Seq<String>) -> bool {
    forall|k: int| 0 <= k < s.len() ==> !spec_is_read(reads, #[trigger] s[k].0)
}

proof fn lemma_push_unread(s: Seq<SpecReport>, r: SpecReport, reads: Seq<String>)
    requires
        spec_all_unread(s, reads),
        spec_report_unread_name(r, reads),
    ensures
        spec_all_unread(s.push(r), reads),
{
    assert forall|k: int| 0 <= k < s.push(r).len() implies spec_report_unread_name(#[trigger] s.push(r)[k], reads) by {
        if k < s.len() {
            assert(s.push(r)[k] == s[k]);
        }
    }
}

proof fn lemma_report_unread_sound(declared: Seq<(Seq<char>, Option<TextSpan>)>, reads: Seq<String>, acc: Seq<SpecReport>)
    requires
        spec_all_unread(acc, reads),
    ensures
        spec_all_unread(spec_report_unread(declared, reads, acc), reads),
        spec_all_unread(spec_report_unread_types(declared, reads, acc), reads),
    decreases declared.len(),
{
    if declared.len() > 0 {
        lemma_report_unread_sound(declared.drop_last(), reads, acc);
        let (name, span) = declared.last();
        if !spec_is_read(reads, name) {
            lemma_push_unread(spec_report_unread(declared.drop_last(), reads, acc), SpecReport::Unused { name, span }, reads);
            lemma_push_unread(
                spec_report_unread_types(declared.drop_last(), reads, acc),
                SpecReport::UnusedType { name, span },
                reads,
            );
        }
    }
}

/// Unused locals are reported only for names the body never reads.
pub proof fn lemma_unused_locals_are_unread(ctx: CheckerContext, statements: Seq<BodyStatement>, reads: Seq<String>)
    ensures
        spec_all_unread(spec_unused_locals(ctx, statements, reads, Seq::empty()), reads),
{
    let vars = crate::unused::spec_local_vars(statements, Seq::empty());
    let types = crate::unused::spec_local_types(statements, Seq::empty());
    lemma_report_unread_sound(vars, reads, Seq::empty());
    lemma_report_unread_sound(types, reads, spec_report_unread(vars, reads, Seq::empty()));
}

proof fn lemma_group_sound(unused: Seq<(Seq<char>, Option<TextSpan>)>, count: int, span: Option<TextSpan>, reads: Seq<String>, acc: Seq<SpecReport>)
    requires
        spec_all_unread(acc, reads),
        spec_names_unread(unused, reads),
    ensures
        spec_all_unread(spec_report_group(unused, count, span, acc), reads),
{
    if unused.len() > 0 && !(unused.len() >= 2 && unused.len() == count) {
        let mapped = unused.map_values(|u: (Seq<char>, Option<TextSpan>)| SpecReport::Unused { name: u.0, span: u.1 });
        let all = acc + mapped;
        assert forall|k: int| 0 <= k < all.len() implies spec_report_unread_name(#[trigger] all[k], reads) by {
            if k >= acc.len() {
                assert(all[k] == mapped[k - acc.len()]);
                assert(!spec_is_read(reads, unused[k - acc.len()].0));
            }
        }
    } else if unused.len() > 0 {
        lemma_push_unread(acc, SpecReport::AllDestructuredUnused { span }, reads);
    }
}

proof fn lemma_rest_sound(rest: Option<Box<BindingName>>, reads: Seq<String>, exempt: bool, unused: Seq<(Seq<char>, Option<TextSpan>)>)
    requires
        spec_names_unread(unused, reads),
    ensures
        spec_names_unread(spec_unused_rest(rest, reads, exempt, unused), reads),
{
    let after = spec_unused_rest(rest, reads, exempt, unused);
    assert forall|k: int| 0 <= k < after.len() implies !spec_is_read(reads, #[trigger] after[k].0) by {
        if k < unused.len() {
            assert(after[k] == unused[k]);
        }
    }
}

proof fn lemma_object_pattern_sound(p: ObjectBindingPattern, reads: Seq<String>, acc: Seq<SpecReport>)
    requires
        spec_all_unread(acc, reads),
    ensures
        spec_all_unread(spec_object_pattern_reports(p, reads, acc), reads),
    decreases p, 2nat,
{
    let has_rest = p.rest is Some;
    lemma_object_elements_sound(p.elements@, has_rest, reads, acc);
    let (out, unused) = spec_object_elements(p.elements@, has_rest, reads, acc);
    lemma_rest_sound(p.rest, reads, false, unused);
    lemma_group_sound(
        spec_unused_rest(p.rest, reads, false, unused),
        p.elements@.len() + if has_rest {
            1int
        } else {
            0int
        },
        p.span,
        reads,
        out,
    );
}

proof fn lemma_object_elements_sound(es: Seq<ObjectBindingElement>, has_rest: bool, reads: Seq<String>, acc: Seq<SpecReport>)
    requires
        spec_all_unread(acc, reads),
    ensures
        spec_all_unread(spec_object_elements(es, has_rest, reads, acc).0, reads),
        spec_names_unread(spec_object_elements(es, has_rest, reads, acc).1, reads),
    decreases es, 1nat,
{
    if es.len() > 0 {
        lemma_object_elements_sound(es.drop_last(), has_rest, reads, acc);
        let (out, unused) = spec_object_elements(es.drop_last(), has_rest, reads, acc);
        let e = es.last();
        match e.binding_name {
            BindingName::Identifier { name, span } => {
                if !spec_is_read(reads, name@) {
                    let pushed = unused.push((name@, match span {
                        Some(s) => Some(s),
                        None => e.name_span,
                    }));
                    assert forall|k: int| 0 <= k < pushed.len() implies !spec_is_read(reads, #[trigger] pushed[k].0) by {
                        if k < unused.len() {
                            assert(pushed[k] == unused[k]);
                        }
                    }
                }
            },
            BindingName::ObjectPattern(nested) => {
                lemma_object_pattern_sound(nested, reads, out);
            },
            BindingName::ArrayPattern(nested) => {
                lemma_array_pattern_sound(nested, reads, out);
            },
            BindingName::Unsupported => {},
        }
    } else {
        assert(spec_object_elements(es, has_rest, reads, acc).1 =~= Seq::<(Seq<char>, Option<TextSpan>)>::empty());
    }
}

proof fn lemma_array_pattern_sound(p: ArrayBindingPattern, reads: Seq<String>, acc: Seq<SpecReport>)
    requires
        spec_all_unread(acc, reads),
    ensures
        spec_all_unread(spec_array_pattern_reports(p, reads, acc), reads),
    decreases p, 2nat,
{
    lemma_array_elements_sound(p.elements@, reads, acc);
    let (out, unused) = spec_array_elements(p.elements@, reads, acc);
    lemma_rest_sound(p.rest, reads, true, unused);
    lemma_group_sound(
        spec_unused_rest(p.rest, reads, true, unused),
        p.elements@.len() + if p.rest is Some {
            1int
        } else {
            0int
        },
        p.span,
        reads,
        out,
    );
}

proof fn lemma_array_elements_sound(es: Seq<Option<BindingName>>, reads: Seq<String>, acc: Seq<SpecReport>)
    requires
        spec_all_unread(acc, reads),
    ensures
        spec_all_unread(spec_array_elements(es, reads, acc).0, reads),
        spec_names_unread(spec_array_elements(es, reads, acc).1, reads),
    decreases es, 1nat,
{
    if es.len() > 0 {
        lemma_array_elements_sound(es.drop_last(), reads, acc);
        let (out, unused) = spec_array_elements(es.drop_last(), reads, acc);
        match es.last() {
            Some(b) => match b {
                BindingName::Identifier { name, span } => {
                    if !spec_is_read(reads, name@) {
                        let pushed = unused.push((name@, span));
                        assert forall|k: int| 0 <= k < pushed.len() implies !spec_is_read(reads, #[trigger] pushed[k].0) by {
                            if k < unused.len() {
                                assert(pushed[k] == unused[k]);
                            }
                        }
                    }
                },
                BindingName::ObjectPattern(nested) => {
                    lemma_object_pattern_sound(nested, reads, out);
                },
                BindingName::ArrayPattern(nested) => {
                    lemma_array_pattern_sound(nested, reads, out);
                },
                BindingName::Unsupported => {},
            },
            None => {},
        }
    } else {
        assert(spec_array_elements(es, reads, acc).1 =~= Seq::<(Seq<char>, Option<TextSpan>)>::empty());
    }
}

/// Unused parameters and destructured bindings are reported only for names
/// the body never reads.
pub proof fn lemma_unused_parameters_are_unread(parameters: Seq<FunctionParameter>, reads: Seq<String>)
    ensures
        spec_all_unread(spec_unused_parameters(parameters, reads, Seq::empty()), reads),
    decreases parameters.len(),
{
    if parameters.len() > 0 {
        lemma_unused_parameters_are_unread(parameters.drop_last(), reads);
        let before = spec_unused_parameters(parameters.drop_last(), reads, Seq::empty());
        match parameters.last().binding_name {
            BindingName::Identifier { name, span } => {
                if !spec_is_read(reads, name@) {
                    lemma_push_unread(before, SpecReport::Unused { name: name@, span }, reads);
                }
            },
            BindingName::ObjectPattern(p) => {
                lemma_object_pattern_sound(p, reads, before);
            },
            BindingName::ArrayPattern(p) => {
                lemma_array_pattern_sound(p, reads, before);
            },
            BindingName::Unsupported => {},
        }
    }
}


/// Every binding and every recorded narrowing of `before` is still there,
/// in order, at the bottom of `after`.
pub open spec fn spec_extends(after: TableView, before: TableView) -> bool {
    &&& after.entries.len() >= before.entries.len()
    &&& after.entries.take(before.entries.len() as int) == before.entries
    &&& after.narrowed.len() >= before.narrowed.len()
    &&& after.narrowed.take(before.narrowed.len() as int) == before.narrowed
}

proof fn lemma_extends_trans(a: TableView, b: TableView, c: TableView)
    requires
        spec_extends(a, b),
        spec_extends(b, c),
    ensures
        spec_extends(a, c),
{
    assert(a.entries.take(c.entries.len() as int) =~= b.entries.take(c.entries.len() as int));
    assert(a.narrowed.take(c.narrowed.len() as int) =~= b.narrowed.take(c.narrowed.len() as int));
}

/// A condition never drops a binding: the table it narrows to holds every
/// binding and recorded narrowing of the table it narrowed, with its own
/// narrowings on top.
pub proof fn lemma_condition_narrowing_keeps_bindings(condition: Expr, v: TableView, branch_is_true: bool)
    ensures
        spec_narrow_condition(condition, v, branch_is_true) matches Some(w) ==> spec_extends(w, v),
    decreases condition,
{
    match condition {
        Expr::Unary { operator, operand } => {
            if operator == UnaryOperator::Not {
                lemma_condition_narrowing_keeps_bindings(*operand, v, !branch_is_true);
            } else {
                lemma_single_guard_extends(condition, v, branch_is_true);
            }
        },
        Expr::Binary { left, operator: _, right } => match spec_strip_boolean_literal_comparison(condition) {
            Some((side, flip)) => if side == Side::Left {
                lemma_condition_narrowing_keeps_bindings(*left, v, branch_is_true != flip);
            } else {
                lemma_condition_narrowing_keeps_bindings(*right, v, branch_is_true != flip);
            },
            None => lemma_single_guard_extends(condition, v, branch_is_true),
        },
        Expr::Logical { left, operator, right } => {
            if operator == LogicalOperator::And && branch_is_true || operator == LogicalOperator::Or
                && !branch_is_true {
                let first = spec_narrow_condition(*left, v, branch_is_true);
                lemma_condition_narrowing_keeps_bindings(*left, v, branch_is_true);
                lemma_condition_narrowing_keeps_bindings(*right, spec_or_view(first, v), branch_is_true);
                match spec_narrow_condition(*right, spec_or_view(first, v), branch_is_true) {
                    Some(w) => {
                        if first is Some {
                            lemma_extends_trans(w, first.unwrap(), v);
                        }
                    },
                    None => {},
                }
            } else if operator == LogicalOperator::Or || operator == LogicalOperator::And {
                lemma_disjunct_extends(condition, v, branch_is_true);
            } else {
                lemma_single_guard_extends(condition, v, branch_is_true);
            }
        },
        _ => lemma_single_guard_extends(condition, v, branch_is_true),
    }
}

proof fn lemma_single_guard_extends(condition: Expr, v: TableView, branch_is_true: bool)
    ensures
        crate::condition_tables::spec_single_guard_view(condition, v, branch_is_true) matches Some(w)
            ==> spec_extends(w, v),
{
    match crate::condition_tables::spec_single_guard_view(condition, v, branch_is_true) {
        Some(w) => {
            assert(w.entries.take(v.entries.len() as int) =~= v.entries);
            assert(w.narrowed.take(v.narrowed.len() as int) =~= v.narrowed);
        },
        None => {},
    }
}

proof fn lemma_disjunct_view_extends(v: TableView, left: TableView, right: TableView)
    ensures
        crate::condition_tables::spec_disjunct_view(v, left, right) matches Some(w) ==> spec_extends(w, v),
{
    match crate::condition_tables::spec_disjunct_view(v, left, right) {
        Some(w) => {
            assert(w.entries.take(v.entries.len() as int) =~= v.entries);
            assert(w.narrowed.take(v.narrowed.len() as int) =~= v.narrowed);
        },
        None => {},
    }
}

proof fn lemma_disjunct_extends(condition: Expr, v: TableView, branch_is_true: bool)
    requires
        condition matches Expr::Logical { operator, .. } && !(operator == LogicalOperator::And
            && branch_is_true || operator == LogicalOperator::Or && !branch_is_true) && (operator
            == LogicalOperator::Or || operator == LogicalOperator::And),
    ensures
        spec_narrow_condition(condition, v, branch_is_true) matches Some(w) ==> spec_extends(w, v),
{
    match condition {
        Expr::Logical { left, operator, right } => {
            if operator == LogicalOperator::Or {
                let left_holds = spec_narrow_condition(*left, v, true);
                let left_fails = spec_narrow_condition(*left, v, false);
                let right_holds = spec_narrow_condition(*right, spec_or_view(left_fails, v), true);
                match (left_holds, right_holds) {
                    (Some(lh), Some(rh)) => lemma_disjunct_view_extends(v, lh, rh),
                    _ => {},
                }
            } else {
                let left_fails = spec_narrow_condition(*left, v, false);
                let left_holds = spec_narrow_condition(*left, v, true);
                let right_fails = spec_narrow_condition(*right, spec_or_view(left_holds, v), false);
                lemma_disjunct_view_extends(
                    v,
                    spec_or_view(left_fails, v),
                    spec_or_view(crate::condition_tables::spec_or_narrowed(right_fails, left_holds), v),
                );
            }
        },
        _ => {},
    }
}

/// `!c` narrows a table in one branch as `c` does in the other, and `!!c` as
/// `c` does.
pub proof fn lemma_condition_negation(condition: Expr, v: TableView, branch_is_true: bool)
    ensures
        spec_narrow_condition(
            Expr::Unary { operator: UnaryOperator::Not, operand: Box::new(condition) },
            v,
            branch_is_true,
        ) == spec_narrow_condition(condition, v, !branch_is_true),
        spec_narrow_condition(
            Expr::Unary {
                operator: UnaryOperator::Not,
                operand: Box::new(Expr::Unary { operator: UnaryOperator::Not, operand: Box::new(condition) }),
            },
            v,
            branch_is_true,
        ) == spec_narrow_condition(condition, v, branch_is_true),
{
    let not_condition = Expr::Unary { operator: UnaryOperator::Not, operand: Box::new(condition) };
    assert(spec_narrow_condition(not_condition, v, !branch_is_true) == spec_narrow_condition(
        condition,
        v,
        branch_is_true,
    ));
}


/// By De Morgan, where `!a || !b` fails both `a` and `b` hold: the reference
/// guards it establishes are those of `a` and then `b` holding (for `a` and
/// `b` that are not negations themselves). And `!!c` establishes what `c`
/// does.
pub proof fn lemma_reference_guards_de_morgan(a: Expr, b: Expr, table: SymbolTable, branch_is_true: bool)
    requires
        !(a matches Expr::Unary { operator, .. } && operator == UnaryOperator::Not),
        !(b matches Expr::Unary { operator, .. } && operator == UnaryOperator::Not),
    ensures
        spec_reference_guards(
            Expr::Logical {
                left: Box::new(Expr::Unary { operator: UnaryOperator::Not, operand: Box::new(a) }),
                operator: LogicalOperator::Or,
                right: Box::new(Expr::Unary { operator: UnaryOperator::Not, operand: Box::new(b) }),
            },
            false,
            table,
        ) == spec_reference_guards(a, true, table) + spec_reference_guards(b, true, table),
        spec_reference_guards(
            Expr::Unary {
                operator: UnaryOperator::Not,
                operand: Box::new(Expr::Unary { operator: UnaryOperator::Not, operand: Box::new(a) }),
            },
            branch_is_true,
            table,
        ) == spec_reference_guards(a, branch_is_true, table),
{
    let not_a = Expr::Unary { operator: UnaryOperator::Not, operand: Box::new(a) };
    let not_b = Expr::Unary { operator: UnaryOperator::Not, operand: Box::new(b) };
    assert(spec_reference_guards(not_a, false, table) == spec_reference_guards(a, true, table));
    assert(spec_reference_guards(not_b, false, table) == spec_reference_guards(b, true, table));
}


/// An arithmetic or bitwise operator on two operands the checker models, other
/// than two boolean-like operands of `&`, `|` or `^`, reports the right operand
/// exactly when it is not `any`, number-like or bigint-like, and the left
/// operand exactly when that one is not, each whatever the other operand is.
pub proof fn lemma_arithmetic_operand_reports(
    left_result: InferredExpression,
    right_result: InferredExpression,
    l: SpecType,
    r: SpecType,
    operator: BinaryOperator,
    left_span: Option<TextSpan>,
    operator_span: Option<TextSpan>,
    right_span: Option<TextSpan>,
    fallback_span: Option<TextSpan>,
)
    requires
        spec_inferred_type(left_result) == Some(l),
        spec_inferred_type(right_result) == Some(r),
        !spec_is_unmodelled(l),
        !spec_is_unmodelled(r),
        !(spec_suggested_boolean_operator(operator) is Some && spec_is_boolean_like(l)
            && spec_is_boolean_like(r)),
    ensures
        ({
            let reports = spec_evaluate_arithmetic_binary(
                left_result,
                right_result,
                operator,
                left_span,
                operator_span,
                right_span,
                fallback_span,
            ).1;
            &&& reports.contains(SpecOperatorReport::RightOperandNotArithmetic { span: right_span })
                <==> !spec_is_valid_arithmetic_operand(r)
            &&& reports.contains(SpecOperatorReport::LeftOperandNotArithmetic { span: left_span })
                <==> !spec_is_valid_arithmetic_operand(l)
        }),
{
    let reports = spec_evaluate_arithmetic_binary(
        left_result,
        right_result,
        operator,
        left_span,
        operator_span,
        right_span,
        fallback_span,
    ).1;
    let checks = spec_arithmetic_operand_reports(l, r, left_span, right_span);
    let mismatch = SpecOperatorReport::OperandsMismatch { operator, left: l, right: r, span: fallback_span };
    let rr = SpecOperatorReport::RightOperandNotArithmetic { span: right_span };
    let lr = SpecOperatorReport::LeftOperandNotArithmetic { span: left_span };
    assert(reports == checks || reports == checks.push(mismatch));
    let a = if spec_is_valid_arithmetic_operand(l) {
        Seq::<SpecOperatorReport>::empty()
    } else {
        seq![lr]
    };
    let b = if spec_is_valid_arithmetic_operand(r) {
        Seq::<SpecOperatorReport>::empty()
    } else {
        seq![rr]
    };
    assert(checks == a + b);
    assert forall|x: SpecOperatorReport| reports.contains(x) implies (x == mismatch || a.contains(x)
        || b.contains(x)) by {
        let k = choose|k: int| 0 <= k < reports.len() && reports[k] == x;
        if k < a.len() {
            assert(checks[k] == a[k]);
        } else if k < a.len() + b.len() {
            assert(checks[k] == b[k - a.len()]);
        }
    }
    if !spec_is_valid_arithmetic_operand(r) {
        assert(reports[a.len() as int] == rr);
    }
    if !spec_is_valid_arithmetic_operand(l) {
        assert(reports[0] == lr);
    }
}

/// Two number operands (`number` or number literals) give `number` with no
/// report, whatever the operator; two `bigint` operands give `bigint`, reported
/// only under `>>>`; a number beside a `bigint` gives no type and one report on
/// the whole expression.
pub proof fn lemma_arithmetic_result_types(
    left_result: InferredExpression,
    right_result: InferredExpression,
    l: SpecType,
    r: SpecType,
    operator: BinaryOperator,
    left_span: Option<TextSpan>,
    operator_span: Option<TextSpan>,
    right_span: Option<TextSpan>,
    fallback_span: Option<TextSpan>,
)
    requires
        spec_inferred_type(left_result) == Some(l),
        spec_inferred_type(right_result) == Some(r),
    ensures
        ({
            let result = spec_evaluate_arithmetic_binary(
                left_result,
                right_result,
                operator,
                left_span,
                operator_span,
                right_span,
                fallback_span,
            );
            &&& (l is Number || l is NumberLiteral) && (r is Number || r is NumberLiteral) ==> result
                == (Some(SpecType::Number), Seq::<SpecOperatorReport>::empty())
            &&& l == SpecType::BigInt && r == SpecType::BigInt ==> result.0 == Some(SpecType::BigInt)
                && (result.1.len() == 0 <==> operator != BinaryOperator::ShiftRightZeroFill)
            &&& (l is Number || l is NumberLiteral) && r == SpecType::BigInt ==> result == (
                None::<SpecType>,
                seq![
                    SpecOperatorReport::OperandsMismatch { operator, left: l, right: r, span: fallback_span },
                ],
            )
        }),
{
    assert(Seq::<SpecOperatorReport>::empty() + Seq::<SpecOperatorReport>::empty() =~= Seq::<
        SpecOperatorReport,
    >::empty());
    let m = SpecOperatorReport::OperandsMismatch { operator, left: l, right: r, span: fallback_span };
    assert(Seq::<SpecOperatorReport>::empty().push(m) =~= seq![m]);
}

/// Number-like operands, `any` and `bigint` are valid arithmetic operands;
/// string-like, boolean-like, `undefined`, `null` and `symbol` operands are not.
pub proof fn lemma_arithmetic_operand_classes(text: Seq<char>, b: bool)
    ensures
        spec_is_valid_arithmetic_operand(SpecType::Number),
        spec_is_valid_arithmetic_operand(SpecType::NumberLiteral(text)),
        spec_is_valid_arithmetic_operand(SpecType::Any),
        spec_is_valid_arithmetic_operand(SpecType::BigInt),
        !spec_is_valid_arithmetic_operand(SpecType::String),
        !spec_is_valid_arithmetic_operand(SpecType::StringLiteral(text)),
        !spec_is_valid_arithmetic_operand(SpecType::Boolean),
        !spec_is_valid_arithmetic_operand(SpecType::BooleanLiteral(b)),
        !spec_is_valid_arithmetic_operand(SpecType::Undefined),
        !spec_is_valid_arithmetic_operand(SpecType::Null),
        !spec_is_valid_arithmetic_operand(SpecType::Symbol),
{
}

/// A named member (a class or interface reference, or a named object type)
/// whose name is a constructor's name, bare or followed by type arguments
/// (`C` or `C<...>`), is an instance of that constructor: the true branch of
/// `x instanceof C` keeps it and the false branch removes it.
pub proof fn lemma_instanceof_named_instance(member: SpecType, ctor: Seq<char>, args: Seq<char>)
    requires
        member is Reference || member is Object,
        spec_nominal_name(member) == Some(ctor) || spec_nominal_name(member) == Some(
            ctor + seq!['<'] + args,
        ),
        !ctor.contains('<'),
        ctor != "Array"@,
    ensures
        spec_instanceof_matches(member, ctor) == Some(true),
        instanceof_test(ctor, true)(member),
        !instanceof_test(ctor, false)(member),
{
    lemma_before_type_arguments(ctor, args);
}

/// A named member whose name is qualified (`ns.C` or `ns.C<...>`) is an instance
/// of the constructor named by its last segment `C`.
pub proof fn lemma_instanceof_qualified_instance(
    member: SpecType,
    qualifier: Seq<char>,
    ctor: Seq<char>,
    args: Seq<char>,
)
    requires
        member is Reference || member is Object,
        spec_nominal_name(member) == Some(qualifier + seq!['.'] + ctor) || spec_nominal_name(member)
            == Some(qualifier + seq!['.'] + ctor + seq!['<'] + args),
        !qualifier.contains('<'),
        !ctor.contains('<'),
        !ctor.contains('.'),
        ctor != "Array"@,
    ensures
        spec_instanceof_matches(member, ctor) == Some(true),
        instanceof_test(ctor, true)(member),
        !instanceof_test(ctor, false)(member),
{
    let head = qualifier + seq!['.'] + ctor;
    assert(!head.contains('<')) by {
        if head.contains('<') {
            let k = choose|k: int| 0 <= k < head.len() && head[k] == '<';
            if k < qualifier.len() {
                assert(qualifier[k] == '<');
            } else if k > qualifier.len() {
                assert(ctor[k - qualifier.len() - 1] == '<');
            }
        }
    }
    lemma_before_type_arguments(head, args);
    lemma_after_last_segment(qualifier, ctor);
}

/// The characters before the first `<` of a head without `<`, alone or followed
/// by `<` and anything, are the head.
proof fn lemma_before_type_arguments(head: Seq<char>, args: Seq<char>)
    requires
        !head.contains('<'),
    ensures
        before_first(head, '<') == head,
        before_first(head + seq!['<'] + args, '<') == head,
{
    lemma_first_index_of(head, '<');
    if first_index_of(head, '<') < head.len() {
        assert(head[first_index_of(head, '<')] == '<');
    }
    assert(head.take(head.len() as int) =~= head);
    let name = head + seq!['<'] + args;
    lemma_first_index_of(name, '<');
    let k = first_index_of(name, '<');
    assert(name[head.len() as int] == '<');
    if k < head.len() {
        assert(name[k] == head[k]);
    }
    assert(name.take(k) =~= head);
}

/// The part after the last `.` of `qualifier.segment`, where the segment holds
/// no `.`, is the segment.
proof fn lemma_after_last_segment(qualifier: Seq<char>, segment: Seq<char>)
    requires
        !segment.contains('.'),
    ensures
        last_index_of(qualifier + seq!['.'] + segment, '.') == qualifier.len(),
        after_last(qualifier + seq!['.'] + segment, '.') == segment,
    decreases segment.len(),
{
    let s = qualifier + seq!['.'] + segment;
    if segment.len() == 0 {
        assert(s.last() == '.');
        assert(last_index_of(s, '.') == s.len() - 1);
    } else {
        let shorter = segment.drop_last();
        assert(!shorter.contains('.')) by {
            if shorter.contains('.') {
                let k = choose|k: int| 0 <= k < shorter.len() && shorter[k] == '.';
                assert(segment[k] == '.');
            }
        }
        lemma_after_last_segment(qualifier, shorter);
        assert(s.drop_last() =~= qualifier + seq!['.'] + shorter);
        assert(s.last() == segment.last());
        assert(segment[segment.len() - 1] != '.');
        assert(last_index_of(s, '.') == last_index_of(s.drop_last(), '.'));
    }
    assert(s.skip(qualifier.len() as int + 1) =~= segment);
}

/// A function type (`Function`, a callable object type, or a name for one of
/// them) reports `"function"` at runtime: it survives exactly the branches of a
/// `typeof` test in which `"function"` lands.
pub proof fn lemma_typeof_function_member(member: SpecType, tag: TypeofTag, keep_matching: bool)
    requires
        spec_peel(member) == SpecType::Function || (spec_peel(member) is Object && spec_peel(
            member,
        )->Object_0.callable),
    ensures
        spec_typeof_tag_of(member) == Some(TypeofTag::Function),
        spec_typeof_survives(member, tag, keep_matching) == ((tag == TypeofTag::Function)
            == keep_matching),
{
}

/// The true branch of `typeof x === "function"` keeps every function member of a
/// union, and the false branch keeps none of them.
pub proof fn lemma_typeof_function_kept(members: Seq<SpecType>, i: int)
    requires
        0 <= i < members.len(),
        spec_peel(members[i]) == SpecType::Function || (spec_peel(members[i]) is Object
            && spec_peel(members[i])->Object_0.callable),
    ensures
        spec_typeof_kept(members, TypeofTag::Function, true).contains(members[i]),
        !spec_typeof_kept(members, TypeofTag::Function, false).contains(members[i]),
{
    lemma_typeof_function_member(members[i], TypeofTag::Function, true);
    lemma_typeof_function_member(members[i], TypeofTag::Function, false);
    let pt = |m: SpecType| spec_typeof_survives(m, TypeofTag::Function, true);
    let pf = |m: SpecType| spec_typeof_survives(m, TypeofTag::Function, false);
    let ft = |m: SpecType| spec_typeof_member_result(m, TypeofTag::Function, true);
    let ff = |m: SpecType| spec_typeof_member_result(m, TypeofTag::Function, false);
    broadcast use vstd::seq_lib::group_filter_ensures;
    let kt = members.filter(pt);
    let kf = members.filter(pf);
    assert(kt.contains(members[i]));
    let j = choose|j: int| 0 <= j < kt.len() && kt[j] == members[i];
    assert(!(members[i] is GenuineUnknown));
    assert(kt.map_values(ft)[j] == members[i]);
    assert(spec_typeof_kept(members, TypeofTag::Function, true) == kt.map_values(ft));
    assert(spec_typeof_kept(members, TypeofTag::Function, false) == kf.map_values(ff));
    if kf.map_values(ff).contains(members[i]) {
        let q = choose|q: int| 0 <= q < kf.len() && kf.map_values(ff)[q] == members[i];
        assert(kf[q] == members[i]);
        assert(pf(kf[q]));
    }
}

/// The type a `typeof` tag names reports that tag, and a unit literal reports
/// the tag of its wide primitive (`"a"` is a `"string"`, `0` a `"number"`).
pub proof fn lemma_typeof_tags_agree(tag: TypeofTag, literal: SpecType)
    ensures
        spec_type_for_typeof_tag(Some(tag)) matches Some(c) ==> spec_typeof_tag_of(c) == Some(tag),
        spec_literal_base_primitive(literal) matches Some(b) ==> spec_typeof_tag_of(b) is Some
            && spec_typeof_tag_of(literal) == spec_typeof_tag_of(b),
{
}

/// In the branch where `x === lit` holds, a union that admits the literal,
/// itself or through its wide primitive (`string` for a string literal,
/// `number` for a number literal, `boolean` for `true` or `false`), narrows to
/// the literal alone.
pub proof fn lemma_literal_equality_narrows_to_literal(members: Seq<SpecType>, literal: SpecType)
    requires
        literal is StringLiteral || literal is NumberLiteral || literal is BooleanLiteral,
        members.contains(literal) || (literal is StringLiteral && members.contains(SpecType::String))
            || (literal is NumberLiteral && members.contains(SpecType::Number)) || (
        literal is BooleanLiteral && members.contains(SpecType::Boolean)),
    ensures
        spec_narrow_by_literal_equality(SpecType::Union(members), literal, true) == Some(literal),
{
    let one = seq![literal];
    assert(one.drop_last() =~= Seq::<SpecType>::empty());
    assert(spec_flatten(one.drop_last()) == Seq::<SpecType>::empty());
    assert(spec_flatten(one) =~= one);
    assert(spec_dedup(one.drop_last()) == Seq::<SpecType>::empty());
    assert(spec_dedup(one) =~= Seq::<SpecType>::empty().push(literal));
    assert(spec_union(one) == literal);
}

/// A part a value can have once it is known falsy: `string`, `number`,
/// `bigint`, `undefined`, `null`, `void`, or one of the falsy literals `false`,
/// `""` and `0`.
pub open spec fn spec_may_be_falsy_part(p: SpecType) -> bool {
    match p {
        SpecType::String | SpecType::Number | SpecType::BigInt | SpecType::Undefined
        | SpecType::Null | SpecType::Void => true,
        SpecType::BooleanLiteral(b) => !b,
        SpecType::StringLiteral(s) => s.len() == 0,
        SpecType::NumberLiteral(s) => s == "0"@,
        _ => false,
    }
}

/// Every falsy part of a type can be falsy at runtime: a truthy literal (a
/// number literal other than `0`, `true`, a non-empty string literal) or an
/// object never contributes one, however deep in unions and names it sits.
pub proof fn lemma_falsy_parts_are_falsy(t: SpecType)
    ensures
        spec_falsy_parts(t) matches Some(parts) ==> forall|i: int|
            0 <= i < parts.len() ==> spec_may_be_falsy_part(#[trigger] parts[i]),
    decreases type_height(t), 0nat, 0nat,
{
    match t {
        SpecType::Union(ms) => {
            lemma_falsy_parts_all_are_falsy(ms);
        },
        SpecType::Reference(r) => {
            if !r.enum_owner {
                lemma_peel_height(*r.target);
                lemma_falsy_parts_are_falsy(spec_peel(*r.target));
            }
        },
        _ => {},
    }
}

/// [`lemma_falsy_parts_are_falsy`] over a sequence of members.
pub proof fn lemma_falsy_parts_all_are_falsy(s: Seq<SpecType>)
    ensures
        spec_falsy_parts_all(s) matches Some(parts) ==> forall|i: int|
            0 <= i < parts.len() ==> spec_may_be_falsy_part(#[trigger] parts[i]),
    decreases seq_height(s), 1nat, s.len(),
{
    if s.len() > 0 {
        lemma_seq_height(s);
        lemma_falsy_parts_all_are_falsy(s.drop_last());
        lemma_falsy_parts_are_falsy(s.last());
        match spec_falsy_parts_all(s.drop_last()) {
            Some(front) => match spec_falsy_parts(s.last()) {
                Some(back) => {
                    assert forall|i: int| 0 <= i < (front + back).len() implies spec_may_be_falsy_part(
                        #[trigger] (front + back)[i],
                    ) by {
                        if i >= front.len() {
                            assert((front + back)[i] == back[i - front.len()]);
                        }
                    }
                },
                None => {},
            },
            None => {},
        }
    }
}

proof fn lemma_flatten_of_falsy_parts(s: Seq<SpecType>)
    requires
        forall|i: int| 0 <= i < s.len() ==> spec_may_be_falsy_part(#[trigger] s[i]),
    ensures
        spec_flatten(s) == s,
    decreases s.len(),
{
    if s.len() > 0 {
        assert(spec_may_be_falsy_part(s[s.len() - 1]));
        lemma_flatten_of_falsy_parts(s.drop_last());
        assert(s.drop_last().push(s.last()) =~= s);
        assert(s.drop_last() + seq![s.last()] =~= s);
    }
}

proof fn lemma_dedup_members(s: Seq<SpecType>)
    ensures
        forall|i: int| 0 <= i < spec_dedup(s).len() ==> s.contains(#[trigger] spec_dedup(s)[i]),
    decreases s.len(),
{
    if s.len() > 0 {
        lemma_dedup_members(s.drop_last());
        let d = spec_dedup(s.drop_last());
        assert forall|i: int| 0 <= i < spec_dedup(s).len() implies s.contains(#[trigger] spec_dedup(s)[i]) by {
            if i < d.len() {
                assert(spec_dedup(s)[i] == d[i]);
                let k = choose|k: int| 0 <= k < s.drop_last().len() && s.drop_last()[k] == d[i];
                assert(s[k] == d[i]);
            } else {
                assert(spec_dedup(s)[i] == s[s.len() - 1]);
            }
        }
    }
}

/// Once a value is known falsy nothing always truthy is left of it: what
/// remains is `never`, the type itself where nothing can be said, or made only
/// of parts that can be falsy. So a number literal other than `0` alone gives
/// `never`, and it never remains of a union holding it.
pub proof fn lemma_keep_possibly_falsy_drops_truthy(t: SpecType, text: Seq<char>)
    ensures
        spec_falsy_parts(t) is Some ==> ({
            let kept = spec_keep_possibly_falsy(t);
            ||| kept == SpecType::Never
            ||| spec_may_be_falsy_part(kept)
            ||| (kept matches SpecType::Union(ms) && forall|i: int|
                0 <= i < ms.len() ==> spec_may_be_falsy_part(#[trigger] ms[i]))
        }),
        spec_falsy_parts(t) is Some && text != "0"@ ==> spec_keep_possibly_falsy(t) != SpecType::NumberLiteral(text)
            && !(spec_keep_possibly_falsy(t) matches SpecType::Union(ms) && ms.contains(SpecType::NumberLiteral(text))),
        text != "0"@ ==> spec_keep_possibly_falsy(SpecType::NumberLiteral(text)) == SpecType::Never,
{
    lemma_falsy_parts_are_falsy(t);
    if let Some(parts) = spec_falsy_parts(t) {
        if parts.len() > 0 {
            lemma_flatten_of_falsy_parts(parts);
            lemma_dedup_members(parts);
            let m = spec_dedup(parts);
            assert forall|i: int| 0 <= i < m.len() implies spec_may_be_falsy_part(#[trigger] m[i]) by {
                let k = choose|k: int| 0 <= k < parts.len() && parts[k] == m[i];
                assert(spec_may_be_falsy_part(parts[k]));
            }
            if m.len() == 1 {
                assert(spec_may_be_falsy_part(m[0]));
            }
        }
    }
}

} // verus!
