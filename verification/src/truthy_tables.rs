//! What a condition's truthiness guards make of the bindings in scope: the
//! names an `&&` chain or a falsy `||` operand proves truthy or falsy, and the
//! genuinely-`unknown` values a guard leaves no longer unknown.

use vstd::prelude::*;
use crate::aliases::view_strings;
use crate::guard_bindings::{
    collect_holding_guard_identifiers, guarded_value_identifiers,
    spec_collect_holding_guard_identifiers, spec_guarded_value_identifiers,
};
use crate::symbols::{
    copy_symbol, spec_get, spec_narrowed_table, spec_lookup_index, view_entries, view_names, SpecSymbol, SymbolEntry,
    SymbolInfo, SymbolTable,
};
use crate::aliases::{reference_path, spec_reference_path};
use crate::syntax::Expr;
use crate::table_narrowing::step_names;
use crate::truthy::{
    collect_and_chain_truthy_targets, collect_truthy_guarded_identifiers,
    narrow_truthy_guarded_property, remove_definitely_falsy, spec_collect_and_chain_truthy_targets,
    spec_collect_truthy_guarded, spec_narrow_truthy_guarded_property, spec_remove_definitely_falsy,
    view_targets, SpecTruthyTarget, TruthyGuardTarget,
};
use crate::types::{
    copy_type, lemma_view_types, lemma_view_types_push, peeled, spec_peel, spec_union, type_eq,
    union_of, view_types, SpecType, Type,
};

verus! {

/// What `name` resolves to among bindings read as names and symbols: its
/// last binding.
pub open spec fn spec_view_get(entries: Seq<(Seq<char>, SpecSymbol)>, name: Seq<char>) -> Option<SpecSymbol>
    decreases entries.len(),
{
    if entries.len() == 0 {
        None
    } else if entries.last().0 == name {
        Some(entries.last().1)
    } else {
        spec_view_get(entries.drop_last(), name)
    }
}

proof fn lemma_view_get_entries(entries: Seq<SymbolEntry>, name: Seq<char>)
    ensures
        match spec_lookup_index(entries, name) {
            Some(i) => 0 <= i < entries.len() && spec_view_get(view_entries(entries), name) == Some(
                entries[i].info@,
            ),
            None => spec_view_get(view_entries(entries), name) is None,
        },
    decreases entries.len(),
{
    if entries.len() > 0 {
        let v = view_entries(entries);
        assert(v.drop_last() =~= view_entries(entries.drop_last()));
        assert(v.last() == (entries.last().name@, entries.last().info@));
        lemma_view_get_entries(entries.drop_last(), name);
        match spec_lookup_index(entries.drop_last(), name) {
            Some(i) => {
                assert(entries.drop_last()[i] == entries[i]);
            },
            None => {},
        }
    }
}

/// A table resolves a name as its bindings, read as names and symbols, do.
pub proof fn lemma_view_get(table: SymbolTable, name: Seq<char>)
    ensures
        spec_get(table, name) == spec_view_get(view_entries(table.entries@), name),
{
    lemma_view_get_entries(table.entries@, name);
}

/// A guard on a genuinely-`unknown` value leaves it narrowed to a shape the
/// checker does not compute: `name`, when it resolves to `unknown` as
/// written, is rebound to the degradation sentinel.
pub open spec fn spec_downgrade_step(entries: Seq<(Seq<char>, SpecSymbol)>, name: Seq<char>) -> Option<(Seq<char>, SpecSymbol)> {
    match spec_view_get(entries, name) {
        Some(s) => if s.ty == SpecType::GenuineUnknown {
            Some((name, SpecSymbol { ty: SpecType::Unknown, ..s }))
        } else {
            None
        },
        None => None,
    }
}

/// The bindings [`spec_downgrade_step`] adds for each of `names` in turn,
/// each over the bindings before it.
pub open spec fn spec_downgrade_steps(entries: Seq<(Seq<char>, SpecSymbol)>, names: Seq<Seq<char>>) -> Seq<(Seq<char>, SpecSymbol)>
    decreases names.len(),
{
    if names.len() == 0 {
        Seq::empty()
    } else {
        let prev = spec_downgrade_steps(entries, names.drop_last());
        match spec_downgrade_step(entries + prev, names.last()) {
            Some(step) => prev.push(step),
            None => prev,
        }
    }
}

fn downgrade_genuine_unknowns(table: &mut SymbolTable, names: &Vec<String>) -> (changed: bool)
    ensures
        view_entries(final(table).entries@) == view_entries(old(table).entries@) + spec_downgrade_steps(
            view_entries(old(table).entries@),
            view_strings(names@),
        ),
        final(table).narrowed@ == old(table).narrowed@,
        changed == (spec_downgrade_steps(view_entries(old(table).entries@), view_strings(names@)).len()
            > 0),
{
    let ghost start = view_entries(table.entries@);
    let ghost start_names = table.narrowed@;
    let ghost ns = view_strings(names@);
    let mut changed = false;
    let mut i: usize = 0;
    assert(ns.take(0) =~= Seq::<Seq<char>>::empty());
    assert(start + Seq::<(Seq<char>, SpecSymbol)>::empty() =~= start);
    while i < names.len()
        invariant
            0 <= i <= names.len(),
            ns == view_strings(names@),
            view_entries(table.entries@) == start + spec_downgrade_steps(start, ns.take(i as int)),
            table.narrowed@ == start_names,
            changed == (spec_downgrade_steps(start, ns.take(i as int)).len() > 0),
        decreases names.len() - i,
    {
        let ghost prev = spec_downgrade_steps(start, ns.take(i as int));
        proof {
            assert(ns.take(i + 1).drop_last() =~= ns.take(i as int));
            assert(ns.take(i + 1).last() == names@[i as int]@);
            lemma_view_get(*table, names@[i as int]@);
        }
        let found = match table.get(names[i].as_str()) {
            Some(s) => if matches!(s.ty, Type::GenuineUnknown) {
                Some(copy_symbol(s))
            } else {
                None
            },
            None => None,
        };
        match found {
            Some(s) => {
                let info = SymbolInfo { ty: Type::Unknown, kind: s.kind, function_signature: s.function_signature };
                let ghost step = (names@[i as int]@, info@);
                table.insert(names[i].clone(), info);
                changed = true;
                proof {
                    assert((start + prev).push(step) =~= start + prev.push(step));
                }
            },
            None => {},
        }
        i = i + 1;
    }
    assert(ns.take(names.len() as int) =~= ns);
    changed
}

/// The name a truthy target narrows.
pub open spec fn spec_target_base(target: SpecTruthyTarget) -> Seq<char> {
    match target {
        SpecTruthyTarget::Identifier(name) => name,
        SpecTruthyTarget::Property { base, .. } => base,
    }
}

/// What a truthy target makes of its base's type: an identifier loses its
/// definitely falsy members, a property access keeps its truthy property.
pub open spec fn spec_truthy_target_type(target: SpecTruthyTarget, ty: SpecType) -> SpecType {
    match target {
        SpecTruthyTarget::Identifier(_) => spec_remove_definitely_falsy(ty),
        SpecTruthyTarget::Property { property, .. } => spec_narrow_truthy_guarded_property(ty, property),
    }
}

/// The narrowing a truthy target makes over `entries`: its base rebound to
/// the narrowed type, unless it is unbound or the type does not change.
pub open spec fn spec_truthy_target_step(entries: Seq<(Seq<char>, SpecSymbol)>, target: SpecTruthyTarget) -> Option<(Seq<char>, SpecSymbol)> {
    let base = spec_target_base(target);
    match spec_view_get(entries, base) {
        Some(s) => {
            let narrowed = spec_truthy_target_type(target, s.ty);
            if narrowed == s.ty {
                None
            } else {
                Some((base, SpecSymbol { ty: narrowed, ..s }))
            }
        },
        None => None,
    }
}

/// The narrowings [`spec_truthy_target_step`] makes for each of `targets` in
/// turn, each over the bindings before it.
pub open spec fn spec_truthy_target_steps(entries: Seq<(Seq<char>, SpecSymbol)>, targets: Seq<SpecTruthyTarget>) -> Seq<(Seq<char>, SpecSymbol)>
    decreases targets.len(),
{
    if targets.len() == 0 {
        Seq::empty()
    } else {
        let prev = spec_truthy_target_steps(entries, targets.drop_last());
        match spec_truthy_target_step(entries + prev, targets.last()) {
            Some(step) => prev.push(step),
            None => prev,
        }
    }
}

fn narrow_truthy_targets(table: &mut SymbolTable, targets: &Vec<TruthyGuardTarget>) -> (changed: bool)
    ensures
        ({
            let steps = spec_truthy_target_steps(view_entries(old(table).entries@), view_targets(targets@));
            &&& view_entries(final(table).entries@) == view_entries(old(table).entries@) + steps
            &&& view_names(final(table).narrowed@) == view_names(old(table).narrowed@) + step_names(steps)
            &&& changed == (steps.len() > 0)
        }),
{
    let ghost start = view_entries(table.entries@);
    let ghost start_names = view_names(table.narrowed@);
    let ghost ts = view_targets(targets@);
    let mut changed = false;
    let mut i: usize = 0;
    assert(ts.take(0) =~= Seq::<SpecTruthyTarget>::empty());
    assert(start + Seq::<(Seq<char>, SpecSymbol)>::empty() =~= start);
    assert(start_names + step_names(Seq::<(Seq<char>, SpecSymbol)>::empty()) =~= start_names);
    while i < targets.len()
        invariant
            0 <= i <= targets.len(),
            ts == view_targets(targets@),
            ({
                let steps = spec_truthy_target_steps(start, ts.take(i as int));
                &&& view_entries(table.entries@) == start + steps
                &&& view_names(table.narrowed@) == start_names + step_names(steps)
                &&& changed == (steps.len() > 0)
            }),
        decreases targets.len() - i,
    {
        let ghost prev = spec_truthy_target_steps(start, ts.take(i as int));
        let target = &targets[i];
        let base = match target {
            TruthyGuardTarget::Identifier(name) => name,
            TruthyGuardTarget::Property { base, .. } => base,
        };
        proof {
            assert(ts.take(i + 1).drop_last() =~= ts.take(i as int));
            assert(ts.take(i + 1).last() == target@);
            lemma_view_get(*table, base@);
        }
        let found = match table.get(base.as_str()) {
            Some(s) => Some(copy_symbol(s)),
            None => None,
        };
        if let Some(s) = found {
            let narrowed = match target {
                TruthyGuardTarget::Identifier(_) => remove_definitely_falsy(&s.ty),
                TruthyGuardTarget::Property { property, .. } => narrow_truthy_guarded_property(
                    &s.ty,
                    property.as_str(),
                ),
            };
            if !type_eq(&narrowed, &s.ty) {
                let info = SymbolInfo { ty: narrowed, kind: s.kind, function_signature: s.function_signature };
                let ghost step = (base@, info@);
                table.insert_narrowed(base.clone(), info);
                changed = true;
                proof {
                    assert((start + prev).push(step) =~= start + prev.push(step));
                    assert(step_names(prev.push(step)) =~= step_names(prev).push(step.0));
                    assert((start_names + step_names(prev)).push(step.0) =~= start_names + step_names(
                        prev,
                    ).push(step.0));
                }
            }
        }
        i = i + 1;
    }
    assert(ts.take(targets.len() as int) =~= ts);
    changed
}

/// The table a condition's falsy-guard operands leave where it is false
/// (`if (!a || !b.p)` bails out, so past it `a` and `b.p` are truthy): each
/// target the condition's `||` of `!` operands names narrows, in turn (see
/// [`spec_truthy_target_steps`]), over `symbols`.
pub fn narrow_truthy_guarded_symbol_table(condition: &Expr, symbols: &SymbolTable) -> (r: SymbolTable)
    ensures
        ({
            let steps = spec_truthy_target_steps(
                view_entries(symbols.entries@),
                spec_collect_truthy_guarded(*condition, Seq::empty()),
            );
            &&& view_entries(r.entries@) == view_entries(symbols.entries@) + steps
            &&& view_names(r.narrowed@) == view_names(symbols.narrowed@) + step_names(steps)
        }),
{
    let mut narrowed = symbols.copy();
    let mut targets: Vec<TruthyGuardTarget> = Vec::new();
    assert(targets@.map_values(|t: TruthyGuardTarget| t@) =~= Seq::<SpecTruthyTarget>::empty());
    collect_truthy_guarded_identifiers(condition, &mut targets);
    assert(view_targets(targets@) =~= targets@.map_values(|t: TruthyGuardTarget| t@));
    narrow_truthy_targets(&mut narrowed, &targets);
    narrowed
}

/// The table `b` sees in `a || b`, which runs only where `a` is falsy:
/// `structured` is what `a`'s structured guards narrowed there, if anything.
/// The identifiers whose guards `a` being false proves hold (see
/// [`spec_collect_holding_guard_identifiers`]) lose a genuine `unknown`
/// (see [`spec_downgrade_steps`]) over that table (else `symbols`). With no
/// such identifier the answer is `structured`; otherwise `None` only when
/// nothing was narrowed at all.
pub fn narrow_falsy_operand_symbol_table(operand: &Expr, symbols: &SymbolTable, structured: Option<SymbolTable>) -> (r: Option<SymbolTable>)
    ensures
        ({
            let names = spec_collect_holding_guard_identifiers(*operand, false, Seq::empty());
            let base = match structured {
                Some(t) => t,
                None => *symbols,
            };
            let downgrades = spec_downgrade_steps(view_entries(base.entries@), names);
            if names.len() == 0 {
                r == structured
            } else if structured is None && downgrades.len() == 0 {
                r is None
            } else {
                r matches Some(t) && view_entries(t.entries@) == view_entries(base.entries@) + downgrades
                    && view_names(t.narrowed@) == view_names(base.narrowed@)
            }
        }),
{
    let mut names: Vec<String> = Vec::new();
    assert(view_strings(names@) =~= Seq::<Seq<char>>::empty());
    collect_holding_guard_identifiers(operand, false, &mut names);
    if names.len() == 0 {
        return structured;
    }
    let had_structured = structured.is_some();
    let mut narrowed = match structured {
        Some(t) => t,
        None => symbols.copy(),
    };
    let downgraded = downgrade_genuine_unknowns(&mut narrowed, &names);
    if had_structured || downgraded {
        Some(narrowed)
    } else {
        None
    }
}

/// The table `b` sees in `a && b`, which runs only where `a` is truthy:
/// `structured` is what `a`'s structured guards narrowed there, if anything.
/// Over that table (else `symbols`), the identifiers `a` guards as whole
/// values (see [`spec_guarded_value_identifiers`]) lose a genuine `unknown`,
/// then each target the `&&` chain proves truthy narrows in turn (see
/// [`spec_truthy_target_steps`]). With neither the answer is `structured`;
/// otherwise `None` only when nothing was narrowed at all.
pub fn narrow_truthy_operand_symbol_table(operand: &Expr, symbols: &SymbolTable, structured: Option<SymbolTable>) -> (r: Option<SymbolTable>)
    ensures
        ({
            let targets = spec_collect_and_chain_truthy_targets(*operand, Seq::empty());
            let guarded = spec_guarded_value_identifiers(*operand);
            let base = match structured {
                Some(t) => t,
                None => *symbols,
            };
            let downgrades = spec_downgrade_steps(view_entries(base.entries@), guarded);
            let steps = spec_truthy_target_steps(view_entries(base.entries@) + downgrades, targets);
            if targets.len() == 0 && guarded.len() == 0 {
                r == structured
            } else if structured is None && downgrades.len() == 0 && steps.len() == 0 {
                r is None
            } else {
                r matches Some(t) && view_entries(t.entries@) == view_entries(base.entries@) + downgrades
                    + steps && view_names(t.narrowed@) == view_names(base.narrowed@) + step_names(steps)
            }
        }),
{
    let mut targets: Vec<TruthyGuardTarget> = Vec::new();
    assert(view_targets(targets@) =~= Seq::<SpecTruthyTarget>::empty());
    collect_and_chain_truthy_targets(operand, &mut targets);
    let guarded = guarded_value_identifiers(operand);
    if targets.len() == 0 && guarded.len() == 0 {
        return structured;
    }
    let had_structured = structured.is_some();
    let mut narrowed = match structured {
        Some(t) => t,
        None => symbols.copy(),
    };
    let ghost base_entries = view_entries(narrowed.entries@);
    let ghost base_names = view_names(narrowed.narrowed@);
    let downgraded = downgrade_genuine_unknowns(&mut narrowed, &guarded);
    let ghost downgrades = spec_downgrade_steps(base_entries, view_strings(guarded@));
    assert(view_names(narrowed.narrowed@) == base_names);
    let ghost mid = view_entries(narrowed.entries@);
    let narrowed_targets = narrow_truthy_targets(&mut narrowed, &targets);
    proof {
        let steps = spec_truthy_target_steps(mid, view_targets(targets@));
        assert(base_entries + downgrades + steps =~= mid + steps);
    }
    if had_structured || downgraded || narrowed_targets {
        Some(narrowed)
    } else {
        None
    }
}


/// The members of a union a truthiness test keeps: each whose fact (whether
/// the tested value is always truthy, always falsy, or undecided in it) does
/// not rule it out in `branch_is_true`.
pub open spec fn spec_kept_by_truthiness(members: Seq<SpecType>, facts: Seq<Option<bool>>, branch_is_true: bool) -> Seq<SpecType>
    decreases members.len(),
{
    if members.len() == 0 {
        Seq::empty()
    } else {
        let prev = spec_kept_by_truthiness(members.drop_last(), facts, branch_is_true);
        if facts[members.len() - 1] == Some(!branch_is_true) {
            prev
        } else {
            prev.push(members.last())
        }
    }
}

/// The binding a truthiness test on a property path partitions: the name
/// the path starts at, its symbol, and the members of the union its type
/// resolves to; none for a bare name or a type that is not a union.
pub open spec fn spec_truthiness_subject(condition: Expr, symbols: SymbolTable) -> Option<(Seq<char>, SpecSymbol, Seq<SpecType>)> {
    match spec_reference_path(condition) {
        Some((base, path)) => if path.len() == 0 {
            None
        } else {
            match spec_get(symbols, base) {
                Some(s) => match spec_peel(s.ty) {
                    SpecType::Union(ms) => Some((base, s, ms)),
                    _ => None,
                },
                None => None,
            }
        },
        None => None,
    }
}

/// `c ? a : b` with `c` a property path (`r.success`): in each branch the
/// members of the path's base union that the test rules out are gone.
/// `facts[i]` is what the tested value is in the `i`th member: always truthy
/// (`Some(true)`), always falsy (`Some(false)`) or undecided. The base is
/// rebound to the union of the members kept, unless that keeps all of them
/// or none.
pub fn narrow_union_by_property_truthiness_symbol_table(
    condition: &Expr,
    symbols: &SymbolTable,
    branch_is_true: bool,
    facts: &Vec<Option<bool>>,
) -> (r: Option<SymbolTable>)
    requires
        spec_truthiness_subject(*condition, *symbols) matches Some((_, _, ms)) ==> facts@.len() == ms.len(),
    ensures
        match spec_truthiness_subject(*condition, *symbols) {
            Some((base, s, ms)) => {
                let kept = spec_kept_by_truthiness(ms, facts@, branch_is_true);
                if kept.len() == 0 || kept.len() == ms.len() {
                    r is None
                } else {
                    r matches Some(t) && spec_narrowed_table(
                        t,
                        *symbols,
                        base,
                        SpecSymbol { ty: spec_union(kept), ..s },
                    )
                }
            },
            None => r is None,
        },
{
    let (base, path) = match reference_path(condition) {
        Some(p) => p,
        None => return None,
    };
    if path.len() == 0 {
        return None;
    }
    let symbol = match symbols.get(base.as_str()) {
        Some(s) => s,
        None => return None,
    };
    let ms = match peeled(&symbol.ty) {
        Type::Union(ms) => ms,
        _ => return None,
    };
    let ghost s = view_types(ms@);
    proof {
        lemma_view_types(ms@);
    }
    let mut kept: Vec<Type> = Vec::new();
    let mut i: usize = 0;
    assert(s.take(0) =~= Seq::<SpecType>::empty());
    while i < ms.len()
        invariant
            0 <= i <= ms.len(),
            s == view_types(ms@),
            s.len() == ms.len(),
            facts@.len() == ms.len(),
            forall|j: int| 0 <= j < ms.len() ==> #[trigger] s[j] == ms@[j]@,
            view_types(kept@) == spec_kept_by_truthiness(s.take(i as int), facts@, branch_is_true),
        decreases ms.len() - i,
    {
        proof {
            assert(s.take(i + 1).drop_last() =~= s.take(i as int));
            assert(s.take(i + 1).last() == s[i as int]);
        }
        let fact = facts[i];
        let ruled_out = match fact {
            Some(b) => b == !branch_is_true,
            None => false,
        };
        if !ruled_out {
            let c = copy_type(&ms[i]);
            proof {
                lemma_view_types_push(kept@, c);
            }
            kept.push(c);
        }
        i = i + 1;
    }
    assert(s.take(ms.len() as int) =~= s);
    proof {
        lemma_view_types(kept@);
    }
    if kept.len() == 0 || kept.len() == ms.len() {
        return None;
    }
    let info = SymbolInfo {
        ty: union_of(kept),
        kind: symbol.kind,
        function_signature: copy_symbol(symbol).function_signature,
    };
    let mut narrowed = symbols.copy();
    narrowed.insert_narrowed(base, info);
    assert(spec_narrowed_table(narrowed, *symbols, base@, info@));
    Some(narrowed)
}

} // verus!
