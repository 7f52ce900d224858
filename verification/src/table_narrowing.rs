//! Guards applied to a symbol table: a guard on a binding yields a table in
//! which that binding is narrowed, or `None` when it narrows nothing; two
//! tables an `||` reaches are merged into their union.

use vstd::prelude::*;
use crate::guards::discriminant::{
    narrow_base_property_by_discriminant, narrow_discriminant_through_optional_chain,
    parse_discriminant_condition_with, spec_narrow_base_property_by_discriminant,
    spec_narrow_discriminant_through_optional_chain, spec_parse_discriminant_condition,
};
use crate::guards::arrayness::{narrow_union_by_arrayness, parse_array_isarray_condition, spec_narrow_union_by_arrayness, spec_static_call_argument};
use crate::guards::instanceof::{narrow_union_by_instanceof, parse_instanceof_condition, spec_narrow_union_by_instanceof, spec_parse_instanceof_condition};
use crate::guards::literal_equality::{
    narrow_by_literal_equality, parse_identifier_literal_equality, spec_narrow_by_literal_equality,
    spec_parse_identifier_literal_equality,
};
use crate::guards::nullish::{
    narrow_union_by_nullish, parse_nullish_equality_condition, spec_narrow_union_by_nullish,
    spec_parse_nullish_equality_condition, NullishTest,
};
use crate::guards::property_presence::{
    narrow_union_by_property_presence, parse_in_condition, spec_narrow_union_by_property_presence,
    spec_parse_in_condition,
};
use crate::guards::typeof_guard::{narrow_union_by_typeof, spec_narrow_union_by_typeof, spec_parse_typeof_tag};
use crate::narrowing::{parse_typeof_condition, spec_parse_typeof_condition};
use crate::symbols::{
    copy_symbol, lemma_get_narrowed, lemma_get_same_entries, spec_get, spec_narrowed_table,
    view_entries, view_names, SpecSymbol, SymbolInfo, SymbolTable,
};
use crate::syntax::Expr;
use crate::types::{
    copy_object, copy_type, find_property, lemma_find_index, lemma_view_properties, peeled,
    spec_find_index, spec_peel, type_eq, union_of, view_object, view_properties, view_property,
    ObjectProperty, SpecObject, SpecProperty, SpecType, Type,
};

verus! {

/// The narrowing a guard makes to a table: the binding named and the symbol
/// it is narrowed to.
pub type Narrowing = Option<(Seq<char>, SpecSymbol)>;

/// What a table step yields: `None` for no narrowing, else a table that is
/// `symbols` with the step's binding on top.
pub open spec fn spec_step_result(r: Option<SymbolTable>, symbols: SymbolTable, step: Narrowing) -> bool {
    match step {
        Some((name, symbol)) => r matches Some(t) && spec_narrowed_table(t, symbols, name, symbol),
        None => r is None,
    }
}

/// The binding `name` of `table` narrowed to `narrowed`, when both exist.
pub open spec fn spec_rebind(table: SymbolTable, name: Seq<char>, narrowed: spec_fn(SpecType) -> Option<SpecType>) -> Narrowing {
    match spec_get(table, name) {
        Some(symbol) => match narrowed(symbol.ty) {
            Some(ty) => Some((name, SpecSymbol { ty, ..symbol })),
            None => None,
        },
        None => None,
    }
}

/// `symbols` with `name`, bound to `symbol`, narrowed to `ty`.
fn narrowed_copy(symbols: &SymbolTable, name: &str, symbol: &SymbolInfo, ty: Type) -> (r: SymbolTable)
    ensures
        spec_narrowed_table(r, *symbols, name@, SpecSymbol { ty: ty@, ..symbol@ }),
{
    let mut table = symbols.copy();
    let info = SymbolInfo { ty, kind: symbol.kind, function_signature: copy_symbol(symbol).function_signature };
    let ghost before = table;
    table.insert_narrowed(name.to_string(), info);
    assert(view_entries(table.entries@) == view_entries(symbols.entries@).push((name@, info@)));
    table
}

/// `x.kind === "a"` (or `p.state.kind === "a"`, `this.state.kind === "a"`) on
/// a binding: the union the discriminant is read from keeps the members whose
/// `kind` can pass the test, either the binding's own union or the union its
/// property holds. A discriminant read more than one property below the
/// binding (`p.a.b.kind`) is not narrowed here.
pub open spec fn spec_discriminant_table_step(condition: Expr, table: SymbolTable, branch_is_true: bool) -> Narrowing {
    match spec_parse_discriminant_condition(condition, table) {
        Some((object, property, literal, eq)) => {
            let keep = branch_is_true == eq;
            match object {
                Expr::Identifier(name) => spec_rebind(
                    table,
                    name@,
                    |ty: SpecType| spec_narrow_discriminant_through_optional_chain(condition, ty, property, literal, keep),
                ),
                Expr::PropertyAccess { object: inner, property_name } => {
                    let base = match *inner {
                        Expr::Identifier(name) => Some(name@),
                        Expr::This => Some(crate::aliases::this_name()),
                        _ => None,
                    };
                    match base {
                        Some(name) => spec_rebind(
                            table,
                            name,
                            |ty: SpecType| spec_narrow_base_property_by_discriminant(
                                ty,
                                property_name@,
                                condition,
                                property,
                                literal,
                                keep,
                            ),
                        ),
                        None => None,
                    }
                },
                _ => None,
            }
        },
        None => None,
    }
}

/// See [`spec_discriminant_table_step`].
pub fn narrow_discriminant_symbol_table(condition: &Expr, symbols: &SymbolTable, branch_is_true: bool) -> (r: Option<SymbolTable>)
    ensures
        spec_step_result(r, *symbols, spec_discriminant_table_step(*condition, *symbols, branch_is_true)),
{
    let (object, property, literal, eq) = match parse_discriminant_condition_with(condition, symbols) {
        Some(p) => p,
        None => return None,
    };
    let keep = branch_is_true == eq;
    match object {
        Expr::Identifier(name) => {
            let symbol = match symbols.get(name.as_str()) {
                Some(s) => s,
                None => return None,
            };
            match narrow_discriminant_through_optional_chain(condition, &symbol.ty, property, &literal, keep) {
                Some(ty) => Some(narrowed_copy(symbols, name.as_str(), symbol, ty)),
                None => None,
            }
        },
        Expr::PropertyAccess { object: inner, property_name } => {
            let name = match &**inner {
                Expr::Identifier(name) => name.clone(),
                Expr::This => crate::aliases::this_string(),
                _ => return None,
            };
            let symbol = match symbols.get(name.as_str()) {
                Some(s) => s,
                None => return None,
            };
            match narrow_base_property_by_discriminant(
                &symbol.ty,
                property_name.as_str(),
                condition,
                property,
                &literal,
                keep,
            ) {
                Some(ty) => Some(narrowed_copy(symbols, name.as_str(), symbol, ty)),
                None => None,
            }
        },
        _ => None,
    }
}

/// `typeof x === "tag"` on a binding.
pub open spec fn spec_typeof_table_step(condition: Expr, table: SymbolTable, branch_is_true: bool) -> Narrowing {
    match spec_parse_typeof_condition(condition) {
        Some((Expr::Identifier(name), tag, eq)) => spec_rebind(
            table,
            name@,
            |ty: SpecType| spec_narrow_union_by_typeof(ty, spec_parse_typeof_tag(tag), branch_is_true == eq),
        ),
        _ => None,
    }
}

/// See [`spec_typeof_table_step`].
pub fn narrow_typeof_symbol_table(condition: &Expr, symbols: &SymbolTable, branch_is_true: bool) -> (r: Option<SymbolTable>)
    ensures
        spec_step_result(r, *symbols, spec_typeof_table_step(*condition, *symbols, branch_is_true)),
{
    let (operand, tag, eq) = match parse_typeof_condition(condition) {
        Some(p) => p,
        None => return None,
    };
    let name = match operand {
        Expr::Identifier(name) => name,
        _ => return None,
    };
    let symbol = match symbols.get(name.as_str()) {
        Some(s) => s,
        None => return None,
    };
    match narrow_union_by_typeof(&symbol.ty, tag, branch_is_true == eq) {
        Some(ty) => Some(narrowed_copy(symbols, name.as_str(), symbol, ty)),
        None => None,
    }
}

/// `x instanceof C` on a binding.
pub open spec fn spec_instanceof_table_step(condition: Expr, table: SymbolTable, branch_is_true: bool) -> Narrowing {
    match spec_parse_instanceof_condition(condition) {
        Some((Expr::Identifier(name), ctor)) => spec_rebind(
            table,
            name@,
            |ty: SpecType| spec_narrow_union_by_instanceof(ty, ctor, branch_is_true),
        ),
        _ => None,
    }
}

/// See [`spec_instanceof_table_step`].
pub fn narrow_instanceof_symbol_table(condition: &Expr, symbols: &SymbolTable, branch_is_true: bool) -> (r: Option<SymbolTable>)
    ensures
        spec_step_result(r, *symbols, spec_instanceof_table_step(*condition, *symbols, branch_is_true)),
{
    let (operand, ctor) = match parse_instanceof_condition(condition) {
        Some(p) => p,
        None => return None,
    };
    let name = match operand {
        Expr::Identifier(name) => name,
        _ => return None,
    };
    let symbol = match symbols.get(name.as_str()) {
        Some(s) => s,
        None => return None,
    };
    match narrow_union_by_instanceof(&symbol.ty, ctor, branch_is_true) {
        Some(ty) => Some(narrowed_copy(symbols, name.as_str(), symbol, ty)),
        None => None,
    }
}

/// `Array.isArray(x)` on a binding.
pub open spec fn spec_isarray_table_step(condition: Expr, table: SymbolTable, branch_is_true: bool) -> Narrowing {
    match spec_static_call_argument(condition, "Array"@, "isArray"@) {
        Some(Expr::Identifier(name)) => spec_rebind(
            table,
            name@,
            |ty: SpecType| spec_narrow_union_by_arrayness(ty, branch_is_true),
        ),
        _ => None,
    }
}

/// See [`spec_isarray_table_step`].
pub fn narrow_array_isarray_symbol_table(condition: &Expr, symbols: &SymbolTable, branch_is_true: bool) -> (r: Option<SymbolTable>)
    ensures
        spec_step_result(r, *symbols, spec_isarray_table_step(*condition, *symbols, branch_is_true)),
{
    let operand = match parse_array_isarray_condition(condition) {
        Some(p) => p,
        None => return None,
    };
    let name = match operand {
        Expr::Identifier(name) => name,
        _ => return None,
    };
    let symbol = match symbols.get(name.as_str()) {
        Some(s) => s,
        None => return None,
    };
    match narrow_union_by_arrayness(&symbol.ty, branch_is_true) {
        Some(ty) => Some(narrowed_copy(symbols, name.as_str(), symbol, ty)),
        None => None,
    }
}

/// `"p" in x` on a binding.
pub open spec fn spec_presence_table_step(condition: Expr, table: SymbolTable, branch_is_true: bool) -> Narrowing {
    match spec_parse_in_condition(condition) {
        Some((Expr::Identifier(name), property)) => spec_rebind(
            table,
            name@,
            |ty: SpecType| spec_narrow_union_by_property_presence(ty, property, branch_is_true),
        ),
        _ => None,
    }
}

/// See [`spec_presence_table_step`].
pub fn narrow_property_presence_symbol_table(condition: &Expr, symbols: &SymbolTable, branch_is_true: bool) -> (r: Option<SymbolTable>)
    ensures
        spec_step_result(r, *symbols, spec_presence_table_step(*condition, *symbols, branch_is_true)),
{
    let (object, property) = match parse_in_condition(condition) {
        Some(p) => p,
        None => return None,
    };
    let name = match object {
        Expr::Identifier(name) => name,
        _ => return None,
    };
    let symbol = match symbols.get(name.as_str()) {
        Some(s) => s,
        None => return None,
    };
    match narrow_union_by_property_presence(&symbol.ty, property.as_str(), branch_is_true) {
        Some(ty) => Some(narrowed_copy(symbols, name.as_str(), symbol, ty)),
        None => None,
    }
}

/// `x === "lit"` on a binding.
pub open spec fn spec_literal_equality_table_step(condition: Expr, table: SymbolTable, branch_is_true: bool) -> Narrowing {
    match spec_parse_identifier_literal_equality(condition, table) {
        Some((name, literal, eq)) => spec_rebind(
            table,
            name,
            |ty: SpecType| spec_narrow_by_literal_equality(ty, literal, branch_is_true == eq),
        ),
        None => None,
    }
}

/// See [`spec_literal_equality_table_step`].
pub fn narrow_literal_equality_symbol_table(condition: &Expr, symbols: &SymbolTable, branch_is_true: bool) -> (r: Option<SymbolTable>)
    ensures
        spec_step_result(r, *symbols, spec_literal_equality_table_step(*condition, *symbols, branch_is_true)),
{
    let (name, literal, eq) = match parse_identifier_literal_equality(condition, symbols) {
        Some(p) => p,
        None => return None,
    };
    let symbol = match symbols.get(name) {
        Some(s) => s,
        None => return None,
    };
    match narrow_by_literal_equality(&symbol.ty, &literal, branch_is_true == eq) {
        Some(ty) => Some(narrowed_copy(symbols, name, symbol, ty)),
        None => None,
    }
}

/// A property narrowed by a nullish comparison: its type split by the test
/// (an optional property stays optional only where `undefined` is kept); an
/// optional property whose type holds no tested member is `undefined` where
/// the test holds and its type, now required, where it fails. `None` when the
/// comparison says nothing of it.
pub open spec fn spec_nullish_property(property: SpecProperty, keep_matching: bool, test: NullishTest) -> Option<(SpecType, bool)> {
    match spec_narrow_union_by_nullish(property.ty, keep_matching, test) {
        Some(narrowed) => Some((narrowed, property.optional && keep_matching == test.undefined)),
        None => if property.optional && test.undefined {
            if keep_matching {
                Some((SpecType::Undefined, true))
            } else {
                Some((property.ty, false))
            }
        } else {
            None
        },
    }
}

/// The object a nullish test on `o.property` leaves: the shape `o` resolves
/// to, with the property narrowed.
pub open spec fn spec_nullish_object(ty: SpecType, property: Seq<char>, keep_matching: bool, test: NullishTest) -> Option<SpecType> {
    match spec_peel(ty) {
        SpecType::Object(o) => match spec_find_index(o.properties, property) {
            Some(i) => match spec_nullish_property(o.properties[i], keep_matching, test) {
                Some((narrowed, optional)) => Some(
                    SpecType::Object(
                        SpecObject {
                            properties: o.properties.update(
                                i,
                                SpecProperty { ty: narrowed, optional, ..o.properties[i] },
                            ),
                            ..o
                        },
                    ),
                ),
                None => None,
            },
            None => None,
        },
        _ => None,
    }
}

/// `x === null` (and the like) on a binding, or on a property of one.
pub open spec fn spec_nullish_table_step(condition: Expr, table: SymbolTable, branch_is_true: bool) -> Narrowing {
    match spec_parse_nullish_equality_condition(condition) {
        Some((subject, eq, test)) => {
            let keep = branch_is_true == eq;
            match subject {
                Expr::Identifier(name) => spec_rebind(
                    table,
                    name@,
                    |ty: SpecType| spec_narrow_union_by_nullish(ty, keep, test),
                ),
                Expr::PropertyAccess { object, property_name } => match *object {
                    Expr::Identifier(name) => spec_rebind(
                        table,
                        name@,
                        |ty: SpecType| spec_nullish_object(ty, property_name@, keep, test),
                    ),
                    _ => None,
                },
                _ => None,
            }
        },
        None => None,
    }
}

fn nullish_object(ty: &Type, property: &str, keep_matching: bool, test: NullishTest) -> (r: Option<Type>)
    ensures
        crate::types::opt_view(r) == spec_nullish_object(ty@, property@, keep_matching, test),
{
    let p = peeled(ty);
    let o = match p {
        Type::Object(o) => o,
        _ => return None,
    };
    proof {
        lemma_view_properties(o.properties@);
        assert(p@ == SpecType::Object(view_object(*o)));
    }
    let i = match find_property(&o.properties, property) {
        Some(i) => i,
        None => return None,
    };
    proof {
        lemma_find_index(view_properties(o.properties@), property@);
    }
    let existing = &o.properties[i];
    assert(view_properties(o.properties@)[i as int] == view_property(*existing));
    let (narrowed_ty, narrowed_optional) = match narrow_union_by_nullish(&existing.ty, keep_matching, test) {
        Some(narrowed) => (narrowed, existing.optional && keep_matching == test.undefined),
        None => {
            if existing.optional && test.undefined {
                if keep_matching {
                    (Type::Undefined, true)
                } else {
                    (copy_type(&existing.ty), false)
                }
            } else {
                return None;
            }
        },
    };
    let replacement = ObjectProperty {
        name: existing.name.clone(),
        ty: narrowed_ty,
        optional: narrowed_optional,
        readonly: existing.readonly,
        method: existing.method,
    };
    let mut object = copy_object(o);
    let ghost before = view_object(object);
    let ghost rv = view_property(replacement);
    proof {
        lemma_view_properties(object.properties@);
    }
    object.properties.set(i, replacement);
    proof {
        lemma_view_properties(object.properties@);
        assert(view_properties(object.properties@) =~= before.properties.update(i as int, rv));
        assert(view_object(object) == SpecObject {
            properties: before.properties.update(i as int, rv),
            ..before
        });
    }
    Some(Type::Object(object))
}

/// See [`spec_nullish_table_step`].
pub fn narrow_nullish_equality_symbol_table(condition: &Expr, symbols: &SymbolTable, branch_is_true: bool) -> (r: Option<SymbolTable>)
    ensures
        spec_step_result(r, *symbols, spec_nullish_table_step(*condition, *symbols, branch_is_true)),
{
    let (subject, eq, test) = match parse_nullish_equality_condition(condition) {
        Some(p) => p,
        None => return None,
    };
    let keep = branch_is_true == eq;
    match subject {
        Expr::Identifier(name) => {
            let symbol = match symbols.get(name.as_str()) {
                Some(s) => s,
                None => return None,
            };
            match narrow_union_by_nullish(&symbol.ty, keep, test) {
                Some(ty) => Some(narrowed_copy(symbols, name.as_str(), symbol, ty)),
                None => None,
            }
        },
        Expr::PropertyAccess { object, property_name } => {
            let name = match &**object {
                Expr::Identifier(name) => name,
                _ => return None,
            };
            let symbol = match symbols.get(name.as_str()) {
                Some(s) => s,
                None => return None,
            };
            match nullish_object(&symbol.ty, property_name.as_str(), keep, test) {
                Some(ty) => Some(narrowed_copy(symbols, name.as_str(), symbol, ty)),
                None => None,
            }
        },
        _ => None,
    }
}

/// `names` with each of `more` appended unless it is there already.
pub open spec fn spec_add_unique(names: Seq<Seq<char>>, more: Seq<Seq<char>>) -> Seq<Seq<char>>
    decreases more.len(),
{
    if more.len() == 0 {
        names
    } else {
        crate::guard_bindings::spec_push_unique(spec_add_unique(names, more.drop_last()), more.last())
    }
}

/// The names narrowed in either table, each once, the left table's first.
pub open spec fn spec_disjunct_names(left: SymbolTable, right: SymbolTable) -> Seq<Seq<char>> {
    spec_add_unique(spec_add_unique(Seq::empty(), view_names(left.narrowed@)), view_names(right.narrowed@))
}

/// What merging two branches does to one name: bound in the base table and
/// in both branches, it becomes the union of the two branches' types, unless
/// that is its declared type again.
pub open spec fn spec_disjunct_step(symbols: SymbolTable, left: SymbolTable, right: SymbolTable, name: Seq<char>) -> Narrowing {
    match (spec_get(symbols, name), spec_get(left, name), spec_get(right, name)) {
        (Some(declared), Some(l), Some(r)) => {
            let narrowed = crate::types::spec_union(seq![l.ty, r.ty]);
            if narrowed == declared.ty {
                None
            } else {
                Some((name, SpecSymbol { ty: narrowed, ..declared }))
            }
        },
        _ => None,
    }
}

/// The narrowings merging makes, name by name.
pub open spec fn spec_disjunct_steps(symbols: SymbolTable, left: SymbolTable, right: SymbolTable, names: Seq<Seq<char>>) -> Seq<(Seq<char>, SpecSymbol)>
    decreases names.len(),
{
    if names.len() == 0 {
        Seq::empty()
    } else {
        spec_disjunct_steps(symbols, left, right, names.drop_last()) + match spec_disjunct_step(
            symbols,
            left,
            right,
            names.last(),
        ) {
            Some(step) => seq![step],
            None => Seq::empty(),
        }
    }
}

/// The names of a sequence of narrowings.
pub open spec fn step_names(steps: Seq<(Seq<char>, SpecSymbol)>) -> Seq<Seq<char>> {
    steps.map_values(|s: (Seq<char>, SpecSymbol)| s.0)
}

fn add_unique(names: &mut Vec<String>, more: &Vec<String>)
    ensures
        view_names(final(names)@) == spec_add_unique(view_names(old(names)@), view_names(more@)),
{
    let ghost start = view_names(names@);
    let ghost vm = view_names(more@);
    let mut i: usize = 0;
    assert(vm.take(0) =~= Seq::<Seq<char>>::empty());
    while i < more.len()
        invariant
            0 <= i <= more.len(),
            vm == view_names(more@),
            view_names(names@) == spec_add_unique(start, vm.take(i as int)),
        decreases more.len() - i,
    {
        proof {
            assert(vm.take(i + 1).drop_last() =~= vm.take(i as int));
            assert(vm.take(i + 1).last() == more@[i as int]@);
        }
        let ghost before = names@;
        crate::guard_bindings::push_unique(names, more[i].clone());
        assert(crate::aliases::view_strings(before) =~= view_names(before));
        assert(crate::aliases::view_strings(names@) =~= view_names(names@));
        i = i + 1;
    }
    assert(vm.take(more.len() as int) =~= vm);
}

/// What merging the tables two branches reach yields: each name either
/// narrowed is bound, over `symbols`, to the union of its two narrowings (see
/// [`spec_disjunct_step`]); `None` when that changes no name.
pub open spec fn spec_disjunct_result(r: Option<SymbolTable>, symbols: SymbolTable, left: SymbolTable, right: SymbolTable) -> bool {
    let steps = spec_disjunct_steps(symbols, left, right, spec_disjunct_names(left, right));
    if steps.len() == 0 {
        r is None
    } else {
        r matches Some(t) && view_entries(t.entries@) == view_entries(symbols.entries@) + steps
            && view_names(t.narrowed@) == view_names(symbols.narrowed@) + step_names(steps)
    }
}

/// Merges the tables two branches of an `||` reach (see
/// [`spec_disjunct_result`]).
pub fn union_disjunct_narrowings(symbols: &SymbolTable, left: &SymbolTable, right: &SymbolTable) -> (r: Option<SymbolTable>)
    ensures
        spec_disjunct_result(r, *symbols, *left, *right),
{
    let mut names: Vec<String> = Vec::new();
    assert(view_names(names@) =~= Seq::<Seq<char>>::empty());
    add_unique(&mut names, &left.narrowed);
    add_unique(&mut names, &right.narrowed);
    let ghost all = view_names(names@);
    let mut merged = symbols.copy();
    let mut changed = false;
    let mut i: usize = 0;
    assert(all.take(0) =~= Seq::<Seq<char>>::empty());
    assert(view_entries(merged.entries@) =~= view_entries(symbols.entries@) + Seq::<(Seq<char>, SpecSymbol)>::empty());
    assert(view_names(merged.narrowed@) =~= view_names(symbols.narrowed@) + step_names(Seq::<(Seq<char>, SpecSymbol)>::empty()));
    while i < names.len()
        invariant
            0 <= i <= names.len(),
            all == view_names(names@),
            all == spec_disjunct_names(*left, *right),
            ({
                let steps = spec_disjunct_steps(*symbols, *left, *right, all.take(i as int));
                &&& view_entries(merged.entries@) == view_entries(symbols.entries@) + steps
                &&& view_names(merged.narrowed@) == view_names(symbols.narrowed@) + step_names(steps)
                &&& changed == (steps.len() > 0)
            }),
        decreases names.len() - i,
    {
        let ghost prefix = all.take(i as int);
        let ghost steps = spec_disjunct_steps(*symbols, *left, *right, prefix);
        proof {
            assert(all.take(i + 1).drop_last() =~= prefix);
            assert(all.take(i + 1).last() == names@[i as int]@);
        }
        let name = names[i].as_str();
        let declared = symbols.get(name);
        let l = left.get(name);
        let r = right.get(name);
        if let (Some(declared), Some(l), Some(r)) = (declared, l, r) {
            let mut pair: Vec<Type> = Vec::new();
            pair.push(copy_type(&l.ty));
            pair.push(copy_type(&r.ty));
            proof {
                crate::types::lemma_view_types(pair@);
                assert(crate::types::view_types(pair@) =~= seq![l.ty@, r.ty@]);
            }
            let narrowed = union_of(pair);
            if !type_eq(&narrowed, &declared.ty) {
                let info = SymbolInfo {
                    ty: narrowed,
                    kind: declared.kind,
                    function_signature: copy_symbol(declared).function_signature,
                };
                let ghost step = (names@[i as int]@, info@);
                let ghost before_entries = view_entries(merged.entries@);
                let ghost before_names = view_names(merged.narrowed@);
                merged.insert_narrowed(names[i].clone(), info);
                proof {
                    assert(steps + seq![step] =~= steps.push(step));
                    assert(step_names(steps.push(step)) =~= step_names(steps).push(step.0));
                    assert(view_entries(symbols.entries@) + steps.push(step) =~= (view_entries(
                        symbols.entries@,
                    ) + steps).push(step));
                    assert(view_names(symbols.narrowed@) + step_names(steps).push(step.0) =~= (
                    view_names(symbols.narrowed@) + step_names(steps)).push(step.0));
                }
                changed = true;
            } else {
                proof {
                    assert(steps + Seq::<(Seq<char>, SpecSymbol)>::empty() =~= steps);
                }
            }
        } else {
            proof {
                assert(steps + Seq::<(Seq<char>, SpecSymbol)>::empty() =~= steps);
            }
        }
        i = i + 1;
    }
    assert(all.take(names.len() as int) =~= all);
    if changed {
        Some(merged)
    } else {
        None
    }
}

} // verus!
