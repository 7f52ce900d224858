//! Aliased conditions: testing a `const` whose initializer is a condition
//! narrows by that condition, inlined at most five levels deep and only for
//! the references whose value cannot change in between.

use vstd::prelude::*;
use crate::guards::arrayness::{
    parse_array_isarray_condition, parse_arraybuffer_isview_condition, spec_static_call_argument,
};
use crate::guards::discriminant::{parse_discriminant_condition_with, spec_parse_discriminant_condition};
use crate::guards::instanceof::{parse_instanceof_condition, spec_parse_instanceof_condition};
use crate::guards::nullish::{parse_nullish_equality_condition, spec_parse_nullish_equality_condition};
use crate::guards::property_presence::{parse_in_condition, spec_parse_in_condition};
use crate::narrowing::{
    parse_typeof_condition, spec_parse_typeof_condition, spec_strip_boolean_literal_comparison,
    strip_boolean_literal_comparison, Side,
};
use crate::symbols::{spec_get, SymbolKind, SymbolTable};
use crate::syntax::{equality_polarity, spec_equality_polarity, Expr, LogicalOperator, UnaryOperator};
use crate::text::{chars_eq, chars_of};
use crate::types::{
    copy_type, find_property, lemma_peel_height, lemma_seq_height, lemma_view_properties,
    lemma_view_types, lemma_view_types_push, peeled, seq_height, spec_find_property, spec_peel,
    spec_union, type_height, union_of, view_property, view_type, view_types, SpecType, Type,
};

verus! {

/// An alias is inlined only while fewer than this many inlined aliases
/// enclose it.
pub const ALIAS_INLINE_LIMIT: usize = 5;

/// How many inlined aliases enclose the condition being narrowed.
pub struct AliasLevel {
    pub level: usize,
}

impl AliasLevel {
    /// No alias inlined yet.
    pub fn new() -> (r: AliasLevel)
        ensures
            r.level == 0,
    {
        AliasLevel { level: 0 }
    }
}

/// One level of inlining held while an alias's initializer is narrowed;
/// `depth` is the level it holds.
pub struct AliasInlining {
    pub depth: usize,
}

/// Enters one more level of alias inlining, or `None` at the limit.
pub fn enter_alias_inlining(level: &mut AliasLevel) -> (r: Option<AliasInlining>)
    ensures
        old(level).level < ALIAS_INLINE_LIMIT ==> (r matches Some(t) && final(level).level
            == old(level).level + 1 && t.depth == final(level).level),
        old(level).level >= ALIAS_INLINE_LIMIT ==> r is None && final(level).level == old(
            level,
        ).level,
{
    if level.level < ALIAS_INLINE_LIMIT {
        level.level = level.level + 1;
        Some(AliasInlining { depth: level.level })
    } else {
        None
    }
}

/// Gives back the level `inlining` held: the innermost one is released first.
pub fn leave_alias_inlining(level: &mut AliasLevel, inlining: AliasInlining)
    requires
        old(level).level == inlining.depth,
        inlining.depth > 0,
    ensures
        final(level).level == old(level).level - 1,
{
    level.level = level.level - 1;
}

/// Inlining never goes past the limit: from any level at or under it, entering
/// stays at or under it.
pub proof fn lemma_inlining_bounded(before: int, after: int, entered: bool)
    requires
        0 <= before <= ALIAS_INLINE_LIMIT,
        entered <==> before < ALIAS_INLINE_LIMIT,
        entered ==> after == before + 1,
        !entered ==> after == before,
    ensures
        0 <= after <= ALIAS_INLINE_LIMIT,
{
}

/// `this` as a binding name.
pub open spec fn this_name() -> Seq<char> {
    seq!['t', 'h', 'i', 's']
}

/// The characters of each string.
pub open spec fn view_strings(v: Seq<String>) -> Seq<Seq<char>> {
    v.map_values(|s: String| s@)
}

/// The binding a reference reads and the properties read off it, in order:
/// `a.b?.c!` is `a` with `[b, c]`, `this` is its own binding.
pub open spec fn spec_reference_path(e: Expr) -> Option<(Seq<char>, Seq<Seq<char>>)>
    decreases e,
{
    match e {
        Expr::Identifier(name) => Some((name@, Seq::empty())),
        Expr::This => Some((this_name(), Seq::empty())),
        Expr::PropertyAccess { object, property_name } => match spec_reference_path(*object) {
            Some((base, path)) => Some((base, path.push(property_name@))),
            None => None,
        },
        Expr::OptionalPropertyAccess { object, property_name } => match spec_reference_path(
            *object,
        ) {
            Some((base, path)) => Some((base, path.push(property_name@))),
            None => None,
        },
        Expr::NonNullAssertion(inner) => spec_reference_path(*inner),
        _ => None,
    }
}

pub(crate) fn this_string() -> (r: String)
    ensures
        r@ == this_name(),
{
    let r = String::from_str("this");
    proof {
        reveal_strlit("this");
    }
    r
}

/// See [`spec_reference_path`].
pub fn reference_path(e: &Expr) -> (r: Option<(String, Vec<String>)>)
    ensures
        match r {
            Some((base, path)) => spec_reference_path(*e) == Some(
                (base@, view_strings(path@)),
            ),
            None => spec_reference_path(*e) is None,
        },
    decreases e,
{
    match e {
        Expr::Identifier(name) => {
            let v: Vec<String> = Vec::new();
            assert(view_strings(v@) =~= Seq::<Seq<char>>::empty());
            Some((name.clone(), v))
        },
        Expr::This => {
            let v: Vec<String> = Vec::new();
            assert(view_strings(v@) =~= Seq::<Seq<char>>::empty());
            Some((this_string(), v))
        },
        Expr::PropertyAccess { object, property_name } | Expr::OptionalPropertyAccess {
            object,
            property_name,
        } => match reference_path(object) {
            Some((base, path)) => {
                let mut path = path;
                let ghost before = path@;
                path.push(property_name.clone());
                assert(view_strings(path@) =~= view_strings(before).push(property_name@));
                Some((base, path))
            },
            None => None,
        },
        Expr::NonNullAssertion(inner) => reference_path(inner),
        _ => None,
    }
}

/// A reference a guard narrows: a binding, the properties read off it, and
/// whether an element access (`obj[0]`) ends it.
pub struct NarrowedReference {
    pub base: String,
    pub path: Vec<String>,
    pub element: bool,
}

/// The mathematical value of a [`NarrowedReference`].
pub struct SpecNarrowedReference {
    pub base: Seq<char>,
    pub path: Seq<Seq<char>>,
    pub element: bool,
}

impl View for NarrowedReference {
    type V = SpecNarrowedReference;

    open spec fn view(&self) -> SpecNarrowedReference {
        SpecNarrowedReference {
            base: self.base@,
            path: view_strings(self.path@),
            element: self.element,
        }
    }
}

/// The reference an expression narrows, if it is one: `name[i]` and
/// `reference[i]` end in an element, anything else is a plain reference path.
pub open spec fn spec_narrowed_reference_of(e: Expr) -> Option<SpecNarrowedReference> {
    match e {
        Expr::IndexAccess { object_name, .. } => Some(
            SpecNarrowedReference { base: object_name@, path: Seq::empty(), element: true },
        ),
        Expr::ElementAccess { object, .. } => match spec_reference_path(*object) {
            Some((base, path)) => Some(SpecNarrowedReference { base, path, element: true }),
            None => None,
        },
        _ => match spec_reference_path(e) {
            Some((base, path)) => Some(SpecNarrowedReference { base, path, element: false }),
            None => None,
        },
    }
}

/// The reference the object of `r`'s last read is: the element access
/// dropped, else the last property (a bare binding stays itself).
pub open spec fn spec_reference_object(r: SpecNarrowedReference) -> SpecNarrowedReference {
    if r.element {
        SpecNarrowedReference { element: false, ..r }
    } else if r.path.len() == 0 {
        r
    } else {
        SpecNarrowedReference { path: r.path.drop_last(), ..r }
    }
}

/// The option view of a narrowed reference.
pub open spec fn opt_reference_view(o: Option<NarrowedReference>) -> Option<SpecNarrowedReference> {
    match o {
        Some(r) => Some(r@),
        None => None,
    }
}

impl NarrowedReference {
    /// See [`spec_narrowed_reference_of`].
    pub fn of(e: &Expr) -> (r: Option<NarrowedReference>)
        ensures
            opt_reference_view(r) == spec_narrowed_reference_of(*e),
    {
        match e {
            Expr::IndexAccess { object_name, .. } => {
                let v: Vec<String> = Vec::new();
                assert(view_strings(v@) =~= Seq::<Seq<char>>::empty());
                Some(NarrowedReference { base: object_name.clone(), path: v, element: true })
            },
            Expr::ElementAccess { object, .. } => match reference_path(object) {
                Some((base, path)) => Some(NarrowedReference { base, path, element: true }),
                None => None,
            },
            _ => match reference_path(e) {
                Some((base, path)) => Some(NarrowedReference { base, path, element: false }),
                None => None,
            },
        }
    }

    /// The object the reference's last property is read from (see
    /// [`spec_reference_object`]).
    pub fn object(self) -> (r: NarrowedReference)
        ensures
            r@ == spec_reference_object(self@),
    {
        let mut r = self;
        if r.element {
            r.element = false;
        } else {
            let ghost before = r.path@;
            let _ = r.path.pop();
            proof {
                if before.len() > 0 {
                    assert(view_strings(r.path@) =~= view_strings(before).drop_last());
                }
            }
        }
        r
    }
}

/// Whether the type of a `readonly` tuple reference: the reference is marked
/// `readonly` and resolves to a tuple.
pub open spec fn spec_is_readonly_tuple(t: SpecType) -> bool {
    &&& (t matches SpecType::Reference(r) && r.readonly_array)
    &&& spec_peel(t) is Tuple
}

/// A property's type and whether it is `readonly`; through a union (its
/// `undefined` and `null` members skipped) the property's type is the union of
/// the members' and it is `readonly` when some member declares it so.
pub open spec fn spec_readonly_property(ty: SpecType, name: Seq<char>) -> Option<(SpecType, bool)>
    decreases type_height(ty), 0nat, 0nat,
{
    let p = spec_peel(ty);
    proof {
        lemma_peel_height(ty);
    }
    match p {
        SpecType::Object(o) => match spec_find_property(o.properties, name) {
            Some(prop) => Some((prop.ty, prop.readonly)),
            None => None,
        },
        SpecType::Union(members) => match spec_readonly_over(members, name) {
            Some((types, readonly)) => Some((spec_union(types), readonly)),
            None => None,
        },
        _ => None,
    }
}

/// [`spec_readonly_property`] over each member of `s` that is neither
/// `undefined` nor `null`: their property types and whether any is
/// `readonly`; `None` when one lacks the property.
pub open spec fn spec_readonly_over(s: Seq<SpecType>, name: Seq<char>) -> Option<(Seq<SpecType>, bool)>
    decreases seq_height(s), 1nat, s.len(),
{
    if s.len() == 0 {
        Some((Seq::empty(), false))
    } else {
        proof {
            lemma_seq_height(s);
        }
        match spec_readonly_over(s.drop_last(), name) {
            None => None,
            Some((types, readonly)) => if s.last() is Undefined || s.last() is Null {
                Some((types, readonly))
            } else {
                match spec_readonly_property(s.last(), name) {
                    Some((t, ro)) => Some((types.push(t), readonly || ro)),
                    None => None,
                }
            },
        }
    }
}

/// The option view of a property read.
pub open spec fn opt_read_view(o: Option<(Type, bool)>) -> Option<(SpecType, bool)> {
    match o {
        Some((t, b)) => Some((t@, b)),
        None => None,
    }
}

/// See [`spec_readonly_property`].
pub fn readonly_property(ty: &Type, name: &str) -> (r: Option<(Type, bool)>)
    ensures
        opt_read_view(r) == spec_readonly_property(ty@, name@),
    decreases type_height(ty@),
{
    let p = peeled(ty);
    proof {
        lemma_peel_height(ty@);
    }
    match p {
        Type::Object(o) => {
            proof {
                lemma_view_properties(o.properties@);
                assert(p@ == SpecType::Object(crate::types::view_object(*o)));
            }
            match find_property(&o.properties, name) {
                Some(i) => {
                    proof {
                        crate::types::lemma_find_index(
                            crate::types::view_properties(o.properties@),
                            name@,
                        );
                        assert(crate::types::view_properties(o.properties@)[i as int] == view_property(o.properties@[i as int]));
                    }
                    Some((copy_type(&o.properties[i].ty), o.properties[i].readonly))
                },
                None => None,
            }
        },
        Type::Union(members) => {
            let ghost s = view_types(members@);
            proof {
                lemma_view_types(members@);
                lemma_seq_height(s);
            }
            let mut types: Vec<Type> = Vec::new();
            let mut readonly = false;
            let mut i: usize = 0;
            while i < members.len()
                invariant
                    0 <= i <= members.len(),
                    s == view_types(members@),
                    s.len() == members.len(),
                    p@ == SpecType::Union(s),
                    p@ == spec_peel(ty@),
                    type_height(spec_peel(ty@)) <= type_height(ty@),
                    forall|j: int| 0 <= j < members.len() ==> #[trigger] s[j] == view_type(
                        members@[j],
                    ),
                    forall|j: int| 0 <= j < s.len() ==> type_height(#[trigger] s[j]) <= seq_height(
                        s,
                    ),
                    spec_readonly_over(s.take(i as int), name@) == Some(
                        (view_types(types@), readonly),
                    ),
                decreases members.len() - i,
            {
                let m = &members[i];
                proof {
                    assert(s.take(i + 1).drop_last() =~= s.take(i as int));
                    assert(s.take(i + 1).last() == s[i as int]);
                    assert(type_height(m@) < type_height(ty@));
                }
                match m {
                    Type::Undefined | Type::Null => {},
                    _ => {
                        match readonly_property(m, name) {
                            Some((t, ro)) => {
                                proof {
                                    lemma_view_types_push(types@, t);
                                }
                                types.push(t);
                                readonly = readonly || ro;
                            },
                            None => {
                                proof {
                                    lemma_readonly_over_none(s, name@, i as int);
                                }
                                return None;
                            },
                        }
                    },
                }
                i = i + 1;
            }
            assert(s.take(members.len() as int) =~= s);
            Some((union_of(types), readonly))
        },
        _ => None,
    }
}

/// A member lacking the property makes every longer prefix lack it too.
proof fn lemma_readonly_over_none(s: Seq<SpecType>, name: Seq<char>, i: int)
    requires
        0 <= i < s.len(),
        spec_readonly_over(s.take(i + 1), name) is None,
    ensures
        spec_readonly_over(s, name) is None,
    decreases s.len(),
{
    if s.len() > i + 1 {
        assert(s.drop_last().take(i + 1) =~= s.take(i + 1));
        lemma_readonly_over_none(s.drop_last(), name, i);
    } else {
        assert(s.take(i + 1) =~= s);
    }
}

/// Whether a binding of this kind, named `base`, never changes value: a
/// `const` or a `for…in` key always, a parameter or `let` when its container
/// never assigns it, anything else never.
pub open spec fn spec_kind_is_constant(kind: SymbolKind, base: Seq<char>, assigned: Seq<Seq<char>>) -> bool {
    match kind {
        SymbolKind::Const | SymbolKind::ForInNumericKey => true,
        SymbolKind::Parameter | SymbolKind::Let => !assigned.contains(base),
        SymbolKind::Var | SymbolKind::Function | SymbolKind::ErrorImport => false,
    }
}

/// The type reached from `ty` by reading `path`, when every property on the
/// way is `readonly`.
pub open spec fn spec_read_readonly_path(ty: SpecType, path: Seq<Seq<char>>) -> Option<SpecType>
    decreases path.len(),
{
    if path.len() == 0 {
        Some(ty)
    } else {
        match spec_read_readonly_path(ty, path.drop_last()) {
            Some(current) => match spec_readonly_property(current, path.last()) {
                Some((t, readonly)) => if readonly {
                    Some(t)
                } else {
                    None
                },
                None => None,
            },
            None => None,
        }
    }
}

/// A reference whose value cannot change between the alias and its use:
/// `this`, or a binding that never changes value (see
/// [`spec_kind_is_constant`]), reached through `readonly` properties only,
/// and, for an element access, a `readonly` tuple's element.
pub open spec fn spec_is_constant_reference(r: SpecNarrowedReference, table: SymbolTable, assigned: Seq<Seq<char>>) -> bool {
    let symbol = spec_get(table, r.base);
    let root_constant = r.base == this_name() || match symbol {
        Some(sym) => spec_kind_is_constant(sym.kind, r.base, assigned),
        None => false,
    };
    if !root_constant {
        false
    } else if r.path.len() == 0 && !r.element {
        true
    } else {
        match symbol {
            None => false,
            Some(sym) => match spec_read_readonly_path(sym.ty, r.path) {
                Some(t) => !r.element || spec_is_readonly_tuple(t),
                None => false,
            },
        }
    }
}

/// Whether `name` is among the names its container assigns.
pub(crate) fn is_assigned(assigned: &Vec<String>, name: &str) -> (r: bool)
    ensures
        r == view_strings(assigned@).contains(name@),
{
    let target = chars_of(name);
    let mut i: usize = 0;
    while i < assigned.len()
        invariant
            0 <= i <= assigned.len(),
            target@ == name@,
            forall|j: int| 0 <= j < i ==> #[trigger] assigned@[j]@ != name@,
        decreases assigned.len() - i,
    {
        let n = chars_of(assigned[i].as_str());
        if chars_eq(&n, &target) {
            assert(view_strings(assigned@)[i as int] == name@);
            return true;
        }
        i = i + 1;
    }
    assert forall|j: int| 0 <= j < view_strings(assigned@).len() implies view_strings(assigned@)[j]
        != name@ by {
        assert(view_strings(assigned@)[j] == assigned@[j]@);
    }
    false
}

/// Whether a type is a `readonly` tuple reference (see
/// [`spec_is_readonly_tuple`]).
fn is_readonly_tuple(t: &Type) -> (r: bool)
    ensures
        r == spec_is_readonly_tuple(t@),
{
    match t {
        Type::Reference(reference) => {
            proof {
                assert(t@ == SpecType::Reference(crate::types::view_reference(*reference)));
            }
            reference.readonly_array && matches!(peeled(t), Type::Tuple(_))
        },
        _ => false,
    }
}

/// See [`spec_is_constant_reference`]; `assigned` lists the names the
/// reference's container assigns.
pub fn is_constant_reference(reference: &NarrowedReference, symbols: &SymbolTable, assigned: &Vec<String>) -> (r: bool)
    ensures
        r == spec_is_constant_reference(reference@, *symbols, view_strings(assigned@)),
{
    let symbol = symbols.get(reference.base.as_str());
    let this = this_string();
    let base = chars_of(reference.base.as_str());
    let this_chars = chars_of(this.as_str());
    let root_constant = chars_eq(&base, &this_chars) || match symbol {
        Some(sym) => match sym.kind {
            SymbolKind::Const | SymbolKind::ForInNumericKey => true,
            SymbolKind::Parameter | SymbolKind::Let => !is_assigned(
                assigned,
                reference.base.as_str(),
            ),
            SymbolKind::Var | SymbolKind::Function | SymbolKind::ErrorImport => false,
        },
        None => false,
    };
    if !root_constant {
        return false;
    }
    if reference.path.len() == 0 && !reference.element {
        return true;
    }
    let sym = match symbol {
        Some(sym) => sym,
        None => {
            return false;
        },
    };
    let ghost path = reference@.path;
    let ghost verdict = match spec_read_readonly_path(sym.ty@, path) {
        Some(t) => !reference.element || spec_is_readonly_tuple(t),
        None => false,
    };
    assert(spec_is_constant_reference(reference@, *symbols, view_strings(assigned@)) == verdict);
    let mut current = copy_type(&sym.ty);
    let mut i: usize = 0;
    while i < reference.path.len()
        invariant
            0 <= i <= reference.path.len(),
            path == view_strings(reference.path@),
            path.len() == reference.path.len(),
            spec_read_readonly_path(sym.ty@, path.take(i as int)) == Some(current@),
            spec_is_constant_reference(reference@, *symbols, view_strings(assigned@)) == verdict,
            verdict == match spec_read_readonly_path(sym.ty@, path) {
                Some(t) => !reference.element || spec_is_readonly_tuple(t),
                None => false,
            },
        decreases reference.path.len() - i,
    {
        proof {
            assert(path.take(i + 1).drop_last() =~= path.take(i as int));
            assert(path.take(i + 1).last() == reference.path@[i as int]@);
        }
        match readonly_property(&current, reference.path[i].as_str()) {
            Some((t, readonly)) => {
                if !readonly {
                    proof {
                        lemma_read_path_none(sym.ty@, path, i + 1);
                    }
                    return false;
                }
                current = t;
            },
            None => {
                proof {
                    lemma_read_path_none(sym.ty@, path, i + 1);
                }
                return false;
            },
        }
        i = i + 1;
    }
    assert(path.take(reference.path.len() as int) =~= path);
    !reference.element || is_readonly_tuple(&current)
}

/// A prefix that cannot be read makes the whole path unreadable.
proof fn lemma_read_path_none(ty: SpecType, path: Seq<Seq<char>>, k: int)
    requires
        0 <= k <= path.len(),
        spec_read_readonly_path(ty, path.take(k)) is None,
    ensures
        spec_read_readonly_path(ty, path) is None,
    decreases path.len(),
{
    if path.len() > k {
        assert(path.drop_last().take(k) =~= path.take(k));
        lemma_read_path_none(ty, path.drop_last(), k);
    } else {
        assert(path.take(k) =~= path);
    }
}

/// The references an expression narrows, as a sequence of at most one.
pub open spec fn spec_single_reference(e: Expr) -> Seq<SpecNarrowedReference> {
    match spec_narrowed_reference_of(e) {
        Some(r) => seq![r],
        None => Seq::empty(),
    }
}

/// The references among `args`, in order.
pub open spec fn spec_argument_references(args: Seq<Expr>) -> Seq<SpecNarrowedReference>
    decreases args.len(),
{
    if args.len() == 0 {
        Seq::empty()
    } else {
        spec_argument_references(args.drop_last()) + spec_single_reference(args.last())
    }
}

/// The references a guard that is none of the parsed kinds narrows: a
/// predicate call its arguments, a method predicate called with none its
/// receiver, and a truthiness test on a property the object it is read from.
pub open spec fn spec_call_references(guard: Expr) -> Seq<SpecNarrowedReference> {
    match guard {
        Expr::Call { arguments, .. } => spec_argument_references(arguments@),
        Expr::PropertyCall { object, arguments, .. } => {
            let refs = spec_argument_references(arguments@);
            if refs.len() == 0 {
                spec_single_reference(*object)
            } else {
                refs
            }
        },
        _ => match spec_narrowed_reference_of(guard) {
            Some(r) => seq![spec_reference_object(r)],
            None => Seq::empty(),
        },
    }
}

/// Both operands of an equality, when the guard is one.
pub open spec fn spec_equality_references(guard: Expr) -> Option<Seq<SpecNarrowedReference>> {
    match guard {
        Expr::Binary { left, operator, right } => if spec_equality_polarity(operator) is Some {
            Some(spec_single_reference(*left) + spec_single_reference(*right))
        } else {
            None
        },
        _ => None,
    }
}

/// The references a single guard narrows: the tested operand of `typeof`,
/// `instanceof`, `in`, `Array.isArray`, `ArrayBuffer.isView` and a nullish
/// comparison, the object a discriminant test filters, both operands of any
/// other equality, and else what [`spec_call_references`] gives, the first
/// reading that applies deciding.
pub open spec fn spec_narrowed_references(guard: Expr, table: SymbolTable) -> Seq<SpecNarrowedReference> {
    match spec_parse_typeof_condition(guard) {
        Some((operand, _, _)) => spec_single_reference(operand),
        None => match spec_parse_instanceof_condition(guard) {
            Some((operand, _)) => spec_single_reference(operand),
            None => match spec_parse_in_condition(guard) {
                Some((object, _)) => spec_single_reference(object),
                None => match spec_static_call_argument(guard, "Array"@, "isArray"@) {
                    Some(operand) => spec_single_reference(operand),
                    None => match spec_static_call_argument(guard, "ArrayBuffer"@, "isView"@) {
                        Some(operand) => spec_single_reference(operand),
                        None => match spec_parse_nullish_equality_condition(guard) {
                            Some((subject, _, _)) => spec_single_reference(subject),
                            None => match spec_parse_discriminant_condition(guard, table) {
                                Some((object, _, _, _)) => spec_single_reference(object),
                                None => match spec_equality_references(guard) {
                                    Some(refs) => refs,
                                    None => spec_call_references(guard),
                                },
                            },
                        },
                    },
                },
            },
        },
    }
}

/// The views of a sequence of references.
pub open spec fn view_references(s: Seq<NarrowedReference>) -> Seq<SpecNarrowedReference> {
    s.map_values(|r: NarrowedReference| r@)
}

fn single_reference(e: &Expr) -> (r: Vec<NarrowedReference>)
    ensures
        view_references(r@) == spec_single_reference(*e),
{
    let mut v: Vec<NarrowedReference> = Vec::new();
    match NarrowedReference::of(e) {
        Some(r) => {
            v.push(r);
            assert(view_references(v@) =~= spec_single_reference(*e));
        },
        None => {
            assert(view_references(v@) =~= spec_single_reference(*e));
        },
    }
    v
}

fn argument_references(args: &Vec<Expr>) -> (r: Vec<NarrowedReference>)
    ensures
        view_references(r@) == spec_argument_references(args@),
{
    let mut out: Vec<NarrowedReference> = Vec::new();
    let mut i: usize = 0;
    assert(view_references(out@) =~= spec_argument_references(args@.take(0)));
    while i < args.len()
        invariant
            0 <= i <= args.len(),
            view_references(out@) == spec_argument_references(args@.take(i as int)),
        decreases args.len() - i,
    {
        proof {
            assert(args@.take(i + 1).drop_last() =~= args@.take(i as int));
            assert(args@.take(i + 1).last() == args@[i as int]);
        }
        let ghost before = out@;
        match NarrowedReference::of(&args[i]) {
            Some(r) => {
                out.push(r);
                assert(view_references(out@) =~= view_references(before) + spec_single_reference(
                    args@[i as int],
                ));
            },
            None => {
                assert(view_references(out@) =~= view_references(before) + spec_single_reference(
                    args@[i as int],
                ));
            },
        }
        i = i + 1;
    }
    assert(args@.take(args.len() as int) =~= args@);
    out
}

fn call_references(guard: &Expr) -> (r: Vec<NarrowedReference>)
    ensures
        view_references(r@) == spec_call_references(*guard),
{
    match guard {
        Expr::Call { arguments, .. } => argument_references(arguments),
        Expr::PropertyCall { object, arguments, .. } => {
            let refs = argument_references(arguments);
            if refs.len() == 0 {
                single_reference(object)
            } else {
                refs
            }
        },
        _ => {
            let mut v: Vec<NarrowedReference> = Vec::new();
            match NarrowedReference::of(guard) {
                Some(r) => {
                    v.push(r.object());
                },
                None => {},
            }
            assert(view_references(v@) =~= spec_call_references(*guard));
            v
        },
    }
}

/// See [`spec_narrowed_references`].
pub fn narrowed_references(guard: &Expr, symbols: &SymbolTable) -> (r: Vec<NarrowedReference>)
    ensures
        view_references(r@) == spec_narrowed_references(*guard, *symbols),
{
    if let Some((operand, _, _)) = parse_typeof_condition(guard) {
        return single_reference(operand);
    }
    if let Some((operand, _)) = parse_instanceof_condition(guard) {
        return single_reference(operand);
    }
    if let Some((object, _)) = parse_in_condition(guard) {
        return single_reference(object);
    }
    if let Some(operand) = parse_array_isarray_condition(guard) {
        return single_reference(operand);
    }
    if let Some(operand) = parse_arraybuffer_isview_condition(guard) {
        return single_reference(operand);
    }
    if let Some((subject, _, _)) = parse_nullish_equality_condition(guard) {
        return single_reference(subject);
    }
    if let Some((object, _, _, _)) = parse_discriminant_condition_with(guard, symbols) {
        return single_reference(object);
    }
    if let Expr::Binary { left, operator, right } = guard {
        if equality_polarity(*operator).is_some() {
            let mut refs = single_reference(left);
            let mut rest = single_reference(right);
            let ghost a = refs@;
            let ghost b = rest@;
            refs.append(&mut rest);
            assert(view_references(refs@) =~= view_references(a) + view_references(b));
            return refs;
        }
    }
    call_references(guard)
}

/// The guard a condition compared with a boolean literal holds, else the
/// condition itself.
pub open spec fn spec_stripped_guard(condition: Expr) -> Expr {
    match spec_strip_boolean_literal_comparison(condition) {
        Some((side, _)) => match condition {
            Expr::Binary { left, right, .. } => if side == Side::Left {
                *left
            } else {
                *right
            },
            _ => condition,
        },
        None => condition,
    }
}

/// Whether a guard narrows some constant reference, or narrows no reference
/// at all (which inlining leaves as it is).
pub open spec fn spec_narrows_constant(guard: Expr, table: SymbolTable, assigned: Seq<Seq<char>>) -> bool {
    let refs = spec_narrowed_references(guard, table);
    refs.len() == 0 || exists|i: int|
        0 <= i < refs.len() && #[trigger] spec_is_constant_reference(refs[i], table, assigned)
}

/// The initializer of an aliased condition as inlining reads it: through
/// `&&`, `||` and `!`, each guard none of whose references is constant is
/// replaced by [`Expr::Unknown`], since it narrows nothing through the alias.
pub open spec fn spec_retain_constant_reference_guards(condition: Expr, table: SymbolTable, assigned: Seq<Seq<char>>) -> Expr
    decreases condition,
{
    match condition {
        Expr::Logical { left, operator, right } => if operator == LogicalOperator::And || operator
            == LogicalOperator::Or {
            Expr::Logical {
                left: Box::new(spec_retain_constant_reference_guards(*left, table, assigned)),
                operator,
                right: Box::new(spec_retain_constant_reference_guards(*right, table, assigned)),
            }
        } else {
            spec_retain_leaf(condition, table, assigned)
        },
        Expr::Unary { operator, operand } => if operator == UnaryOperator::Not {
            Expr::Unary {
                operator,
                operand: Box::new(spec_retain_constant_reference_guards(*operand, table, assigned)),
            }
        } else {
            spec_retain_leaf(condition, table, assigned)
        },
        _ => spec_retain_leaf(condition, table, assigned),
    }
}

/// A single guard kept, or dropped when it narrows no constant reference.
pub open spec fn spec_retain_leaf(condition: Expr, table: SymbolTable, assigned: Seq<Seq<char>>) -> Expr {
    if spec_narrows_constant(spec_stripped_guard(condition), table, assigned) {
        condition
    } else {
        Expr::Unknown
    }
}

fn stripped_guard(condition: &Expr) -> (r: &Expr)
    ensures
        *r == spec_stripped_guard(*condition),
{
    match strip_boolean_literal_comparison(condition) {
        Some((inner, _)) => inner,
        None => condition,
    }
}

fn narrows_constant(guard: &Expr, symbols: &SymbolTable, assigned: &Vec<String>) -> (r: bool)
    ensures
        r == spec_narrows_constant(*guard, *symbols, view_strings(assigned@)),
{
    let refs = narrowed_references(guard, symbols);
    let ghost vs = view_references(refs@);
    if refs.len() == 0 {
        return true;
    }
    let mut i: usize = 0;
    while i < refs.len()
        invariant
            0 <= i <= refs.len(),
            vs == view_references(refs@),
            vs == spec_narrowed_references(*guard, *symbols),
            forall|j: int| 0 <= j < i ==> !spec_is_constant_reference(
                #[trigger] vs[j],
                *symbols,
                view_strings(assigned@),
            ),
        decreases refs.len() - i,
    {
        if is_constant_reference(&refs[i], symbols, assigned) {
            assert(spec_is_constant_reference(vs[i as int], *symbols, view_strings(assigned@)));
            return true;
        }
        i = i + 1;
    }
    false
}

/// See [`spec_retain_constant_reference_guards`]; `assigned` lists the names
/// the alias's container assigns. Takes the condition by value and hands back
/// the retained one.
pub fn retain_constant_reference_guards(condition: Expr, symbols: &SymbolTable, assigned: &Vec<String>) -> (r: Expr)
    ensures
        r == spec_retain_constant_reference_guards(condition, *symbols, view_strings(assigned@)),
    decreases condition,
{
    let connective = match &condition {
        Expr::Logical { operator, .. } => *operator == LogicalOperator::And || *operator
            == LogicalOperator::Or,
        Expr::Unary { operator, .. } => *operator == UnaryOperator::Not,
        _ => false,
    };
    if !connective {
        let keep = narrows_constant(stripped_guard(&condition), symbols, assigned);
        return if keep {
            condition
        } else {
            Expr::Unknown
        };
    }
    match condition {
        Expr::Logical { left, operator, right } => Expr::Logical {
            left: Box::new(retain_constant_reference_guards(*left, symbols, assigned)),
            operator,
            right: Box::new(retain_constant_reference_guards(*right, symbols, assigned)),
        },
        Expr::Unary { operator, operand } => Expr::Unary {
            operator,
            operand: Box::new(retain_constant_reference_guards(*operand, symbols, assigned)),
        },
        other => other,
    }
}

} // verus!
