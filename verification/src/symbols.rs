//! Bindings in scope: a name's type, how it was declared, and the signature
//! a function declaration collected.

use vstd::prelude::*;
use crate::types::{copy_string, copy_type, SpecType, Type};

verus! {

/// How a binding was declared.
#[derive(PartialEq, Eq, Structural, Clone, Copy, Debug)]
pub enum SymbolKind {
    Const,
    Let,
    Var,
    Parameter,
    Function,
    /// The numeric key of a `for (const k in arr)` loop.
    ForInNumericKey,
    /// A binding an unresolved import introduced.
    ErrorImport,
}

/// A `param is T` (or `asserts param is T`) return annotation.
pub struct TypePredicate {
    pub asserts: bool,
    pub parameter_name: String,
    /// Whether the predicate names a type (`asserts x` names none).
    pub has_type: bool,
}

/// The mathematical value of a [`TypePredicate`].
pub struct SpecPredicate {
    pub asserts: bool,
    pub parameter_name: Seq<char>,
    pub has_type: bool,
}

impl View for TypePredicate {
    type V = SpecPredicate;

    open spec fn view(&self) -> SpecPredicate {
        SpecPredicate {
            asserts: self.asserts,
            parameter_name: self.parameter_name@,
            has_type: self.has_type,
        }
    }
}

/// The signature a function declaration collected, with what its overload
/// group carries alongside it.
pub struct FunctionSignatureInfo {
    /// The template signature of an overload group.
    pub overloaded: bool,
    pub type_parameter_count: usize,
    /// Each parameter's name, `None` for a destructuring pattern.
    pub parameter_names: Vec<Option<String>>,
    pub rest: bool,
    /// The return annotation, when it is a type predicate.
    pub predicate: Option<TypePredicate>,
    pub declaring_file: Option<String>,
    /// A later overload of the group that declares a type predicate.
    pub predicate_overload: Option<Box<FunctionSignatureInfo>>,
    /// Later overloads of the group, for re-resolution at generic calls.
    pub overload_alternatives: Vec<FunctionSignatureInfo>,
}

/// The mathematical value of a [`FunctionSignatureInfo`].
pub struct SpecSignature {
    pub overloaded: bool,
    pub type_parameter_count: nat,
    pub parameter_names: Seq<Option<Seq<char>>>,
    pub rest: bool,
    pub predicate: Option<SpecPredicate>,
    pub declaring_file: Option<Seq<char>>,
    pub predicate_overload: Option<Box<SpecSignature>>,
    pub overload_alternatives: Seq<SpecSignature>,
}

pub open spec fn view_name_option(o: Option<String>) -> Option<Seq<char>> {
    match o {
        Some(s) => Some(s@),
        None => None,
    }
}

pub open spec fn view_signature(s: FunctionSignatureInfo) -> SpecSignature
    decreases s, 0nat,
{
    SpecSignature {
        overloaded: s.overloaded,
        type_parameter_count: s.type_parameter_count as nat,
        parameter_names: s.parameter_names@.map_values(|n: Option<String>| view_name_option(n)),
        rest: s.rest,
        predicate: match s.predicate {
            Some(p) => Some(p@),
            None => None,
        },
        declaring_file: view_name_option(s.declaring_file),
        predicate_overload: match s.predicate_overload {
            Some(b) => Some(Box::new(view_signature(*b))),
            None => None,
        },
        overload_alternatives: view_signatures(s.overload_alternatives@),
    }
}

pub open spec fn view_signatures(s: Seq<FunctionSignatureInfo>) -> Seq<SpecSignature>
    decreases s, 1nat,
{
    if s.len() == 0 {
        Seq::empty()
    } else {
        view_signatures(s.drop_last()).push(view_signature(s.last()))
    }
}

impl View for FunctionSignatureInfo {
    type V = SpecSignature;

    open spec fn view(&self) -> SpecSignature {
        view_signature(*self)
    }
}

/// The view of a pushed signature sequence.
pub proof fn lemma_view_signatures_push(s: Seq<FunctionSignatureInfo>, x: FunctionSignatureInfo)
    ensures
        view_signatures(s.push(x)) == view_signatures(s).push(view_signature(x)),
{
    assert(s.push(x).drop_last() =~= s);
}

/// The view of a sequence of signatures, element by element.
pub proof fn lemma_view_signatures(s: Seq<FunctionSignatureInfo>)
    ensures
        view_signatures(s).len() == s.len(),
        forall|i: int| 0 <= i < s.len() ==> #[trigger] view_signatures(s)[i] == view_signature(s[i]),
    decreases s.len(),
{
    if s.len() > 0 {
        lemma_view_signatures(s.drop_last());
    }
}

fn copy_name_option(o: &Option<String>) -> (r: Option<String>)
    ensures
        view_name_option(r) == view_name_option(*o),
{
    match o {
        Some(s) => Some(copy_string(s)),
        None => None,
    }
}

fn copy_predicate(p: &TypePredicate) -> (r: TypePredicate)
    ensures
        r@ == p@,
{
    TypePredicate {
        asserts: p.asserts,
        parameter_name: copy_string(&p.parameter_name),
        has_type: p.has_type,
    }
}

/// A deep copy of a signature with the same view.
pub fn copy_signature(s: &FunctionSignatureInfo) -> (r: FunctionSignatureInfo)
    ensures
        r@ == s@,
    decreases s, 0nat,
{
    let mut names: Vec<Option<String>> = Vec::new();
    let mut i: usize = 0;
    while i < s.parameter_names.len()
        invariant
            0 <= i <= s.parameter_names.len(),
            names@.len() == i,
            forall|j: int| 0 <= j < i ==> view_name_option(#[trigger] names@[j]) == view_name_option(
                s.parameter_names@[j],
            ),
        decreases s.parameter_names.len() - i,
    {
        names.push(copy_name_option(&s.parameter_names[i]));
        i = i + 1;
    }
    let predicate = match &s.predicate {
        Some(p) => Some(copy_predicate(p)),
        None => None,
    };
    let predicate_overload = match &s.predicate_overload {
        Some(b) => Some(Box::new(copy_signature(b))),
        None => None,
    };
    let mut alternatives: Vec<FunctionSignatureInfo> = Vec::new();
    let mut k: usize = 0;
    while k < s.overload_alternatives.len()
        invariant
            0 <= k <= s.overload_alternatives.len(),
            view_signatures(alternatives@) == view_signatures(s.overload_alternatives@.take(k as int)),
        decreases s.overload_alternatives.len() - k,
    {
        proof {
            assert(decreases_to!(*s => s.overload_alternatives));
            assert(decreases_to!(s.overload_alternatives => s.overload_alternatives@));
            assert(decreases_to!(s.overload_alternatives@ => s.overload_alternatives@[k as int]));
        }
        let c = copy_signature(&s.overload_alternatives[k]);
        proof {
            lemma_view_signatures_push(alternatives@, c);
            assert(s.overload_alternatives@.take(k + 1).drop_last() =~= s.overload_alternatives@.take(
                k as int,
            ));
        }
        alternatives.push(c);
        k = k + 1;
    }
    assert(s.overload_alternatives@.take(s.overload_alternatives.len() as int)
        =~= s.overload_alternatives@);
    let r = FunctionSignatureInfo {
        overloaded: s.overloaded,
        type_parameter_count: s.type_parameter_count,
        parameter_names: names,
        rest: s.rest,
        predicate,
        declaring_file: copy_name_option(&s.declaring_file),
        predicate_overload,
        overload_alternatives: alternatives,
    };
    assert(r@.parameter_names =~= s@.parameter_names);
    r
}

/// What a name is bound to.
pub struct SymbolInfo {
    pub ty: Type,
    pub kind: SymbolKind,
    pub function_signature: Option<FunctionSignatureInfo>,
}

/// The mathematical value of a [`SymbolInfo`].
pub struct SpecSymbol {
    pub ty: SpecType,
    pub kind: SymbolKind,
    pub function_signature: Option<SpecSignature>,
}

impl View for SymbolInfo {
    type V = SpecSymbol;

    open spec fn view(&self) -> SpecSymbol {
        SpecSymbol {
            ty: self.ty@,
            kind: self.kind,
            function_signature: match self.function_signature {
                Some(s) => Some(s@),
                None => None,
            },
        }
    }
}

/// A binding of a name.
pub struct SymbolEntry {
    pub name: String,
    pub info: SymbolInfo,
}

/// The bindings visible at a point, innermost last; a name resolves to its
/// last binding. `narrowed` lists, in order, the names a guard narrowed in
/// this table.
pub struct SymbolTable {
    pub entries: Vec<SymbolEntry>,
    pub narrowed: Vec<String>,
}

/// The bindings of a table as names and symbols, in order.
pub open spec fn view_entries(entries: Seq<SymbolEntry>) -> Seq<(Seq<char>, SpecSymbol)> {
    entries.map_values(|e: SymbolEntry| (e.name@, e.info@))
}

/// The characters of each name.
pub open spec fn view_names(names: Seq<String>) -> Seq<Seq<char>> {
    names.map_values(|s: String| s@)
}

/// A table that reads as `t` with `name` bound (and recorded as narrowed) to
/// `symbol` on top.
pub open spec fn spec_narrowed_table(after: SymbolTable, before: SymbolTable, name: Seq<char>, symbol: SpecSymbol) -> bool {
    &&& view_entries(after.entries@) == view_entries(before.entries@).push((name, symbol))
    &&& view_names(after.narrowed@) == view_names(before.narrowed@).push(name)
}

/// The index of the last binding named `name`.
pub open spec fn spec_lookup_index(entries: Seq<SymbolEntry>, name: Seq<char>) -> Option<int>
    decreases entries.len(),
{
    if entries.len() == 0 {
        None
    } else if entries.last().name@ == name {
        Some(entries.len() - 1)
    } else {
        spec_lookup_index(entries.drop_last(), name)
    }
}

/// What `name` resolves to in `table`.
pub open spec fn spec_get(table: SymbolTable, name: Seq<char>) -> Option<SpecSymbol> {
    match spec_lookup_index(table.entries@, name) {
        Some(i) => Some(table.entries@[i].info@),
        None => None,
    }
}

proof fn lemma_lookup_index_bounds(entries: Seq<SymbolEntry>, name: Seq<char>)
    ensures
        spec_lookup_index(entries, name) matches Some(i) ==> 0 <= i < entries.len()
            && entries[i].name@ == name,
    decreases entries.len(),
{
    if entries.len() > 0 && entries.last().name@ != name {
        lemma_lookup_index_bounds(entries.drop_last(), name);
    }
}

impl SymbolTable {
    /// The binding `name` resolves to.
    pub fn get(&self, name: &str) -> (r: Option<&SymbolInfo>)
        ensures
            match r {
                Some(info) => spec_get(*self, name@) == Some(info@),
                None => spec_get(*self, name@) is None,
            },
    {
        let target = crate::text::chars_of(name);
        let mut i: usize = self.entries.len();
        assert(self.entries@.take(i as int) =~= self.entries@);
        while i > 0
            invariant
                i <= self.entries.len(),
                target@ == name@,
                spec_lookup_index(self.entries@, name@) == spec_lookup_index(
                    self.entries@.take(i as int),
                    name@,
                ),
            decreases i,
        {
            let n = crate::text::chars_of(self.entries[i - 1].name.as_str());
            let ghost pre = self.entries@.take(i as int);
            assert(pre.drop_last() =~= self.entries@.take(i - 1));
            if crate::text::chars_eq(&n, &target) {
                assert(spec_lookup_index(pre, name@) == Some(i - 1));
                return Some(&self.entries[i - 1].info);
            }
            i = i - 1;
        }
        None
    }
}

/// Two tables that read the same bind every name alike.
pub proof fn lemma_get_same_entries(a: SymbolTable, b: SymbolTable, name: Seq<char>)
    requires
        view_entries(a.entries@) == view_entries(b.entries@),
    ensures
        spec_get(a, name) == spec_get(b, name),
{
    lemma_lookup_same(a.entries@, b.entries@, name);
    lemma_lookup_index_bounds(a.entries@, name);
    assert(view_entries(a.entries@).len() == a.entries@.len());
    assert(view_entries(b.entries@).len() == b.entries@.len());
    match spec_lookup_index(a.entries@, name) {
        Some(i) => {
            assert(view_entries(a.entries@)[i] == view_entries(b.entries@)[i]);
            assert(view_entries(a.entries@)[i].1 == a.entries@[i].info@);
            assert(view_entries(b.entries@)[i].1 == b.entries@[i].info@);
        },
        None => {},
    }
}

proof fn lemma_lookup_same(a: Seq<SymbolEntry>, b: Seq<SymbolEntry>, name: Seq<char>)
    requires
        view_entries(a) == view_entries(b),
    ensures
        spec_lookup_index(a, name) == spec_lookup_index(b, name),
    decreases a.len(),
{
    assert(view_entries(a).len() == a.len());
    assert(view_entries(b).len() == b.len());
    if a.len() > 0 {
        assert(view_entries(a.drop_last()) =~= view_entries(a).drop_last());
        assert(view_entries(b.drop_last()) =~= view_entries(b).drop_last());
        assert(view_entries(a)[a.len() - 1] == view_entries(b)[b.len() - 1]);
        assert(view_entries(a)[a.len() - 1].0 == a.last().name@);
        assert(view_entries(b)[b.len() - 1].0 == b.last().name@);
        lemma_lookup_same(a.drop_last(), b.drop_last(), name);
    }
}

/// A table with a binding pushed on top binds its name to it and every
/// other name as before.
pub proof fn lemma_get_narrowed(after: SymbolTable, before: SymbolTable, name: Seq<char>, symbol: SpecSymbol, other: Seq<char>)
    requires
        spec_narrowed_table(after, before, name, symbol),
    ensures
        spec_get(after, other) == (if other == name {
            Some(symbol)
        } else {
            spec_get(before, other)
        }),
{
    let a = after.entries@;
    assert(view_entries(a).len() == view_entries(before.entries@).len() + 1);
    assert(view_entries(a)[a.len() - 1] == (name, symbol));
    assert forall|k: int| 0 <= k < a.len() - 1 implies view_entries(a.drop_last())[k]
        == view_entries(before.entries@)[k] by {
        assert(a.drop_last()[k] == a[k]);
        assert(view_entries(a)[k] == view_entries(before.entries@)[k]);
    }
    assert(view_entries(a.drop_last()) =~= view_entries(before.entries@));
    assert(a.last().name@ == name);
    if other != name {
        lemma_lookup_same(a.drop_last(), before.entries@, other);
        lemma_lookup_index_bounds(a.drop_last(), other);
        lemma_lookup_index_bounds(before.entries@, other);
        match spec_lookup_index(a.drop_last(), other) {
            Some(i) => {
                assert(a.drop_last()[i] == a[i]);
                assert(view_entries(a.drop_last())[i] == view_entries(before.entries@)[i]);
            },
            None => {},
        }
    }
}

fn copy_entries(v: &Vec<SymbolEntry>) -> (r: Vec<SymbolEntry>)
    ensures
        view_entries(r@) == view_entries(v@),
{
    let mut out: Vec<SymbolEntry> = Vec::new();
    let mut i: usize = 0;
    while i < v.len()
        invariant
            0 <= i <= v.len(),
            view_entries(out@) == view_entries(v@.take(i as int)),
        decreases v.len() - i,
    {
        let e = SymbolEntry { name: copy_string(&v[i].name), info: copy_symbol(&v[i].info) };
        let ghost before = out@;
        out.push(e);
        assert(view_entries(out@) =~= view_entries(before).push((v@[i as int].name@, v@[i as int].info@)));
        assert(v@.take(i + 1) =~= v@.take(i as int).push(v@[i as int]));
        assert(view_entries(v@.take(i + 1)) =~= view_entries(v@.take(i as int)).push((v@[i as int].name@, v@[i as int].info@)));
        i = i + 1;
    }
    assert(v@.take(v.len() as int) =~= v@);
    out
}

fn copy_names(v: &Vec<String>) -> (r: Vec<String>)
    ensures
        view_names(r@) == view_names(v@),
{
    let mut out: Vec<String> = Vec::new();
    let mut i: usize = 0;
    while i < v.len()
        invariant
            0 <= i <= v.len(),
            view_names(out@) == view_names(v@.take(i as int)),
        decreases v.len() - i,
    {
        let ghost before = out@;
        out.push(copy_string(&v[i]));
        assert(view_names(out@) =~= view_names(before).push(v@[i as int]@));
        assert(view_names(v@.take(i + 1)) =~= view_names(v@.take(i as int)).push(v@[i as int]@));
        i = i + 1;
    }
    assert(v@.take(v.len() as int) =~= v@);
    out
}

impl SymbolTable {
    /// A table holding the same bindings and narrowings.
    pub fn copy(&self) -> (r: SymbolTable)
        ensures
            view_entries(r.entries@) == view_entries(self.entries@),
            view_names(r.narrowed@) == view_names(self.narrowed@),
    {
        SymbolTable { entries: copy_entries(&self.entries), narrowed: copy_names(&self.narrowed) }
    }

    /// Binds `name` to `symbol` on top of the table, recording no narrowing.
    pub fn insert(&mut self, name: String, symbol: SymbolInfo)
        ensures
            view_entries(final(self).entries@) == view_entries(old(self).entries@).push((name@, symbol@)),
            final(self).narrowed@ == old(self).narrowed@,
    {
        let ghost entries = self.entries@;
        let ghost sv = symbol@;
        self.entries.push(SymbolEntry { name, info: symbol });
        assert(view_entries(self.entries@) =~= view_entries(entries).push((name@, sv)));
    }

    /// Binds `name` to the narrowed `symbol` on top of the table and records
    /// the narrowing.
    pub fn insert_narrowed(&mut self, name: String, symbol: SymbolInfo)
        ensures
            spec_narrowed_table(*final(self), *old(self), name@, symbol@),
    {
        let ghost entries = self.entries@;
        let ghost names = self.narrowed@;
        let ghost sv = symbol@;
        self.narrowed.push(copy_string(&name));
        self.entries.push(SymbolEntry { name, info: symbol });
        assert(view_entries(self.entries@) =~= view_entries(entries).push((name@, sv)));
        assert(view_names(self.narrowed@) =~= view_names(names).push(name@));
    }
}

/// A copy of a symbol with the same view.
pub fn copy_symbol(s: &SymbolInfo) -> (r: SymbolInfo)
    ensures
        r@ == s@,
{
    SymbolInfo {
        ty: copy_type(&s.ty),
        kind: s.kind,
        function_signature: match &s.function_signature {
            Some(sig) => Some(copy_signature(sig)),
            None => None,
        },
    }
}

} // verus!
