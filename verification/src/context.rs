//! What the checker knows about the file it is checking: the options in
//! force, the file's kind and name, and the declarations its lookups consult.

use vstd::prelude::*;
use crate::syntax::TextSpan;

verus! {

/// How a file takes part in the program.
#[derive(PartialEq, Eq, Structural, Clone, Copy, Debug)]
pub enum FileKind {
    /// A source file of the program itself.
    RootSource,
    /// An ambient declaration file (`.d.ts`).
    Declaration,
    /// A file read from a dependency.
    Dependency,
}

/// The factory names JSX compiles to, as configured: `jsxFactory`,
/// `reactNamespace` and `jsxFragmentFactory`. A factory is an entity name
/// (`h`, `preact.h`); its `_root` is the identifier it starts with, when it
/// has one.
pub struct JsxFactoryNames {
    pub factory: Option<String>,
    pub factory_root: Option<String>,
    pub react_namespace: Option<String>,
    pub fragment_factory_root: Option<String>,
}

/// The file's own `@jsx` and `@jsxFrag` pragmas.
pub struct JsxFactoryUses {
    pub factory_pragma: Option<String>,
    pub fragment_pragma: Option<String>,
    /// Where the file's first JSX tag starts, when it has one.
    pub first_tag: Option<TextSpan>,
}

/// The compiler options the checks read.
pub struct CheckerOptions {
    pub no_unused_parameters: bool,
    pub no_unused_locals: bool,
    pub no_implicit_any: bool,
    pub jsx_automatic_runtime: bool,
    /// `jsx: react`: tags compile to calls of the classic factory.
    pub jsx_classic_react: bool,
    /// No `jsx` option is set at all.
    pub jsx_emit_none: bool,
    /// External modules are stubbed rather than resolved.
    pub stub_external_modules: bool,
    pub jsx_factory_names: JsxFactoryNames,
}

/// How a file's implicit JSX runtime import resolved.
pub enum JsxImplicitImport {
    /// The runtime module's exports (by table), when they hold a `JSX`
    /// namespace.
    Resolved(Option<u64>),
    /// Nothing answers the specifier.
    NotFound(String),
    /// The specifier names a file with no declarations.
    Untyped,
}

/// The modules JSX namespaces are read from that no lexical scope exposes:
/// each file's implicit runtime import, and each UMD global's module exports
/// (by table) when they hold a `JSX` namespace.
pub struct JsxNamespaceModules {
    pub implicit_imports: Vec<(String, JsxImplicitImport)>,
    pub umd_globals: Vec<(String, Option<u64>)>,
}

/// Where a file's JSX looks up `IntrinsicElements`, `Element` and the other
/// `JSX` members.
pub enum JsxNamespace {
    /// The members resolve as `<prefix>.<member>` from the file's own scope.
    Qualified(String),
    /// The members resolve as `<prefix>.<member>` among a module's exports.
    Declared { exports: u64, prefix: String },
    /// The namespace resolves to members this checker cannot see.
    Unmodelled,
    /// No JSX namespace at all.
    Missing,
}

/// The mathematical value of a [`JsxNamespace`].
pub enum SpecJsxNamespace {
    Qualified(Seq<char>),
    Declared { exports: u64, prefix: Seq<char> },
    Unmodelled,
    Missing,
}

impl View for JsxNamespace {
    type V = SpecJsxNamespace;

    open spec fn view(&self) -> SpecJsxNamespace {
        match self {
            JsxNamespace::Qualified(p) => SpecJsxNamespace::Qualified(p@),
            JsxNamespace::Declared { exports, prefix } => SpecJsxNamespace::Declared {
                exports: *exports,
                prefix: prefix@,
            },
            JsxNamespace::Unmodelled => SpecJsxNamespace::Unmodelled,
            JsxNamespace::Missing => SpecJsxNamespace::Missing,
        }
    }
}

/// A copy of a namespace with the same view.
pub fn copy_jsx_namespace(n: &JsxNamespace) -> (r: JsxNamespace)
    ensures
        r@ == n@,
{
    match n {
        JsxNamespace::Qualified(p) => JsxNamespace::Qualified(p.clone()),
        JsxNamespace::Declared { exports, prefix } => JsxNamespace::Declared {
            exports: *exports,
            prefix: prefix.clone(),
        },
        JsxNamespace::Unmodelled => JsxNamespace::Unmodelled,
        JsxNamespace::Missing => JsxNamespace::Missing,
    }
}

/// The checker's state for the file being checked.
pub struct CheckerContext {
    pub options: CheckerOptions,
    pub current_file_kind: FileKind,
    pub file_name: String,
    /// The JSX namespace resolved for a file, by file name.
    pub jsx_namespace: Option<(String, JsxNamespace)>,
    pub jsx_namespace_modules: JsxNamespaceModules,
    pub jsx_factory_uses: JsxFactoryUses,
    /// The namespace blocks registered, by qualified name.
    pub namespaces: Vec<String>,
    /// The namespaces declared in the global scope.
    pub global_namespaces: Vec<String>,
    /// The keys of the file's own type declarations.
    pub type_declarations: Vec<String>,
    /// The layers of the type declaration scope the file's lookups consult
    /// (none outside any scope).
    pub type_declaration_scope: Vec<Vec<String>>,
    /// The keys of the ambient global type declarations.
    pub ambient_global_type_declarations: Vec<String>,
    /// The UMD globals this file may only reference as namespaces.
    pub umd_global_value_names: Vec<String>,
    /// The names the ambient global declarations bind as values.
    pub ambient_global_symbols: Vec<String>,
    /// How many JSX elements with unmodelled props enclose the point checked.
    pub unmodelled_jsx_props_depth: usize,
    /// How many degraded expected types enclose the point checked.
    pub degraded_expected_type_depth: usize,
    /// The file's fragment factory has been resolved once already.
    pub jsx_fragment_factory_resolved: bool,
}

/// The characters of each string.
pub open spec fn view_keys(v: Seq<String>) -> Seq<Seq<char>> {
    v.map_values(|s: String| s@)
}

/// Whether `name` is one of `keys`.
pub open spec fn spec_has_key(keys: Seq<String>, name: Seq<char>) -> bool {
    exists|i: int| 0 <= i < keys.len() && #[trigger] keys[i]@ == name
}

/// See [`spec_has_key`].
pub fn has_key(keys: &Vec<String>, name: &str) -> (r: bool)
    ensures
        r == spec_has_key(keys@, name@),
{
    let target = crate::text::chars_of(name);
    let mut i: usize = 0;
    while i < keys.len()
        invariant
            0 <= i <= keys.len(),
            target@ == name@,
            forall|j: int| 0 <= j < i ==> #[trigger] keys@[j]@ != name@,
        decreases keys.len() - i,
    {
        let k = crate::text::chars_of(keys[i].as_str());
        if crate::text::chars_eq(&k, &target) {
            assert(keys@[i as int]@ == name@);
            return true;
        }
        i = i + 1;
    }
    false
}

/// The entry keyed `name` in an association list: the first one.
pub open spec fn spec_entry_index<V>(entries: Seq<(String, V)>, name: Seq<char>) -> Option<int>
    decreases entries.len(),
{
    if entries.len() == 0 {
        None
    } else if entries[0].0@ == name {
        Some(0)
    } else {
        match spec_entry_index(entries.drop_first(), name) {
            Some(i) => Some(i + 1),
            None => None,
        }
    }
}

proof fn lemma_entry_index_step<V>(entries: Seq<(String, V)>, name: Seq<char>, i: int)
    requires
        0 <= i < entries.len(),
        forall|j: int| 0 <= j < i ==> #[trigger] entries[j].0@ != name,
    ensures
        entries[i].0@ == name ==> spec_entry_index(entries, name) == Some(i),
        spec_entry_index(entries, name) == match spec_entry_index(entries.skip(i), name) {
            Some(k) => Some(k + i),
            None => None,
        },
    decreases i,
{
    if i > 0 {
        let d = entries.drop_first();
        assert(d.skip(i - 1) =~= entries.skip(i));
        assert forall|j: int| 0 <= j < i - 1 implies #[trigger] d[j].0@ != name by {
            assert(d[j] == entries[j + 1]);
        }
        lemma_entry_index_step(d, name, i - 1);
    } else {
        assert(entries.skip(0) =~= entries);
    }
}

/// The index of the entry keyed `name` (see [`spec_entry_index`]).
pub fn entry_index<V>(entries: &Vec<(String, V)>, name: &str) -> (r: Option<usize>)
    ensures
        match r {
            Some(i) => spec_entry_index(entries@, name@) == Some(i as int) && i < entries@.len(),
            None => spec_entry_index(entries@, name@) is None,
        },
{
    let target = crate::text::chars_of(name);
    let mut i: usize = 0;
    while i < entries.len()
        invariant
            0 <= i <= entries.len(),
            target@ == name@,
            forall|j: int| 0 <= j < i ==> #[trigger] entries@[j].0@ != name@,
        decreases entries.len() - i,
    {
        let k = crate::text::chars_of(entries[i].0.as_str());
        if crate::text::chars_eq(&k, &target) {
            proof {
                lemma_entry_index_step(entries@, name@, i as int);
            }
            return Some(i);
        }
        i = i + 1;
    }
    proof {
        lemma_entry_index_absent(entries@, name@);
    }
    None
}

proof fn lemma_entry_index_absent<V>(entries: Seq<(String, V)>, name: Seq<char>)
    requires
        forall|j: int| 0 <= j < entries.len() ==> #[trigger] entries[j].0@ != name,
    ensures
        spec_entry_index(entries, name) is None,
    decreases entries.len(),
{
    if entries.len() > 0 {
        let d = entries.drop_first();
        assert forall|j: int| 0 <= j < d.len() implies #[trigger] d[j].0@ != name by {
            assert(d[j] == entries[j + 1]);
        }
        lemma_entry_index_absent(d, name);
    }
}

} // verus!
