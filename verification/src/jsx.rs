//! Where a file's JSX reads its `JSX` namespace, and the names JSX attributes
//! go by.

use vstd::prelude::*;
use crate::context::{
    copy_jsx_namespace, entry_index, has_key, spec_entry_index, spec_has_key, CheckerContext,
    JsxImplicitImport, JsxNamespace, SpecJsxNamespace,
};
use crate::ops::{span_or, spec_span_or};
use crate::syntax::TextSpan;
use crate::text::{chars_contain, chars_of};
use crate::types::{peeled, Type};

verus! {

/// `React`, the factory namespace when nothing names another.
pub open spec fn react_name() -> Seq<char> {
    seq!['R', 'e', 'a', 'c', 't']
}

/// `JSX`, the namespace's own name.
pub open spec fn jsx_name() -> Seq<char> {
    seq!['J', 'S', 'X']
}

fn react_string() -> (r: String)
    ensures
        r@ == react_name(),
{
    let r = String::from_str("React");
    proof {
        reveal_strlit("React");
    }
    r
}

fn jsx_string() -> (r: String)
    ensures
        r@ == jsx_name(),
{
    let r = String::from_str("JSX");
    proof {
        reveal_strlit("JSX");
    }
    r
}

/// The option view of a name, with an empty name read as none.
pub open spec fn spec_nonempty(o: Option<String>) -> Option<Seq<char>> {
    match o {
        Some(s) => if s@.len() > 0 {
            Some(s@)
        } else {
            None
        },
        None => None,
    }
}

/// The option view of a name.
pub open spec fn spec_name(o: Option<String>) -> Option<Seq<char>> {
    match o {
        Some(s) => Some(s@),
        None => None,
    }
}

/// The namespace an element factory lives in when no pragma names one: the
/// root of `jsxFactory` when it is set (`React` when it has none), else
/// `reactNamespace`, else `React`.
pub open spec fn spec_default_factory_namespace(ctx: CheckerContext) -> Seq<char> {
    let names = ctx.options.jsx_factory_names;
    match spec_nonempty(names.factory) {
        Some(_) => match spec_name(names.factory_root) {
            Some(root) => root,
            None => react_name(),
        },
        None => match spec_nonempty(names.react_namespace) {
            Some(n) => n,
            None => react_name(),
        },
    }
}

/// The root of the factory a tag compiles to: the file's `@jsx` pragma, else
/// the default namespace. A fragment compiles to the fragment factory, so it
/// reads `@jsxFrag`, else the root of `jsxFragmentFactory`, else the default
/// namespace (never the `@jsx` pragma).
pub open spec fn spec_jsx_factory_namespace_name(fragment: bool, ctx: CheckerContext) -> Seq<char> {
    if fragment {
        match spec_name(ctx.jsx_factory_uses.fragment_pragma) {
            Some(p) => p,
            None => match spec_name(ctx.options.jsx_factory_names.fragment_factory_root) {
                Some(root) => root,
                None => spec_default_factory_namespace(ctx),
            },
        }
    } else {
        match spec_name(ctx.jsx_factory_uses.factory_pragma) {
            Some(p) => p,
            None => spec_default_factory_namespace(ctx),
        }
    }
}

fn default_factory_namespace(ctx: &CheckerContext) -> (r: String)
    ensures
        r@ == spec_default_factory_namespace(*ctx),
{
    let names = &ctx.options.jsx_factory_names;
    let factory_set = match &names.factory {
        Some(f) => f.as_str().unicode_len() > 0,
        None => false,
    };
    if factory_set {
        match &names.factory_root {
            Some(root) => root.clone(),
            None => react_string(),
        }
    } else {
        match &names.react_namespace {
            Some(n) => if n.as_str().unicode_len() > 0 {
                n.clone()
            } else {
                react_string()
            },
            None => react_string(),
        }
    }
}

/// See [`spec_jsx_factory_namespace_name`].
pub fn jsx_factory_namespace_name(fragment: bool, ctx: &CheckerContext) -> (r: String)
    ensures
        r@ == spec_jsx_factory_namespace_name(fragment, *ctx),
{
    if fragment {
        match &ctx.jsx_factory_uses.fragment_pragma {
            Some(p) => p.clone(),
            None => match &ctx.options.jsx_factory_names.fragment_factory_root {
                Some(root) => root.clone(),
                None => default_factory_namespace(ctx),
            },
        }
    } else {
        match &ctx.jsx_factory_uses.factory_pragma {
            Some(p) => p.clone(),
            None => default_factory_namespace(ctx),
        }
    }
}

/// The `i`th of the member names the `JSX` namespace is read for; one of
/// them resolving is the cheap proof that a namespace exists.
pub open spec fn spec_jsx_member_name(i: int) -> Seq<char> {
    if i == 0 {
        "IntrinsicElements"@
    } else if i == 1 {
        "Element"@
    } else if i == 2 {
        "ElementClass"@
    } else if i == 3 {
        "ElementAttributesProperty"@
    } else if i == 4 {
        "ElementChildrenAttribute"@
    } else if i == 5 {
        "IntrinsicAttributes"@
    } else if i == 6 {
        "IntrinsicClassAttributes"@
    } else if i == 7 {
        "LibraryManagedAttributes"@
    } else {
        "ElementType"@
    }
}

/// How many member names [`spec_jsx_member_name`] lists.
pub const JSX_MEMBER_COUNT: usize = 9;

fn jsx_member_name(i: usize) -> (r: &'static str)
    requires
        i < JSX_MEMBER_COUNT,
    ensures
        r@ == spec_jsx_member_name(i as int),
{
    if i == 0 {
        "IntrinsicElements"
    } else if i == 1 {
        "Element"
    } else if i == 2 {
        "ElementClass"
    } else if i == 3 {
        "ElementAttributesProperty"
    } else if i == 4 {
        "ElementChildrenAttribute"
    } else if i == 5 {
        "IntrinsicAttributes"
    } else if i == 6 {
        "IntrinsicClassAttributes"
    } else if i == 7 {
        "LibraryManagedAttributes"
    } else {
        "ElementType"
    }
}

/// `prefix.member`.
pub open spec fn dotted(prefix: Seq<char>, member: Seq<char>) -> Seq<char> {
    prefix + seq!['.'] + member
}

fn dotted_string(prefix: &str, member: &str) -> (r: String)
    ensures
        r@ == dotted(prefix@, member@),
{
    let mut s = String::from_str(prefix);
    s.append(".");
    proof {
        reveal_strlit(".");
    }
    s.append(member);
    s
}

/// Whether a type named `name` is declared where the file's type lookups
/// look: its own declarations, a layer of its declaration scope, or the
/// ambient globals.
pub open spec fn spec_declares_type(ctx: CheckerContext, name: Seq<char>) -> bool {
    ||| spec_has_key(ctx.type_declarations@, name)
    ||| spec_layers_declare(ctx.type_declaration_scope@, name)
    ||| spec_has_key(ctx.ambient_global_type_declarations@, name)
}

/// Whether a layer of the declaration scope declares `name`.
pub open spec fn spec_layers_declare(layers: Seq<Vec<String>>, name: Seq<char>) -> bool {
    exists|i: int| 0 <= i < layers.len() && #[trigger] spec_has_key(layers[i]@, name)
}

/// Whether a layer of the declaration scope declares something beneath
/// `name`.
pub open spec fn spec_layers_head(layers: Seq<Vec<String>>, name: Seq<char>) -> bool {
    exists|i: int| 0 <= i < layers.len() && #[trigger] spec_some_key_heads(layers[i]@, name)
}

fn declares_type(ctx: &CheckerContext, name: &str) -> (r: bool)
    ensures
        r == spec_declares_type(*ctx, name@),
{
    if has_key(&ctx.type_declarations, name) {
        return true;
    }
    let layers = &ctx.type_declaration_scope;
    let mut i: usize = 0;
    while i < layers.len()
        invariant
            0 <= i <= layers.len(),
            forall|j: int| 0 <= j < i ==> !#[trigger] spec_has_key(layers@[j]@, name@),
            layers@ == ctx.type_declaration_scope@,
        decreases layers.len() - i,
    {
        if has_key(&layers[i], name) {
            return true;
        }
        i = i + 1;
    }
    has_key(&ctx.ambient_global_type_declarations, name)
}

/// Whether `key` names something beneath the namespace `name`: it reads
/// `name` followed by a `.`.
pub open spec fn spec_heads(key: Seq<char>, name: Seq<char>) -> bool {
    key.len() > name.len() && key.take(name.len() as int) == name && key[name.len() as int] == '.'
}

/// Whether some key of `keys` names something beneath `name`.
pub open spec fn spec_some_key_heads(keys: Seq<String>, name: Seq<char>) -> bool {
    exists|i: int| 0 <= i < keys.len() && spec_heads(#[trigger] keys[i]@, name)
}

fn heads(key: &str, name: &Vec<char>) -> (r: bool)
    ensures
        r == spec_heads(key@, name@),
{
    let k = chars_of(key);
    if k.len() <= name.len() {
        return false;
    }
    let mut i: usize = 0;
    while i < name.len()
        invariant
            0 <= i <= name.len() < k.len(),
            k@ == key@,
            forall|j: int| 0 <= j < i ==> k@[j] == name@[j],
        decreases name.len() - i,
    {
        if k[i] != name[i] {
            assert(k@.take(name.len() as int)[i as int] != name@[i as int]);
            return false;
        }
        i = i + 1;
    }
    assert(k@.take(name.len() as int) =~= name@);
    k[name.len()] == '.'
}

fn some_key_heads(keys: &Vec<String>, name: &Vec<char>) -> (r: bool)
    ensures
        r == spec_some_key_heads(keys@, name@),
{
    let mut i: usize = 0;
    while i < keys.len()
        invariant
            0 <= i <= keys.len(),
            forall|j: int| 0 <= j < i ==> !spec_heads(#[trigger] keys@[j]@, name@),
        decreases keys.len() - i,
    {
        if heads(keys[i].as_str(), name) {
            return true;
        }
        i = i + 1;
    }
    false
}

/// Whether `name` resolves as a namespace from the current file: a
/// namespace block registered under it, a `JSX` member declared beneath it,
/// or any type declared beneath it in a table the file's lookups consult.
pub open spec fn spec_namespace_is_visible(name: Seq<char>, ctx: CheckerContext) -> bool {
    ||| spec_has_key(ctx.namespaces@, name)
    ||| exists|i: int| 0 <= i < JSX_MEMBER_COUNT && #[trigger] spec_declares_type(
        ctx,
        dotted(name, spec_jsx_member_name(i)),
    )
    ||| spec_some_key_heads(ctx.type_declarations@, name)
    ||| spec_layers_head(ctx.type_declaration_scope@, name)
    ||| spec_some_key_heads(ctx.ambient_global_type_declarations@, name)
}

/// See [`spec_namespace_is_visible`].
pub fn namespace_is_visible(name: &str, ctx: &CheckerContext) -> (r: bool)
    ensures
        r == spec_namespace_is_visible(name@, *ctx),
{
    if has_key(&ctx.namespaces, name) {
        return true;
    }
    let mut m: usize = 0;
    while m < JSX_MEMBER_COUNT
        invariant
            0 <= m <= JSX_MEMBER_COUNT,
            forall|j: int| 0 <= j < m ==> !#[trigger] spec_declares_type(
                *ctx,
                dotted(name@, spec_jsx_member_name(j)),
            ),
        decreases JSX_MEMBER_COUNT - m,
    {
        let qualified = dotted_string(name, jsx_member_name(m));
        if declares_type(ctx, qualified.as_str()) {
            return true;
        }
        m = m + 1;
    }
    let name_chars = chars_of(name);
    if some_key_heads(&ctx.type_declarations, &name_chars) {
        return true;
    }
    let layers = &ctx.type_declaration_scope;
    let mut i: usize = 0;
    while i < layers.len()
        invariant
            0 <= i <= layers.len(),
            name_chars@ == name@,
            forall|j: int| 0 <= j < i ==> !#[trigger] spec_some_key_heads(layers@[j]@, name@),
            layers@ == ctx.type_declaration_scope@,
        decreases layers.len() - i,
    {
        if some_key_heads(&layers[i], &name_chars) {
            return true;
        }
        i = i + 1;
    }
    some_key_heads(&ctx.ambient_global_type_declarations, &name_chars)
}

/// The global `JSX` namespace exists: a global namespace named `JSX`, or an
/// ambient global declaration of one of its members. A `JSX` a module
/// declares for itself never counts.
pub open spec fn spec_global_jsx_namespace_exists(ctx: CheckerContext) -> bool {
    ||| spec_has_key(ctx.global_namespaces@, jsx_name())
    ||| exists|i: int| 0 <= i < JSX_MEMBER_COUNT && #[trigger] spec_has_key(
        ctx.ambient_global_type_declarations@,
        dotted(jsx_name(), spec_jsx_member_name(i)),
    )
}

/// See [`spec_global_jsx_namespace_exists`].
pub fn global_jsx_namespace_exists(ctx: &CheckerContext) -> (r: bool)
    ensures
        r == spec_global_jsx_namespace_exists(*ctx),
{
    let jsx = jsx_string();
    if has_key(&ctx.global_namespaces, jsx.as_str()) {
        return true;
    }
    let mut m: usize = 0;
    while m < JSX_MEMBER_COUNT
        invariant
            0 <= m <= JSX_MEMBER_COUNT,
            jsx@ == jsx_name(),
            forall|j: int| 0 <= j < m ==> !#[trigger] spec_has_key(
                ctx.ambient_global_type_declarations@,
                dotted(jsx_name(), spec_jsx_member_name(j)),
            ),
        decreases JSX_MEMBER_COUNT - m,
    {
        let qualified = dotted_string(jsx.as_str(), jsx_member_name(m));
        if has_key(&ctx.ambient_global_type_declarations, qualified.as_str()) {
            return true;
        }
        m = m + 1;
    }
    false
}

/// The global fallback: the global `JSX` when it exists, else none.
pub open spec fn spec_global_jsx_namespace(ctx: CheckerContext) -> SpecJsxNamespace {
    if spec_global_jsx_namespace_exists(ctx) {
        SpecJsxNamespace::Qualified(jsx_name())
    } else {
        SpecJsxNamespace::Missing
    }
}

/// See [`spec_global_jsx_namespace`].
pub fn global_jsx_namespace(ctx: &CheckerContext) -> (r: JsxNamespace)
    ensures
        r@ == spec_global_jsx_namespace(*ctx),
{
    if global_jsx_namespace_exists(ctx) {
        JsxNamespace::Qualified(jsx_string())
    } else {
        JsxNamespace::Missing
    }
}

/// The `JSX` namespace among a module's exports.
pub open spec fn spec_exported_jsx_namespace(exports: u64) -> SpecJsxNamespace {
    SpecJsxNamespace::Declared { exports, prefix: jsx_name() }
}

/// See [`spec_exported_jsx_namespace`].
pub fn exported_jsx_namespace(exports: u64) -> (r: JsxNamespace)
    ensures
        r@ == spec_exported_jsx_namespace(exports),
{
    JsxNamespace::Declared { exports, prefix: jsx_string() }
}

/// The namespace a file's JSX reads: the implicitly imported runtime's `JSX`
/// when the file has one (the global one when the runtime declares none);
/// else `<factory>.JSX` when that resolves as a namespace; else, for a
/// factory that is a UMD global, the `JSX` its module exports (the global
/// one when it exports none, and an unmodelled one when its module is
/// unknown); else the global `JSX`.
pub open spec fn spec_resolve_jsx_namespace(ctx: CheckerContext) -> SpecJsxNamespace {
    let imports = ctx.jsx_namespace_modules.implicit_imports@;
    let resolved = match spec_entry_index(imports, ctx.file_name@) {
        Some(i) => match imports[i].1 {
            JsxImplicitImport::Resolved(Some(exports)) => Some(spec_exported_jsx_namespace(exports)),
            JsxImplicitImport::Resolved(None) => Some(spec_global_jsx_namespace(ctx)),
            _ => None,
        },
        None => None,
    };
    match resolved {
        Some(n) => n,
        None => {
            let factory = spec_jsx_factory_namespace_name(false, ctx);
            let qualified = dotted(factory, jsx_name());
            if spec_namespace_is_visible(qualified, ctx) {
                SpecJsxNamespace::Qualified(qualified)
            } else if spec_has_key(ctx.umd_global_value_names@, factory) {
                let umd = ctx.jsx_namespace_modules.umd_globals@;
                match spec_entry_index(umd, factory) {
                    Some(i) => match umd[i].1 {
                        Some(exports) => spec_exported_jsx_namespace(exports),
                        None => spec_global_jsx_namespace(ctx),
                    },
                    None => SpecJsxNamespace::Unmodelled,
                }
            } else {
                spec_global_jsx_namespace(ctx)
            }
        },
    }
}

/// See [`spec_resolve_jsx_namespace`].
pub fn resolve_jsx_namespace(ctx: &CheckerContext) -> (r: JsxNamespace)
    ensures
        r@ == spec_resolve_jsx_namespace(*ctx),
{
    let imports = &ctx.jsx_namespace_modules.implicit_imports;
    match entry_index(imports, ctx.file_name.as_str()) {
        Some(i) => match &imports[i].1 {
            JsxImplicitImport::Resolved(Some(exports)) => {
                return exported_jsx_namespace(*exports);
            },
            JsxImplicitImport::Resolved(None) => {
                return global_jsx_namespace(ctx);
            },
            _ => {},
        },
        None => {},
    }
    let factory = jsx_factory_namespace_name(false, ctx);
    let jsx = jsx_string();
    let qualified = dotted_string(factory.as_str(), jsx.as_str());
    if namespace_is_visible(qualified.as_str(), ctx) {
        return JsxNamespace::Qualified(qualified);
    }
    if has_key(&ctx.umd_global_value_names, factory.as_str()) {
        let umd = &ctx.jsx_namespace_modules.umd_globals;
        return match entry_index(umd, factory.as_str()) {
            Some(i) => match umd[i].1 {
                Some(exports) => exported_jsx_namespace(exports),
                None => global_jsx_namespace(ctx),
            },
            None => JsxNamespace::Unmodelled,
        };
    }
    global_jsx_namespace(ctx)
}

/// Everything but the cached namespace is the same in both contexts.
pub open spec fn spec_same_but_cache(a: CheckerContext, b: CheckerContext) -> bool {
    &&& a.options == b.options
    &&& a.current_file_kind == b.current_file_kind
    &&& a.file_name == b.file_name
    &&& a.jsx_namespace_modules == b.jsx_namespace_modules
    &&& a.jsx_factory_uses == b.jsx_factory_uses
    &&& a.namespaces == b.namespaces
    &&& a.global_namespaces == b.global_namespaces
    &&& a.type_declarations == b.type_declarations
    &&& a.type_declaration_scope == b.type_declaration_scope
    &&& a.ambient_global_type_declarations == b.ambient_global_type_declarations
    &&& a.umd_global_value_names == b.umd_global_value_names
    &&& a.ambient_global_symbols == b.ambient_global_symbols
    &&& a.unmodelled_jsx_props_depth == b.unmodelled_jsx_props_depth
    &&& a.degraded_expected_type_depth == b.degraded_expected_type_depth
    &&& a.jsx_fragment_factory_resolved == b.jsx_fragment_factory_resolved
}

/// The namespace cached for the current file, if any.
pub open spec fn spec_cached_namespace(ctx: CheckerContext) -> Option<SpecJsxNamespace> {
    match ctx.jsx_namespace {
        Some((file, n)) => if file@ == ctx.file_name@ {
            Some(n@)
        } else {
            None
        },
        None => None,
    }
}

/// The file's JSX namespace, resolved once per file: a namespace cached for
/// this file is answered as it is; otherwise it is resolved and cached.
pub fn jsx_namespace(ctx: &mut CheckerContext) -> (r: JsxNamespace)
    ensures
        spec_same_but_cache(*final(ctx), *old(ctx)),
        match spec_cached_namespace(*old(ctx)) {
            Some(n) => r@ == n && final(ctx).jsx_namespace == old(ctx).jsx_namespace,
            None => r@ == spec_resolve_jsx_namespace(*old(ctx)),
        },
        spec_cached_namespace(*final(ctx)) == Some(r@),
{
    let cached = match &ctx.jsx_namespace {
        Some((file, n)) => {
            let a = chars_of(file.as_str());
            let b = chars_of(ctx.file_name.as_str());
            if crate::text::chars_eq(&a, &b) {
                Some(copy_jsx_namespace(n))
            } else {
                None
            }
        },
        None => None,
    };
    match cached {
        Some(n) => n,
        None => {
            let namespace = resolve_jsx_namespace(ctx);
            ctx.jsx_namespace = Some((ctx.file_name.clone(), copy_jsx_namespace(&namespace)));
            namespace
        },
    }
}

/// A member of the JSX namespace as its lookup found it.
pub enum JsxMember {
    /// The member's declared type.
    Found(Type),
    /// The namespace does not declare the member.
    Missing,
    /// The namespace's members cannot be seen.
    Unmodelled,
}

/// What `ElementAttributesProperty` or `ElementChildrenAttribute` names.
pub enum ContainerMember {
    /// The namespace does not declare the interface, or it declares several
    /// members.
    Missing,
    /// It declares no member.
    Empty,
    Name(String),
    /// Its members cannot be enumerated.
    Unmodelled,
}

/// The mathematical value of a [`ContainerMember`].
pub enum SpecContainerMember {
    Missing,
    Empty,
    Name(Seq<char>),
    Unmodelled,
}

impl View for ContainerMember {
    type V = SpecContainerMember;

    open spec fn view(&self) -> SpecContainerMember {
        match self {
            ContainerMember::Missing => SpecContainerMember::Missing,
            ContainerMember::Empty => SpecContainerMember::Empty,
            ContainerMember::Name(n) => SpecContainerMember::Name(n@),
            ContainerMember::Unmodelled => SpecContainerMember::Unmodelled,
        }
    }
}

/// The one member an attributes-container interface declares: it must be an
/// object shape whose members can all be seen; no member is `Empty`, one is
/// its name, several are `Missing`.
pub open spec fn spec_jsx_attributes_container_member(declared: JsxMember) -> SpecContainerMember {
    match declared {
        JsxMember::Found(t) => match crate::types::spec_peel(t@) {
            crate::types::SpecType::Object(o) => if o.synthetic_open_index {
                SpecContainerMember::Unmodelled
            } else if o.properties.len() == 0 {
                SpecContainerMember::Empty
            } else if o.properties.len() == 1 {
                SpecContainerMember::Name(o.properties[0].name)
            } else {
                SpecContainerMember::Missing
            },
            _ => SpecContainerMember::Unmodelled,
        },
        JsxMember::Missing => SpecContainerMember::Missing,
        JsxMember::Unmodelled => SpecContainerMember::Unmodelled,
    }
}

/// See [`spec_jsx_attributes_container_member`]; `declared` is what the
/// namespace lookup found for the interface.
pub fn jsx_attributes_container_member(declared: &JsxMember) -> (r: ContainerMember)
    ensures
        r@ == spec_jsx_attributes_container_member(*declared),
{
    match declared {
        JsxMember::Found(t) => {
            let p = peeled(t);
            match p {
            Type::Object(o) => {
                proof {
                    crate::types::lemma_view_properties(o.properties@);
                    assert(p@ == crate::types::SpecType::Object(
                        crate::types::view_object(*o),
                    ));
                }
                if o.synthetic_open_index {
                    ContainerMember::Unmodelled
                } else if o.properties.len() == 0 {
                    ContainerMember::Empty
                } else if o.properties.len() == 1 {
                    ContainerMember::Name(o.properties[0].name.clone())
                } else {
                    ContainerMember::Missing
                }
            },
            _ => ContainerMember::Unmodelled,
            }
        },
        JsxMember::Missing => ContainerMember::Missing,
        JsxMember::Unmodelled => ContainerMember::Unmodelled,
    }
}

/// The property an element's body goes in as an attribute.
pub enum ChildrenPropertyName {
    Name(String),
    /// No `ElementChildrenAttribute`, or one with several members.
    Missing,
    /// `ElementChildrenAttribute` declares no member.
    Empty,
    Unmodelled,
}

/// The mathematical value of a [`ChildrenPropertyName`].
pub enum SpecChildrenPropertyName {
    Name(Seq<char>),
    Missing,
    Empty,
    Unmodelled,
}

impl View for ChildrenPropertyName {
    type V = SpecChildrenPropertyName;

    open spec fn view(&self) -> SpecChildrenPropertyName {
        match self {
            ChildrenPropertyName::Name(n) => SpecChildrenPropertyName::Name(n@),
            ChildrenPropertyName::Missing => SpecChildrenPropertyName::Missing,
            ChildrenPropertyName::Empty => SpecChildrenPropertyName::Empty,
            ChildrenPropertyName::Unmodelled => SpecChildrenPropertyName::Unmodelled,
        }
    }
}

/// `children`.
pub open spec fn children_name() -> Seq<char> {
    seq!['c', 'h', 'i', 'l', 'd', 'r', 'e', 'n']
}

/// The children property: `children` under the automatic runtime, else what
/// the namespace's `ElementChildrenAttribute` declares.
pub open spec fn spec_jsx_children_property_name(ctx: CheckerContext, element_children_attribute: JsxMember) -> SpecChildrenPropertyName {
    if ctx.options.jsx_automatic_runtime {
        SpecChildrenPropertyName::Name(children_name())
    } else {
        match spec_jsx_attributes_container_member(element_children_attribute) {
            SpecContainerMember::Name(n) => SpecChildrenPropertyName::Name(n),
            SpecContainerMember::Missing => SpecChildrenPropertyName::Missing,
            SpecContainerMember::Empty => SpecChildrenPropertyName::Empty,
            SpecContainerMember::Unmodelled => SpecChildrenPropertyName::Unmodelled,
        }
    }
}

/// See [`spec_jsx_children_property_name`]; `element_children_attribute` is
/// what the namespace lookup found for `ElementChildrenAttribute`.
pub fn jsx_children_property_name(ctx: &CheckerContext, element_children_attribute: &JsxMember) -> (r: ChildrenPropertyName)
    ensures
        r@ == spec_jsx_children_property_name(*ctx, *element_children_attribute),
{
    if ctx.options.jsx_automatic_runtime {
        let name = String::from_str("children");
        proof {
            reveal_strlit("children");
            assert(name@ =~= children_name());
        }
        return ChildrenPropertyName::Name(name);
    }
    match jsx_attributes_container_member(element_children_attribute) {
        ContainerMember::Name(name) => ChildrenPropertyName::Name(name),
        ContainerMember::Missing => ChildrenPropertyName::Missing,
        ContainerMember::Empty => ChildrenPropertyName::Empty,
        ContainerMember::Unmodelled => ChildrenPropertyName::Unmodelled,
    }
}

/// `data-*` and `aria-*` style attribute names: they hold a `-`.
pub open spec fn spec_is_hyphenated_jsx_name(name: Seq<char>) -> bool {
    name.contains('-')
}

/// See [`spec_is_hyphenated_jsx_name`].
pub fn is_hyphenated_jsx_name(name: &str) -> (r: bool)
    ensures
        r == spec_is_hyphenated_jsx_name(name@),
{
    let chars = chars_of(name);
    chars_contain(&chars, '-')
}


/// Which message a factory namespace that nothing answers is reported with.
#[derive(PartialEq, Eq, Structural, Clone, Copy, Debug)]
pub enum FactoryMessage {
    /// The namespace of the element (or fragment) factory (TS2874).
    ElementFactory,
    /// The fragment factory, resolved again once per file (TS2879).
    FragmentFactory,
}

/// A value reference a JSX tag makes implicitly: `name` has to resolve as a
/// value, or it is reported with `message` at `span`.
#[derive(Debug, PartialEq, Eq)]
pub struct FactoryReference {
    pub name: String,
    pub span: Option<TextSpan>,
    pub message: FactoryMessage,
}

/// The names and messages of a sequence of factory references.
pub open spec fn view_factory_references(s: Seq<FactoryReference>) -> Seq<(Seq<char>, FactoryMessage)> {
    s.map_values(|f: FactoryReference| (f.name@, f.message))
}

/// Whether the file's implicit runtime import resolved.
pub open spec fn spec_runtime_import_resolved(ctx: CheckerContext) -> bool {
    let imports = ctx.jsx_namespace_modules.implicit_imports@;
    match spec_entry_index(imports, ctx.file_name@) {
        Some(i) => imports[i].1 is Resolved,
        None => false,
    }
}

/// Whether tags reference their factory as a value: under `jsx: react`,
/// unless the file's runtime import resolves.
pub open spec fn spec_references_jsx_factory(ctx: CheckerContext) -> bool {
    ctx.options.jsx_classic_react && !spec_runtime_import_resolved(ctx)
}

/// The factory namespace a tag references, and whether it is the `null`
/// that `jsxFragmentFactory: "null"` names, which is no binding.
pub open spec fn spec_names_no_binding(fragment: bool, ctx: CheckerContext) -> bool {
    fragment && spec_jsx_factory_namespace_name(fragment, ctx) == "null"@
}

/// The references a tag makes, in order: its factory namespace (unless it is
/// a fragment's `null`); for a fragment, that namespace again with the
/// fragment message the first time in the file; and for a fragment, the
/// element factory's namespace too when it is another name.
pub open spec fn spec_factory_references(fragment: bool, ctx: CheckerContext) -> Seq<(Seq<char>, FactoryMessage)> {
    let namespace = spec_jsx_factory_namespace_name(fragment, ctx);
    let own = if spec_names_no_binding(fragment, ctx) {
        Seq::empty()
    } else if fragment && !ctx.jsx_fragment_factory_resolved {
        seq![(namespace, FactoryMessage::ElementFactory), (namespace, FactoryMessage::FragmentFactory)]
    } else {
        seq![(namespace, FactoryMessage::ElementFactory)]
    };
    let element = spec_jsx_factory_namespace_name(false, ctx);
    if fragment && element != namespace {
        own.push((element, FactoryMessage::ElementFactory))
    } else {
        own
    }
}

fn push_reference(refs: &mut Vec<FactoryReference>, name: String, span: Option<TextSpan>, message: FactoryMessage)
    ensures
        view_factory_references(final(refs)@) == view_factory_references(old(refs)@).push((name@, message)),
        final(refs)@.len() == old(refs)@.len() + 1,
        forall|i: int| 0 <= i < old(refs)@.len() ==> #[trigger] final(refs)@[i] == old(refs)@[i],
        final(refs)@[old(refs)@.len() as int].span == span,
{
    let ghost before = refs@;
    refs.push(FactoryReference { name, span, message });
    assert(view_factory_references(refs@) =~= view_factory_references(before).push((name@, message)));
}

/// The factory references a JSX tag makes (see [`spec_factory_references`]),
/// each at the tag's location (else the fallback span); none unless tags
/// reference their factory (see [`spec_references_jsx_factory`]). A fragment
/// that references its factory marks the file's fragment factory resolved.
/// The caller resolves each name as a value and reports those nothing answers.
pub fn check_jsx_factory_reference(
    fragment: bool,
    location_span: Option<TextSpan>,
    fallback_span: Option<TextSpan>,
    ctx: &mut CheckerContext,
) -> (r: Vec<FactoryReference>)
    ensures
        spec_references_jsx_factory(*old(ctx)) ==> {
            &&& view_factory_references(r@) == spec_factory_references(fragment, *old(ctx))
            &&& forall|i: int| 0 <= i < r@.len() ==> #[trigger] r@[i].span == spec_span_or(location_span, fallback_span)
            &&& *final(ctx) == (CheckerContext {
                jsx_fragment_factory_resolved: old(ctx).jsx_fragment_factory_resolved || (fragment
                    && !spec_names_no_binding(fragment, *old(ctx))),
                ..*old(ctx)
            })
        },
        !spec_references_jsx_factory(*old(ctx)) ==> r@.len() == 0 && *final(ctx) == *old(ctx),
{
    let mut refs: Vec<FactoryReference> = Vec::new();
    assert(view_factory_references(refs@) =~= Seq::<(Seq<char>, FactoryMessage)>::empty());
    if !ctx.options.jsx_classic_react {
        return refs;
    }
    let imports = &ctx.jsx_namespace_modules.implicit_imports;
    match entry_index(imports, ctx.file_name.as_str()) {
        Some(i) => match &imports[i].1 {
            JsxImplicitImport::Resolved(_) => {
                return refs;
            },
            _ => {},
        },
        None => {},
    }
    let span = span_or(location_span, fallback_span);
    let namespace = jsx_factory_namespace_name(fragment, ctx);
    let namespace_chars = chars_of(namespace.as_str());
    let no_binding = fragment && crate::text::chars_are(&namespace_chars, "null");
    let ghost old_ctx = *ctx;
    if !no_binding {
        push_reference(&mut refs, namespace.clone(), span, FactoryMessage::ElementFactory);
        if fragment && !ctx.jsx_fragment_factory_resolved {
            ctx.jsx_fragment_factory_resolved = true;
            push_reference(&mut refs, namespace.clone(), span, FactoryMessage::FragmentFactory);
        } else if fragment {
            ctx.jsx_fragment_factory_resolved = true;
        }
    }
    assert(spec_jsx_factory_namespace_name(false, *ctx) == spec_jsx_factory_namespace_name(false, old_ctx));
    if fragment {
        let element = jsx_factory_namespace_name(false, ctx);
        let element_chars = chars_of(element.as_str());
        if !crate::text::chars_eq(&element_chars, &namespace_chars) {
            push_reference(&mut refs, element, span, FactoryMessage::ElementFactory);
        }
    }
    refs
}

/// A problem a JSX tag reports about the file's setup.
#[derive(Debug, PartialEq, Eq)]
#[allow(inconsistent_fields)]
pub enum JsxReport {
    /// JSX cannot be used without a `jsx` option (TS17004).
    MissingJsxOption { span: Option<TextSpan> },
    /// Nothing answers the file's implicit runtime import (TS2875), reported
    /// at the file's first tag.
    RuntimeImportNotFound { specifier: String, span: TextSpan },
}

/// The mathematical value of a [`JsxReport`].
#[allow(inconsistent_fields)]
pub enum SpecJsxReport {
    MissingJsxOption { span: Option<TextSpan> },
    RuntimeImportNotFound { specifier: Seq<char>, span: TextSpan },
}

impl View for JsxReport {
    type V = SpecJsxReport;

    open spec fn view(&self) -> SpecJsxReport {
        match self {
            JsxReport::MissingJsxOption { span } => SpecJsxReport::MissingJsxOption { span: *span },
            JsxReport::RuntimeImportNotFound { specifier, span } => SpecJsxReport::RuntimeImportNotFound {
                specifier: specifier@,
                span: *span,
            },
        }
    }
}

/// With no `jsx` option at all, every opening element, self-closing element
/// and opening fragment is reported at its `<` (else the fallback span).
pub fn check_jsx_preconditions(span: Option<TextSpan>, fallback_span: Option<TextSpan>, ctx: &CheckerContext) -> (r: Option<JsxReport>)
    ensures
        ctx.options.jsx_emit_none ==> (r matches Some(report) && report@ == (SpecJsxReport::MissingJsxOption {
            span: spec_span_or(span, fallback_span),
        })),
        !ctx.options.jsx_emit_none ==> r is None,
{
    if !ctx.options.jsx_emit_none {
        return None;
    }
    Some(JsxReport::MissingJsxOption { span: span_or(span, fallback_span) })
}

/// The specifier of the file's implicit runtime import, when nothing answers it.
pub open spec fn spec_unresolved_runtime_import(ctx: CheckerContext) -> Option<Seq<char>> {
    let imports = ctx.jsx_namespace_modules.implicit_imports@;
    match spec_entry_index(imports, ctx.file_name@) {
        Some(i) => match imports[i].1 {
            JsxImplicitImport::NotFound(specifier) => Some(specifier@),
            _ => None,
        },
        None => None,
    }
}

/// A runtime import nothing answers is reported once per file, at its first
/// tag: when the file has a tag and its import is unresolved, unless external
/// modules are stubbed and `specifier_is_external` (whether the module
/// resolver reads the specifier as an external module) holds.
pub fn check_jsx_runtime_import(ctx: &CheckerContext, specifier_is_external: bool) -> (r: Option<JsxReport>)
    ensures
        match (ctx.jsx_factory_uses.first_tag, spec_unresolved_runtime_import(*ctx)) {
            (Some(tag), Some(specifier)) => if ctx.options.stub_external_modules && specifier_is_external {
                r is None
            } else {
                r matches Some(report) && report@ == (SpecJsxReport::RuntimeImportNotFound { specifier, span: tag })
            },
            _ => r is None,
        },
{
    let first_tag = match ctx.jsx_factory_uses.first_tag {
        Some(t) => t,
        None => return None,
    };
    let imports = &ctx.jsx_namespace_modules.implicit_imports;
    let specifier = match entry_index(imports, ctx.file_name.as_str()) {
        Some(i) => match &imports[i].1 {
            JsxImplicitImport::NotFound(specifier) => specifier,
            _ => return None,
        },
        None => return None,
    };
    if ctx.options.stub_external_modules && specifier_is_external {
        return None;
    }
    Some(JsxReport::RuntimeImportNotFound { specifier: specifier.clone(), span: first_tag })
}

} // verus!
