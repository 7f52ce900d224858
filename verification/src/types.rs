//! The type model the narrowing rules read: primitives, literals, arrays,
//! object shapes, unions and nominal references, with its mathematical view.

use vstd::prelude::*;

verus! {

/// The mathematical value of a [`Type`]: the same shape, with strings read as
/// character sequences and vectors as sequences.
pub enum SpecType {
    Any,
    /// A type the checker could not model (a degradation sentinel).
    Unknown,
    /// The `unknown` keyword as written.
    GenuineUnknown,
    ErrorType,
    Never,
    String,
    Number,
    Boolean,
    BigInt,
    Symbol,
    Undefined,
    Null,
    Void,
    StringLiteral(Seq<char>),
    NumberLiteral(Seq<char>),
    BooleanLiteral(bool),
    Array(Box<SpecType>),
    Tuple(Seq<SpecType>),
    Function,
    Object(SpecObject),
    Union(Seq<SpecType>),
    Reference(SpecReference),
    TypeParameter(Seq<char>),
}

/// The mathematical value of an [`ObjectType`].
pub struct SpecObject {
    pub properties: Seq<SpecProperty>,
    pub string_index: Option<Box<SpecType>>,
    pub callable: bool,
    pub alias_name: Option<Seq<char>>,
    pub synthetic_open_index: bool,
}

/// The mathematical value of an [`ObjectProperty`].
pub struct SpecProperty {
    pub name: Seq<char>,
    pub ty: SpecType,
    pub optional: bool,
    pub readonly: bool,
    pub method: bool,
}

/// The mathematical value of a [`TypeReference`].
pub struct SpecReference {
    pub id: Seq<char>,
    pub display: Seq<char>,
    pub target: Box<SpecType>,
    pub enum_owner: bool,
    pub readonly_array: bool,
}

/// A type as the checker holds it.
#[derive(PartialEq, Eq, Debug)]
pub enum Type {
    /// `any`.
    Any,
    /// A type the checker could not model.
    Unknown,
    /// The `unknown` keyword.
    GenuineUnknown,
    /// tsc's error type.
    ErrorType,
    Never,
    String,
    Number,
    Boolean,
    BigInt,
    Symbol,
    Undefined,
    Null,
    Void,
    /// A string literal type, by its value.
    StringLiteral(String),
    /// A number literal type, by its source spelling.
    NumberLiteral(String),
    BooleanLiteral(bool),
    /// `T[]`.
    Array(Box<Type>),
    /// `[A, B, ...]`.
    Tuple(Vec<Type>),
    /// A function signature type.
    Function,
    /// An object shape.
    Object(ObjectType),
    /// A union of member types.
    Union(Vec<Type>),
    /// A named (nominal) type with the structure it resolves to.
    Reference(TypeReference),
    /// A type variable, by name.
    TypeParameter(String),
}

/// An object shape: its declared properties, an optional string index
/// signature, and whether it carries a call or construct signature.
#[derive(PartialEq, Eq, Debug)]
pub struct ObjectType {
    pub properties: Vec<ObjectProperty>,
    pub string_index: Option<Box<Type>>,
    pub callable: bool,
    pub alias_name: Option<String>,
    /// The index signature stands for members the checker could not enumerate.
    pub synthetic_open_index: bool,
}

/// A declared property of an object shape.
#[derive(PartialEq, Eq, Debug)]
pub struct ObjectProperty {
    pub name: String,
    pub ty: Type,
    pub optional: bool,
    pub readonly: bool,
    pub method: bool,
}

/// A named type: `id` is `<file>\u{0}<name>`, `display` the name as written
/// (with its type arguments), `target` the structure it resolves to.
#[derive(PartialEq, Eq, Debug)]
pub struct TypeReference {
    pub id: String,
    pub display: String,
    pub target: Box<Type>,
    /// The reference names an enum member or an enum.
    pub enum_owner: bool,
    /// The reference is a `readonly` array or tuple.
    pub readonly_array: bool,
}

pub open spec fn view_type(t: Type) -> SpecType
    decreases t, 0nat,
{
    match t {
        Type::Any => SpecType::Any,
        Type::Unknown => SpecType::Unknown,
        Type::GenuineUnknown => SpecType::GenuineUnknown,
        Type::ErrorType => SpecType::ErrorType,
        Type::Never => SpecType::Never,
        Type::String => SpecType::String,
        Type::Number => SpecType::Number,
        Type::Boolean => SpecType::Boolean,
        Type::BigInt => SpecType::BigInt,
        Type::Symbol => SpecType::Symbol,
        Type::Undefined => SpecType::Undefined,
        Type::Null => SpecType::Null,
        Type::Void => SpecType::Void,
        Type::StringLiteral(s) => SpecType::StringLiteral(s@),
        Type::NumberLiteral(s) => SpecType::NumberLiteral(s@),
        Type::BooleanLiteral(b) => SpecType::BooleanLiteral(b),
        Type::Array(e) => SpecType::Array(Box::new(view_type(*e))),
        Type::Tuple(v) => SpecType::Tuple(view_types(v@)),
        Type::Function => SpecType::Function,
        Type::Object(o) => SpecType::Object(view_object(o)),
        Type::Union(v) => SpecType::Union(view_types(v@)),
        Type::Reference(r) => SpecType::Reference(view_reference(r)),
        Type::TypeParameter(n) => SpecType::TypeParameter(n@),
    }
}

pub open spec fn view_types(s: Seq<Type>) -> Seq<SpecType>
    decreases s, 1nat,
{
    if s.len() == 0 {
        Seq::empty()
    } else {
        view_types(s.drop_last()).push(view_type(s.last()))
    }
}

pub open spec fn view_object(o: ObjectType) -> SpecObject
    decreases o, 1nat,
{
    SpecObject {
        properties: view_properties(o.properties@),
        string_index: match o.string_index {
            Some(t) => Some(Box::new(view_type(*t))),
            None => None,
        },
        callable: o.callable,
        alias_name: match o.alias_name {
            Some(n) => Some(n@),
            None => None,
        },
        synthetic_open_index: o.synthetic_open_index,
    }
}

pub open spec fn view_properties(s: Seq<ObjectProperty>) -> Seq<SpecProperty>
    decreases s, 1nat,
{
    if s.len() == 0 {
        Seq::empty()
    } else {
        view_properties(s.drop_last()).push(view_property(s.last()))
    }
}

pub open spec fn view_property(p: ObjectProperty) -> SpecProperty
    decreases p, 1nat,
{
    SpecProperty {
        name: p.name@,
        ty: view_type(p.ty),
        optional: p.optional,
        readonly: p.readonly,
        method: p.method,
    }
}

pub open spec fn view_reference(r: TypeReference) -> SpecReference
    decreases r, 1nat,
{
    SpecReference {
        id: r.id@,
        display: r.display@,
        target: Box::new(view_type(*r.target)),
        enum_owner: r.enum_owner,
        readonly_array: r.readonly_array,
    }
}

impl View for Type {
    type V = SpecType;

    open spec fn view(&self) -> SpecType {
        view_type(*self)
    }
}

impl View for ObjectType {
    type V = SpecObject;

    open spec fn view(&self) -> SpecObject {
        view_object(*self)
    }
}

impl View for ObjectProperty {
    type V = SpecProperty;

    open spec fn view(&self) -> SpecProperty {
        view_property(*self)
    }
}

impl View for TypeReference {
    type V = SpecReference;

    open spec fn view(&self) -> SpecReference {
        view_reference(*self)
    }
}

/// The view of a sequence of types, element by element.
pub proof fn lemma_view_types(s: Seq<Type>)
    ensures
        view_types(s).len() == s.len(),
        forall|i: int| 0 <= i < s.len() ==> #[trigger] view_types(s)[i] == view_type(s[i]),
    decreases s.len(),
{
    if s.len() > 0 {
        lemma_view_types(s.drop_last());
    }
}

/// The view of a prefix one element longer.
pub proof fn lemma_view_types_take(s: Seq<Type>, i: int)
    requires
        0 <= i < s.len(),
    ensures
        view_types(s.take(i + 1)) == view_types(s.take(i)).push(view_type(s[i])),
{
    assert(s.take(i + 1).drop_last() =~= s.take(i));
}

/// The view of a sequence of properties, element by element.
pub proof fn lemma_view_properties(s: Seq<ObjectProperty>)
    ensures
        view_properties(s).len() == s.len(),
        forall|i: int| 0 <= i < s.len() ==> #[trigger] view_properties(s)[i] == view_property(s[i]),
    decreases s.len(),
{
    if s.len() > 0 {
        lemma_view_properties(s.drop_last());
    }
}

/// The view of a pushed sequence.
pub proof fn lemma_view_types_push(s: Seq<Type>, t: Type)
    ensures
        view_types(s.push(t)) == view_types(s).push(view_type(t)),
{
    assert(s.push(t).drop_last() =~= s);
}

/// The view of a pushed property sequence.
pub proof fn lemma_view_properties_push(s: Seq<ObjectProperty>, p: ObjectProperty)
    ensures
        view_properties(s.push(p)) == view_properties(s).push(view_property(p)),
{
    assert(s.push(p).drop_last() =~= s);
}


/// Compares two strings by their characters.
pub fn string_eq(a: &String, b: &String) -> (r: bool)
    ensures
        r == (a@ == b@),
{
    *a == *b
}

fn option_string_eq(a: &Option<String>, b: &Option<String>) -> (r: bool)
    ensures
        r == (match (a, b) {
            (Some(x), Some(y)) => x@ == y@,
            (None, None) => true,
            _ => false,
        }),
{
    match (a, b) {
        (Some(x), Some(y)) => string_eq(x, y),
        (None, None) => true,
        _ => false,
    }
}

/// Structural equality of two types, by their views.
pub fn type_eq(a: &Type, b: &Type) -> (r: bool)
    ensures
        r == (a@ == b@),
    decreases a, 0nat,
{
    match (a, b) {
        (Type::Any, Type::Any) => true,
        (Type::Unknown, Type::Unknown) => true,
        (Type::GenuineUnknown, Type::GenuineUnknown) => true,
        (Type::ErrorType, Type::ErrorType) => true,
        (Type::Never, Type::Never) => true,
        (Type::String, Type::String) => true,
        (Type::Number, Type::Number) => true,
        (Type::Boolean, Type::Boolean) => true,
        (Type::BigInt, Type::BigInt) => true,
        (Type::Symbol, Type::Symbol) => true,
        (Type::Undefined, Type::Undefined) => true,
        (Type::Null, Type::Null) => true,
        (Type::Void, Type::Void) => true,
        (Type::StringLiteral(x), Type::StringLiteral(y)) => string_eq(x, y),
        (Type::NumberLiteral(x), Type::NumberLiteral(y)) => string_eq(x, y),
        (Type::BooleanLiteral(x), Type::BooleanLiteral(y)) => *x == *y,
        (Type::Array(x), Type::Array(y)) => type_eq(x, y),
        (Type::Tuple(x), Type::Tuple(y)) => types_eq(x, y),
        (Type::Function, Type::Function) => true,
        (Type::Object(x), Type::Object(y)) => object_eq(x, y),
        (Type::Union(x), Type::Union(y)) => types_eq(x, y),
        (Type::Reference(x), Type::Reference(y)) => reference_eq(x, y),
        (Type::TypeParameter(x), Type::TypeParameter(y)) => string_eq(x, y),
        _ => false,
    }
}

/// Element-wise equality of two type vectors, by their views.
pub fn types_eq(a: &Vec<Type>, b: &Vec<Type>) -> (r: bool)
    ensures
        r == (view_types(a@) == view_types(b@)),
    decreases a, 1nat,
{
    proof {
        lemma_view_types(a@);
        lemma_view_types(b@);
    }
    if a.len() != b.len() {
        return false;
    }
    let mut i: usize = 0;
    while i < a.len()
        invariant
            a.len() == b.len(),
            0 <= i <= a.len(),
            view_types(a@).len() == a.len(),
            view_types(b@).len() == b.len(),
            forall|j: int| 0 <= j < a.len() ==> #[trigger] view_types(a@)[j] == view_type(a@[j]),
            forall|j: int| 0 <= j < b.len() ==> #[trigger] view_types(b@)[j] == view_type(b@[j]),
            forall|j: int| 0 <= j < i ==> view_types(a@)[j] == view_types(b@)[j],
        decreases a.len() - i,
    {
        proof {
            assert(decreases_to!(*a => a@));
            assert(decreases_to!(a@ => a@[i as int]));
        }
        if !type_eq(&a[i], &b[i]) {
            assert(view_types(a@)[i as int] != view_types(b@)[i as int]);
            return false;
        }
        i = i + 1;
    }
    assert(view_types(a@) =~= view_types(b@));
    true
}

fn properties_eq(a: &Vec<ObjectProperty>, b: &Vec<ObjectProperty>) -> (r: bool)
    ensures
        r == (view_properties(a@) == view_properties(b@)),
    decreases a, 1nat,
{
    proof {
        lemma_view_properties(a@);
        lemma_view_properties(b@);
    }
    if a.len() != b.len() {
        return false;
    }
    let mut i: usize = 0;
    while i < a.len()
        invariant
            a.len() == b.len(),
            0 <= i <= a.len(),
            view_properties(a@).len() == a.len(),
            view_properties(b@).len() == b.len(),
            forall|j: int|
                0 <= j < a.len() ==> #[trigger] view_properties(a@)[j] == view_property(a@[j]),
            forall|j: int|
                0 <= j < b.len() ==> #[trigger] view_properties(b@)[j] == view_property(b@[j]),
            forall|j: int| 0 <= j < i ==> view_properties(a@)[j] == view_properties(b@)[j],
        decreases a.len() - i,
    {
        let x = &a[i];
        let y = &b[i];
        proof {
            assert(decreases_to!(*a => a@));
            assert(decreases_to!(a@ => a@[i as int]));
            assert(decreases_to!(a@[i as int] => a@[i as int].ty));
        }
        let same = string_eq(&x.name, &y.name) && x.optional == y.optional && x.readonly == y.readonly
            && x.method == y.method && type_eq(&x.ty, &y.ty);
        if !same {
            assert(view_properties(a@)[i as int] != view_properties(b@)[i as int]);
            return false;
        }
        i = i + 1;
    }
    assert(view_properties(a@) =~= view_properties(b@));
    true
}

fn object_eq(a: &ObjectType, b: &ObjectType) -> (r: bool)
    ensures
        r == (a@ == b@),
    decreases a, 2nat,
{
    if a.callable != b.callable || a.synthetic_open_index != b.synthetic_open_index {
        return false;
    }
    if !option_string_eq(&a.alias_name, &b.alias_name) {
        return false;
    }
    let index_same = match (&a.string_index, &b.string_index) {
        (Some(x), Some(y)) => type_eq(x, y),
        (None, None) => true,
        _ => false,
    };
    if !index_same {
        return false;
    }
    properties_eq(&a.properties, &b.properties)
}

fn reference_eq(a: &TypeReference, b: &TypeReference) -> (r: bool)
    ensures
        r == (a@ == b@),
    decreases a, 2nat,
{
    string_eq(&a.id, &b.id) && string_eq(&a.display, &b.display) && a.enum_owner == b.enum_owner
        && a.readonly_array == b.readonly_array && type_eq(&a.target, &b.target)
}

/// A fresh copy of a string with the same characters.
pub fn copy_string(s: &String) -> (r: String)
    ensures
        r@ == s@,
{
    s.clone()
}

/// A deep copy of a type with the same view.
pub fn copy_type(t: &Type) -> (r: Type)
    ensures
        r@ == t@,
    decreases t, 0nat,
{
    match t {
        Type::Any => Type::Any,
        Type::Unknown => Type::Unknown,
        Type::GenuineUnknown => Type::GenuineUnknown,
        Type::ErrorType => Type::ErrorType,
        Type::Never => Type::Never,
        Type::String => Type::String,
        Type::Number => Type::Number,
        Type::Boolean => Type::Boolean,
        Type::BigInt => Type::BigInt,
        Type::Symbol => Type::Symbol,
        Type::Undefined => Type::Undefined,
        Type::Null => Type::Null,
        Type::Void => Type::Void,
        Type::StringLiteral(s) => Type::StringLiteral(copy_string(s)),
        Type::NumberLiteral(s) => Type::NumberLiteral(copy_string(s)),
        Type::BooleanLiteral(b) => Type::BooleanLiteral(*b),
        Type::Array(e) => Type::Array(Box::new(copy_type(e))),
        Type::Tuple(v) => Type::Tuple(copy_types(v)),
        Type::Function => Type::Function,
        Type::Object(o) => Type::Object(copy_object(o)),
        Type::Union(v) => Type::Union(copy_types(v)),
        Type::Reference(r) => Type::Reference(copy_reference(r)),
        Type::TypeParameter(n) => Type::TypeParameter(copy_string(n)),
    }
}

/// A deep copy of a vector of types with the same view.
pub fn copy_types(v: &Vec<Type>) -> (r: Vec<Type>)
    ensures
        view_types(r@) == view_types(v@),
    decreases v, 1nat,
{
    let mut out: Vec<Type> = Vec::new();
    let mut i: usize = 0;
    while i < v.len()
        invariant
            0 <= i <= v.len(),
            view_types(out@) == view_types(v@.take(i as int)),
        decreases v.len() - i,
    {
        proof {
            assert(decreases_to!(*v => v@));
            assert(decreases_to!(v@ => v@[i as int]));
        }
        let c = copy_type(&v[i]);
        proof {
            lemma_view_types_push(out@, c);
            lemma_view_types_take(v@, i as int);
        }
        out.push(c);
        i = i + 1;
    }
    assert(v@.take(v.len() as int) =~= v@);
    out
}

pub fn copy_properties(v: &Vec<ObjectProperty>) -> (r: Vec<ObjectProperty>)
    ensures
        view_properties(r@) == view_properties(v@),
    decreases v, 1nat,
{
    let mut out: Vec<ObjectProperty> = Vec::new();
    let mut i: usize = 0;
    while i < v.len()
        invariant
            0 <= i <= v.len(),
            view_properties(out@) == view_properties(v@.take(i as int)),
        decreases v.len() - i,
    {
        let p = &v[i];
        proof {
            assert(decreases_to!(*v => v@));
            assert(decreases_to!(v@ => v@[i as int]));
            assert(decreases_to!(v@[i as int] => v@[i as int].ty));
        }
        let c = ObjectProperty {
            name: copy_string(&p.name),
            ty: copy_type(&p.ty),
            optional: p.optional,
            readonly: p.readonly,
            method: p.method,
        };
        proof {
            lemma_view_properties_push(out@, c);
            assert(v@.take(i + 1).drop_last() =~= v@.take(i as int));
            assert(view_property(c) == view_property(v@[i as int]));
            assert(view_properties(v@.take(i + 1)) == view_properties(v@.take(i as int)).push(
                view_property(v@[i as int]),
            ));
        }
        out.push(c);
        i = i + 1;
    }
    assert(v@.take(v.len() as int) =~= v@);
    out
}

/// A deep copy of an object shape with the same view.
pub fn copy_object(o: &ObjectType) -> (r: ObjectType)
    ensures
        r@ == o@,
    decreases o, 2nat,
{
    let string_index = match &o.string_index {
        Some(t) => Some(Box::new(copy_type(t))),
        None => None,
    };
    let alias_name = match &o.alias_name {
        Some(n) => Some(copy_string(n)),
        None => None,
    };
    ObjectType {
        properties: copy_properties(&o.properties),
        string_index,
        callable: o.callable,
        alias_name,
        synthetic_open_index: o.synthetic_open_index,
    }
}

fn copy_reference(r: &TypeReference) -> (c: TypeReference)
    ensures
        c@ == r@,
    decreases r, 2nat,
{
    TypeReference {
        id: copy_string(&r.id),
        display: copy_string(&r.display),
        target: Box::new(copy_type(&r.target)),
        enum_owner: r.enum_owner,
        readonly_array: r.readonly_array,
    }
}


/// A named type's structure: references are followed to what they resolve to.
pub open spec fn spec_peel(t: SpecType) -> SpecType
    decreases t,
{
    match t {
        SpecType::Reference(r) => spec_peel(*r.target),
        _ => t,
    }
}

/// The structure a type resolves to, following named references.
pub fn peeled(t: &Type) -> (r: &Type)
    ensures
        r@ == spec_peel(t@),
    decreases t,
{
    match t {
        Type::Reference(r) => {
            let target: &Type = &r.target;
            assert(t@ == SpecType::Reference(view_reference(*r)));
            assert(view_reference(*r).target == Box::new(view_type(*target)));
            peeled(target)
        },
        _ => t,
    }
}

/// Union members with nested unions spliced in and `never` dropped.
pub open spec fn spec_flatten(s: Seq<SpecType>) -> Seq<SpecType>
    decreases s.len(),
{
    if s.len() == 0 {
        Seq::empty()
    } else {
        spec_flatten(s.drop_last()) + match s.last() {
            SpecType::Union(ms) => ms,
            SpecType::Never => Seq::empty(),
            t => seq![t],
        }
    }
}

/// The members of `s` with later duplicates dropped.
pub open spec fn spec_dedup(s: Seq<SpecType>) -> Seq<SpecType>
    decreases s.len(),
{
    if s.len() == 0 {
        Seq::empty()
    } else {
        let d = spec_dedup(s.drop_last());
        if d.contains(s.last()) {
            d
        } else {
            d.push(s.last())
        }
    }
}

/// The union of `members`: nested unions flattened, `never` and duplicates
/// dropped; no member left is `never`, a single member is itself.
pub open spec fn spec_union(members: Seq<SpecType>) -> SpecType {
    let m = spec_dedup(spec_flatten(members));
    if m.len() == 0 {
        SpecType::Never
    } else if m.len() == 1 {
        m[0]
    } else {
        SpecType::Union(m)
    }
}

/// Whether `v` holds a member equal to `t`.
pub fn contains_type(v: &Vec<Type>, t: &Type) -> (r: bool)
    ensures
        r == view_types(v@).contains(t@),
{
    proof {
        lemma_view_types(v@);
    }
    let mut i: usize = 0;
    while i < v.len()
        invariant
            0 <= i <= v.len(),
            view_types(v@).len() == v.len(),
            forall|j: int| 0 <= j < v.len() ==> #[trigger] view_types(v@)[j] == view_type(v@[j]),
            forall|j: int| 0 <= j < i ==> view_types(v@)[j] != t@,
        decreases v.len() - i,
    {
        if type_eq(&v[i], t) {
            assert(view_types(v@)[i as int] == t@);
            return true;
        }
        i = i + 1;
    }
    false
}

/// Appends copies of `src`'s members to `dst`.
fn append_copies(dst: &mut Vec<Type>, src: &Vec<Type>)
    ensures
        view_types(final(dst)@) == view_types(old(dst)@) + view_types(src@),
{
    let ghost start = view_types(dst@);
    let mut i: usize = 0;
    while i < src.len()
        invariant
            0 <= i <= src.len(),
            view_types(dst@) == start + view_types(src@.take(i as int)),
        decreases src.len() - i,
    {
        let c = copy_type(&src[i]);
        proof {
            lemma_view_types_push(dst@, c);
            lemma_view_types_take(src@, i as int);
            assert(start + view_types(src@.take(i + 1)) =~= (start + view_types(
                src@.take(i as int),
            )).push(view_type(c)));
        }
        dst.push(c);
        i = i + 1;
    }
    assert(src@.take(src.len() as int) =~= src@);
}

/// The union of `members` (see [`spec_union`]).
pub fn union_of(members: Vec<Type>) -> (r: Type)
    ensures
        r@ == spec_union(view_types(members@)),
{
    let ghost ms = view_types(members@);
    proof {
        lemma_view_types(members@);
    }
    let mut flat: Vec<Type> = Vec::new();
    let mut i: usize = 0;
    while i < members.len()
        invariant
            0 <= i <= members.len(),
            ms == view_types(members@),
            ms.len() == members.len(),
            forall|j: int| 0 <= j < members.len() ==> #[trigger] ms[j] == view_type(members@[j]),
            view_types(flat@) == spec_flatten(ms.take(i as int)),
        decreases members.len() - i,
    {
        let m = &members[i];
        proof {
            assert(ms.take(i + 1).drop_last() =~= ms.take(i as int));
            assert(ms.take(i + 1).last() == ms[i as int]);
        }
        match m {
            Type::Union(inner) => {
                append_copies(&mut flat, inner);
            },
            Type::Never => {
                assert(view_types(flat@) =~= view_types(flat@) + Seq::<SpecType>::empty());
            },
            _ => {
                let c = copy_type(m);
                proof {
                    lemma_view_types_push(flat@, c);
                    assert(view_types(flat@).push(view_type(c)) =~= view_types(flat@) + seq![
                        view_type(c),
                    ]);
                }
                flat.push(c);
            },
        }
        i = i + 1;
    }
    assert(ms.take(members.len() as int) =~= ms);
    let ghost fs = view_types(flat@);
    proof {
        lemma_view_types(flat@);
    }
    let mut out: Vec<Type> = Vec::new();
    let mut k: usize = 0;
    while k < flat.len()
        invariant
            0 <= k <= flat.len(),
            fs == view_types(flat@),
            fs.len() == flat.len(),
            forall|j: int| 0 <= j < flat.len() ==> #[trigger] fs[j] == view_type(flat@[j]),
            view_types(out@) == spec_dedup(fs.take(k as int)),
        decreases flat.len() - k,
    {
        proof {
            assert(fs.take(k + 1).drop_last() =~= fs.take(k as int));
            assert(fs.take(k + 1).last() == fs[k as int]);
        }
        if !contains_type(&out, &flat[k]) {
            let c = copy_type(&flat[k]);
            proof {
                lemma_view_types_push(out@, c);
            }
            out.push(c);
        }
        k = k + 1;
    }
    assert(fs.take(flat.len() as int) =~= fs);
    proof {
        lemma_view_types(out@);
    }
    if out.len() == 0 {
        Type::Never
    } else if out.len() == 1 {
        out.pop().unwrap()
    } else {
        Type::Union(out)
    }
}


/// The view of an optional type.
pub open spec fn opt_view(o: Option<Type>) -> Option<SpecType> {
    match o {
        Some(t) => Some(t@),
        None => None,
    }
}

/// The view of an optional vector of types.
pub open spec fn opt_types_view(o: Option<Vec<Type>>) -> Option<Seq<SpecType>> {
    match o {
        Some(v) => Some(view_types(v@)),
        None => None,
    }
}

/// The members a union holds; any other type stands alone.
pub open spec fn spec_members(t: SpecType) -> Seq<SpecType> {
    match t {
        SpecType::Union(ms) => ms,
        _ => seq![t],
    }
}

/// tsc's degradation test: a type the checker could not model, or `unknown`.
pub open spec fn spec_is_unknown(t: SpecType) -> bool {
    t is Unknown || t is GenuineUnknown || t is ErrorType
}

/// See [`spec_is_unknown`].
pub fn is_unknown(t: &Type) -> (r: bool)
    ensures
        r == spec_is_unknown(t@),
{
    match t {
        Type::Unknown | Type::GenuineUnknown | Type::ErrorType => true,
        _ => false,
    }
}

/// The name a nominal type is known by: a reference's written name, an object's
/// alias, a type variable's name. Structural types have none.
pub open spec fn spec_nominal_name(t: SpecType) -> Option<Seq<char>> {
    match t {
        SpecType::Reference(r) => Some(r.display),
        SpecType::Object(o) => o.alias_name,
        SpecType::TypeParameter(n) => Some(n),
        _ => None,
    }
}

/// The view of optional characters.
pub open spec fn opt_chars(o: Option<Vec<char>>) -> Option<Seq<char>> {
    match o {
        Some(v) => Some(v@),
        None => None,
    }
}

/// See [`spec_nominal_name`].
pub fn nominal_name(t: &Type) -> (r: Option<Vec<char>>)
    ensures
        opt_chars(r) == spec_nominal_name(t@),
{
    let r = match t {
        Type::Reference(reference) => {
            let d = crate::text::chars_of(reference.display.as_str());
            assert(t@ == SpecType::Reference(view_reference(*reference)));
            assert(opt_chars(Some(d)) == spec_nominal_name(t@));
            Some(d)
        },
        Type::Object(o) => {
            assert(t@ == SpecType::Object(view_object(*o)));
            match &o.alias_name {
                Some(n) => Some(crate::text::chars_of(n.as_str())),
                None => None,
            }
        },
        Type::TypeParameter(n) => {
            let d = crate::text::chars_of(n.as_str());
            assert(opt_chars(Some(d)) == spec_nominal_name(t@));
            Some(d)
        },
        _ => {
            assert(spec_nominal_name(t@) is None);
            None
        },
    };
    assert(opt_chars(r) == spec_nominal_name(t@));
    r
}

/// The declared name a reference's id ends in (the part after the last NUL).
pub open spec fn spec_reference_own_name(r: SpecReference) -> Seq<char> {
    crate::text::after_last(r.id, '\u{0}')
}

/// See [`spec_reference_own_name`].
pub fn reference_own_name(r: &TypeReference) -> (n: Vec<char>)
    ensures
        n@ == spec_reference_own_name(r@),
{
    let id = crate::text::chars_of(r.id.as_str());
    crate::text::chars_after_last(&id, '\u{0}')
}

/// The index of the first property of `props` named `name`, if any.
pub open spec fn spec_find_index(props: Seq<SpecProperty>, name: Seq<char>) -> Option<int>
    decreases props.len(),
{
    if props.len() == 0 {
        None
    } else {
        match spec_find_index(props.drop_last(), name) {
            Some(i) => Some(i),
            None => if props.last().name == name {
                Some(props.len() - 1)
            } else {
                None
            },
        }
    }
}

/// The object property named `name`, if the shape declares one.
pub open spec fn spec_find_property(props: Seq<SpecProperty>, name: Seq<char>) -> Option<SpecProperty> {
    match spec_find_index(props, name) {
        Some(i) => Some(props[i]),
        None => None,
    }
}

/// `spec_find_index` finds a property of that name, the first one.
pub proof fn lemma_find_index(props: Seq<SpecProperty>, name: Seq<char>)
    ensures
        match spec_find_index(props, name) {
            Some(i) => 0 <= i < props.len() && props[i].name == name && forall|j: int|
                0 <= j < i ==> #[trigger] props[j].name != name,
            None => forall|j: int| 0 <= j < props.len() ==> #[trigger] props[j].name != name,
        },
    decreases props.len(),
{
    if props.len() > 0 {
        let d = props.drop_last();
        lemma_find_index(d, name);
        assert forall|j: int| 0 <= j < props.len() - 1 implies props[j] == #[trigger] d[j] by {}
        match spec_find_index(d, name) {
            Some(i) => {
                assert forall|j: int| 0 <= j < i implies #[trigger] props[j].name != name by {
                    assert(props[j] == d[j]);
                }
            },
            None => {
                if props.last().name != name {
                    assert forall|j: int| 0 <= j < props.len() implies #[trigger] props[j].name
                        != name by {
                        if j < props.len() - 1 {
                            assert(props[j] == d[j]);
                        }
                    }
                } else {
                    assert forall|j: int| 0 <= j < props.len() - 1 implies #[trigger] props[j].name
                        != name by {
                        assert(props[j] == d[j]);
                    }
                }
            },
        }
    }
}

/// The option view of an index.
pub open spec fn opt_index(o: Option<usize>) -> Option<int> {
    match o {
        Some(i) => Some(i as int),
        None => None,
    }
}

/// The index of the first property of `props` named `name`, if any.
pub fn find_property(props: &Vec<ObjectProperty>, name: &str) -> (r: Option<usize>)
    ensures
        opt_index(r) == spec_find_index(view_properties(props@), name@),
        r matches Some(i) ==> i < props@.len(),
{
    let target = crate::text::chars_of(name);
    let ghost vs = view_properties(props@);
    proof {
        lemma_view_properties(props@);
    }
    let mut i: usize = 0;
    while i < props.len()
        invariant
            0 <= i <= props.len(),
            target@ == name@,
            vs == view_properties(props@),
            vs.len() == props.len(),
            forall|j: int| 0 <= j < props.len() ==> #[trigger] vs[j] == view_property(props@[j]),
            spec_find_index(vs.take(i as int), name@) is None,
        decreases props.len() - i,
    {
        proof {
            assert(vs.take(i + 1).drop_last() =~= vs.take(i as int));
        }
        let n = crate::text::chars_of(props[i].name.as_str());
        if crate::text::chars_eq(&n, &target) {
            assert(spec_find_index(vs.take(i + 1), name@) == Some(i as int));
            proof {
                lemma_find_index_prefix(vs, name@, i + 1);
            }
            return Some(i);
        }
        i = i + 1;
    }
    assert(vs.take(props.len() as int) =~= vs);
    None
}

proof fn lemma_find_index_prefix(props: Seq<SpecProperty>, name: Seq<char>, k: int)
    requires
        0 < k <= props.len(),
        spec_find_index(props.take(k), name) is Some,
    ensures
        spec_find_index(props, name) == spec_find_index(props.take(k), name),
    decreases props.len(),
{
    if props.len() > k {
        assert(props.drop_last().take(k) =~= props.take(k));
        lemma_find_index_prefix(props.drop_last(), name, k);
    } else {
        assert(props.take(k) =~= props);
    }
}

/// `props` with `p` stored under its name: an existing property of that name
/// is replaced in place, otherwise `p` is appended.
pub open spec fn spec_set_property(props: Seq<SpecProperty>, p: SpecProperty) -> Seq<SpecProperty> {
    match spec_find_index(props, p.name) {
        Some(i) => props.update(i, p),
        None => props.push(p),
    }
}

/// Stores `p` under its name (see [`spec_set_property`]).
pub fn set_property(props: &mut Vec<ObjectProperty>, p: ObjectProperty)
    ensures
        view_properties(final(props)@) == spec_set_property(view_properties(old(props)@), p@),
{
    let ghost before = view_properties(props@);
    proof {
        lemma_view_properties(props@);
    }
    match find_property(props, p.name.as_str()) {
        Some(i) => {
            let ghost pv = view_property(p);
            props.set(i, p);
            proof {
                lemma_view_properties(props@);
                assert(view_properties(props@) =~= before.update(i as int, pv));
            }
        },
        None => {
            proof {
                lemma_view_properties_push(props@, p);
            }
            props.push(p);
        },
    }
}

/// How deep a type nests unions and named references: bounds the recursion
/// of the rules that look through both.
pub open spec fn type_height(t: SpecType) -> nat
    decreases t, 0nat,
{
    match t {
        SpecType::Union(ms) => 1 + seq_height(ms),
        SpecType::Reference(r) => 1 + type_height(*r.target),
        _ => 0,
    }
}

/// The greatest [`type_height`] in a sequence.
pub open spec fn seq_height(s: Seq<SpecType>) -> nat
    decreases s, 1nat,
{
    if s.len() == 0 {
        0
    } else {
        let a = seq_height(s.drop_last());
        let b = type_height(s.last());
        if a >= b {
            a
        } else {
            b
        }
    }
}

/// Every element is at most as high as the sequence, and so is every prefix.
pub proof fn lemma_seq_height(s: Seq<SpecType>)
    ensures
        forall|i: int| 0 <= i < s.len() ==> type_height(#[trigger] s[i]) <= seq_height(s),
        s.len() > 0 ==> seq_height(s.drop_last()) <= seq_height(s),
    decreases s.len(),
{
    if s.len() > 0 {
        lemma_seq_height(s.drop_last());
        assert forall|i: int| 0 <= i < s.len() implies type_height(#[trigger] s[i]) <= seq_height(s) by {
            if i < s.len() - 1 {
                assert(s[i] == s.drop_last()[i]);
            }
        }
    }
}

/// Peeling never makes a type higher.
pub proof fn lemma_peel_height(t: SpecType)
    ensures
        type_height(spec_peel(t)) <= type_height(t),
    decreases t,
{
    match t {
        SpecType::Reference(r) => lemma_peel_height(*r.target),
        _ => {},
    }
}

/// Appending one element: the height is the greater of the two.
pub proof fn lemma_seq_height_push(s: Seq<SpecType>, t: SpecType)
    ensures
        seq_height(s.push(t)) == (if seq_height(s) >= type_height(t) {
            seq_height(s)
        } else {
            type_height(t)
        }),
{
    assert(s.push(t).drop_last() =~= s);
}

/// A sequence each of whose elements is at most `h` high is at most `h` high.
pub proof fn lemma_seq_height_bound(s: Seq<SpecType>, h: nat)
    requires
        forall|i: int| 0 <= i < s.len() ==> type_height(#[trigger] s[i]) <= h,
    ensures
        seq_height(s) <= h,
    decreases s.len(),
{
    if s.len() > 0 {
        assert forall|i: int| 0 <= i < s.drop_last().len() implies type_height(
            #[trigger] s.drop_last()[i],
        ) <= h by {
            assert(s.drop_last()[i] == s[i]);
        }
        lemma_seq_height_bound(s.drop_last(), h);
    }
}

/// Filtering never makes a sequence higher.
pub proof fn lemma_filter_height(s: Seq<SpecType>, pred: spec_fn(SpecType) -> bool)
    ensures
        seq_height(s.filter(pred)) <= seq_height(s),
    decreases s.len(),
{
    reveal(Seq::filter);
    if s.len() > 0 {
        lemma_filter_height(s.drop_last(), pred);
        lemma_seq_height(s);
        if pred(s.last()) {
            lemma_seq_height_push(s.drop_last().filter(pred), s.last());
        }
    }
}

/// Splicing nested unions never makes a sequence higher.
pub proof fn lemma_flatten_height(s: Seq<SpecType>)
    ensures
        seq_height(spec_flatten(s)) <= seq_height(s),
    decreases s.len(),
{
    if s.len() > 0 {
        lemma_flatten_height(s.drop_last());
        lemma_seq_height(s);
        let front = spec_flatten(s.drop_last());
        let back = match s.last() {
            SpecType::Union(ms) => ms,
            SpecType::Never => Seq::empty(),
            t => seq![t],
        };
        lemma_seq_height(front);
        lemma_seq_height(back);
        let whole = front + back;
        assert forall|i: int| 0 <= i < whole.len() implies type_height(#[trigger] whole[i])
            <= seq_height(s) by {
            if i < front.len() {
                assert(whole[i] == front[i]);
            } else {
                assert(whole[i] == back[i - front.len()]);
            }
        }
        lemma_seq_height_bound(whole, seq_height(s));
    }
}

/// Dropping duplicates never makes a sequence higher.
pub proof fn lemma_dedup_height(s: Seq<SpecType>)
    ensures
        seq_height(spec_dedup(s)) <= seq_height(s),
    decreases s.len(),
{
    if s.len() > 0 {
        lemma_dedup_height(s.drop_last());
        lemma_seq_height(s);
        let d = spec_dedup(s.drop_last());
        if !d.contains(s.last()) {
            lemma_seq_height_push(d, s.last());
        }
    }
}

/// The union of a sequence is no higher than a union holding it as it is.
pub proof fn lemma_union_height(s: Seq<SpecType>)
    ensures
        type_height(spec_union(s)) <= 1 + seq_height(s),
{
    let m = spec_dedup(spec_flatten(s));
    lemma_flatten_height(s);
    lemma_dedup_height(spec_flatten(s));
    lemma_seq_height(m);
}

/// Filtering a prefix one element longer.
pub proof fn lemma_filter_take_step<A>(s: Seq<A>, i: int, pred: spec_fn(A) -> bool)
    requires
        0 <= i < s.len(),
    ensures
        s.take(i + 1).filter(pred) == (if pred(s[i]) {
            s.take(i).filter(pred).push(s[i])
        } else {
            s.take(i).filter(pred)
        }),
{
    reveal(Seq::filter);
    assert(s.take(i + 1).drop_last() =~= s.take(i));
}

/// Filtering a one-element sequence.
pub proof fn lemma_filter_single<A>(x: A, pred: spec_fn(A) -> bool)
    ensures
        seq![x].filter(pred) == (if pred(x) {
            seq![x]
        } else {
            Seq::<A>::empty()
        }),
{
    reveal(Seq::filter);
    assert(seq![x].drop_last() =~= Seq::<A>::empty());
    assert(Seq::<A>::empty().filter(pred) =~= Seq::<A>::empty());
    assert(Seq::<A>::empty().push(x) =~= seq![x]);
}

/// Filtering keeps at most as many elements, and keeps all of them only when
/// every element passes.
pub proof fn lemma_filter_all<A>(s: Seq<A>, pred: spec_fn(A) -> bool)
    ensures
        s.filter(pred).len() <= s.len(),
        s.filter(pred).len() == s.len() <==> forall|i: int| 0 <= i < s.len() ==> pred(#[trigger] s[i]),
        s.filter(pred).len() == s.len() ==> s.filter(pred) == s,
    decreases s.len(),
{
    reveal(Seq::filter);
    if s.len() > 0 {
        lemma_filter_all(s.drop_last(), pred);
        if s.filter(pred).len() == s.len() {
            assert forall|i: int| 0 <= i < s.len() implies pred(#[trigger] s[i]) by {
                if i < s.len() - 1 {
                    assert(s[i] == s.drop_last()[i]);
                }
            }
            assert(s.drop_last().push(s.last()) =~= s);
        }
        if forall|i: int| 0 <= i < s.len() ==> pred(#[trigger] s[i]) {
            assert forall|i: int| 0 <= i < s.drop_last().len() implies pred(
                #[trigger] s.drop_last()[i],
            ) by {
                assert(s.drop_last()[i] == s[i]);
            }
            assert(pred(s[s.len() - 1]));
        }
    } else {
        assert(s.filter(pred) =~= s);
    }
}


/// Copies of the members of `ms` whose `mask` entry is set; the mask is `pred`
/// read member by member, so the result is `ms` filtered by `pred`.
pub(crate) fn filter_members(ms: &Vec<Type>, mask: &Vec<bool>, Ghost(pred): Ghost<spec_fn(SpecType) -> bool>) -> (r: Vec<Type>)
    requires
        mask@.len() == ms@.len(),
        forall|j: int| 0 <= j < ms@.len() ==> mask@[j] == pred(#[trigger] view_type(ms@[j])),
    ensures
        view_types(r@) == view_types(ms@).filter(pred),
{
    let ghost members = view_types(ms@);
    proof {
        lemma_view_types(ms@);
    }
    let mut kept: Vec<Type> = Vec::new();
    let mut i: usize = 0;
    while i < ms.len()
        invariant
            0 <= i <= ms.len(),
            mask@.len() == ms@.len(),
            members == view_types(ms@),
            members.len() == ms.len(),
            forall|j: int| 0 <= j < ms.len() ==> #[trigger] members[j] == view_type(ms@[j]),
            forall|j: int| 0 <= j < ms@.len() ==> mask@[j] == pred(#[trigger] view_type(ms@[j])),
            view_types(kept@) == members.take(i as int).filter(pred),
        decreases ms.len() - i,
    {
        proof {
            lemma_filter_take_step(members, i as int, pred);
            assert(mask@[i as int] == pred(view_type(ms@[i as int])));
        }
        if mask[i] {
            let c = copy_type(&ms[i]);
            proof {
                lemma_view_types_push(kept@, c);
            }
            kept.push(c);
        }
        i = i + 1;
    }
    assert(members.take(ms.len() as int) =~= members);
    kept
}

/// A union filtered by a member test: `None` when every member passes or none
/// does, the union of the passing members otherwise.
pub open spec fn spec_filter_union(members: Seq<SpecType>, pred: spec_fn(SpecType) -> bool) -> Option<SpecType> {
    let kept = members.filter(pred);
    if kept.len() == 0 || kept.len() == members.len() {
        None
    } else {
        Some(spec_union(kept))
    }
}

/// See [`spec_filter_union`].
pub(crate) fn filter_union(ms: &Vec<Type>, mask: &Vec<bool>, Ghost(pred): Ghost<spec_fn(SpecType) -> bool>) -> (r: Option<Type>)
    requires
        mask@.len() == ms@.len(),
        forall|j: int| 0 <= j < ms@.len() ==> mask@[j] == pred(#[trigger] view_type(ms@[j])),
    ensures
        opt_view(r) == spec_filter_union(view_types(ms@), pred),
        view_types(ms@).filter(pred).len() == 0 ==> r is None,
{
    let kept = filter_members(ms, mask, Ghost(pred));
    proof {
        lemma_view_types(kept@);
        lemma_view_types(ms@);
    }
    if kept.len() == 0 || kept.len() == ms.len() {
        None
    } else {
        Some(union_of(kept))
    }
}


/// Filtering keeps nothing exactly when no element passes.
pub proof fn lemma_filter_none<A>(s: Seq<A>, pred: spec_fn(A) -> bool)
    ensures
        s.filter(pred).len() == 0 <==> forall|i: int| 0 <= i < s.len() ==> !pred(#[trigger] s[i]),
    decreases s.len(),
{
    reveal(Seq::filter);
    if s.len() > 0 {
        lemma_filter_none(s.drop_last(), pred);
        if forall|i: int| 0 <= i < s.len() ==> !pred(#[trigger] s[i]) {
            assert forall|i: int| 0 <= i < s.drop_last().len() implies !pred(
                #[trigger] s.drop_last()[i],
            ) by {
                assert(s.drop_last()[i] == s[i]);
            }
            assert(!pred(s[s.len() - 1]));
        }
        if s.filter(pred).len() == 0 {
            assert forall|i: int| 0 <= i < s.len() implies !pred(#[trigger] s[i]) by {
                if i < s.len() - 1 {
                    assert(s[i] == s.drop_last()[i]);
                }
            }
        }
    }
}


/// A one-member vector.
pub fn singleton(t: Type) -> (r: Vec<Type>)
    ensures
        view_types(r@) == seq![t@],
{
    let mut v: Vec<Type> = Vec::new();
    proof {
        lemma_view_types_push(v@, t);
    }
    v.push(t);
    assert(view_types(Seq::<Type>::empty()) =~= Seq::<SpecType>::empty());
    assert(Seq::<SpecType>::empty().push(t@) =~= seq![t@]);
    v
}


/// `null`, `undefined` or `void`.
pub open spec fn spec_is_nullish(t: SpecType) -> bool {
    t is Null || t is Undefined || t is Void
}

/// A member that is not nullish.
pub open spec fn non_nullish_test() -> spec_fn(SpecType) -> bool {
    |m: SpecType| !spec_is_nullish(m)
}

/// `ty` with its nullish members removed (`never` for a lone nullish type).
pub open spec fn spec_remove_nullish(ty: SpecType) -> SpecType {
    match ty {
        SpecType::Union(ms) => spec_union(ms.filter(non_nullish_test())),
        _ => if spec_is_nullish(ty) {
            SpecType::Never
        } else {
            ty
        },
    }
}

/// See [`spec_remove_nullish`].
pub fn remove_nullish(ty: &Type) -> (r: Type)
    ensures
        r@ == spec_remove_nullish(ty@),
{
    match ty {
        Type::Union(ms) => {
            let ghost pred = non_nullish_test();
            let mut mask: Vec<bool> = Vec::new();
            let mut i: usize = 0;
            while i < ms.len()
                invariant
                    0 <= i <= ms.len(),
                    mask@.len() == i,
                    pred == non_nullish_test(),
                    forall|j: int| 0 <= j < i ==> mask@[j] == pred(#[trigger] view_type(ms@[j])),
                decreases ms.len() - i,
            {
                let nullish = match &ms[i] {
                    Type::Null | Type::Undefined | Type::Void => true,
                    _ => false,
                };
                mask.push(!nullish);
                i = i + 1;
            }
            let kept = filter_members(ms, &mask, Ghost(pred));
            union_of(kept)
        },
        Type::Null | Type::Undefined | Type::Void => Type::Never,
        _ => copy_type(ty),
    }
}

} // verus!
