//! A function declaration's written parameters: how many a call must pass,
//! their written names, and the signature a declaration collects from them.

use vstd::prelude::*;
use crate::symbols::{
    view_name_option, FunctionSignatureInfo, SpecPredicate, SpecSignature, TypePredicate,
};
use crate::syntax::TextSpan;
use crate::types::{copy_type, spec_union, union_of, view_type, view_types, SpecType, Type};

verus! {

/// How a parameter or a destructuring element binds its value.
pub enum BindingName {
    /// A plain name.
    Identifier { name: String, span: Option<TextSpan> },
    /// `{ a, b: c, ...rest }`.
    ObjectPattern(ObjectBindingPattern),
    /// `[a, , b, ...rest]`.
    ArrayPattern(ArrayBindingPattern),
    /// A binding form the checker does not read.
    Unsupported,
}

/// An element of an object pattern.
pub struct ObjectBindingElement {
    pub binding_name: BindingName,
    /// `{ a }` rather than `{ a: b }`.
    pub shorthand: bool,
    /// Where the property name is written.
    pub name_span: Option<TextSpan>,
}

/// `{ elements..., ...rest }`.
pub struct ObjectBindingPattern {
    pub elements: Vec<ObjectBindingElement>,
    pub rest: Option<Box<BindingName>>,
    pub span: Option<TextSpan>,
}

/// `[elements..., ...rest]`; a hole is `None`.
pub struct ArrayBindingPattern {
    pub elements: Vec<Option<BindingName>>,
    pub rest: Option<Box<BindingName>>,
    pub span: Option<TextSpan>,
}

/// A parameter as written.
pub struct FunctionParameter {
    pub binding_name: BindingName,
    /// Whether a type annotation is written.
    pub has_declared_type: bool,
    /// `p?`.
    pub optional: bool,
    /// `p = default`.
    pub has_initializer: bool,
    /// `...p`.
    pub rest: bool,
}

/// A parameter a call may leave out: optional, defaulted or rest.
pub open spec fn spec_may_be_omitted(p: FunctionParameter) -> bool {
    p.optional || p.has_initializer || p.rest
}

/// How many leading parameters a call must pass: the parameters up to the
/// last one that may not be omitted.
pub open spec fn spec_required_parameter_count(parameters: Seq<FunctionParameter>) -> nat
    decreases parameters.len(),
{
    if parameters.len() == 0 {
        0
    } else if spec_may_be_omitted(parameters.last()) {
        spec_required_parameter_count(parameters.drop_last())
    } else {
        parameters.len()
    }
}

/// The required count is at most the parameter count, every parameter after
/// it may be omitted, and the one just before it may not.
pub proof fn lemma_required_parameter_count(parameters: Seq<FunctionParameter>)
    ensures
        spec_required_parameter_count(parameters) <= parameters.len(),
        forall|i: int|
            spec_required_parameter_count(parameters) <= i < parameters.len() ==> spec_may_be_omitted(
                #[trigger] parameters[i],
            ),
        spec_required_parameter_count(parameters) > 0 ==> !spec_may_be_omitted(
            parameters[spec_required_parameter_count(parameters) - 1],
        ),
    decreases parameters.len(),
{
    if parameters.len() > 0 && spec_may_be_omitted(parameters.last()) {
        let front = parameters.drop_last();
        lemma_required_parameter_count(front);
        assert forall|i: int|
            spec_required_parameter_count(parameters) <= i < parameters.len() implies spec_may_be_omitted(
            #[trigger] parameters[i],
        ) by {
            if i < parameters.len() - 1 {
                assert(parameters[i] == front[i]);
            }
        }
        if spec_required_parameter_count(parameters) > 0 {
            assert(parameters[spec_required_parameter_count(parameters) - 1]
                == front[spec_required_parameter_count(front) - 1]);
        }
    }
}

/// See [`spec_required_parameter_count`].
pub fn required_parameter_count(parameters: &Vec<FunctionParameter>) -> (r: usize)
    ensures
        r == spec_required_parameter_count(parameters@),
{
    let mut required: usize = parameters.len();
    assert(parameters@.take(required as int) =~= parameters@);
    assert(parameters@.take(0) =~= Seq::<FunctionParameter>::empty());
    while required > 0
        invariant
            required <= parameters.len(),
            spec_required_parameter_count(parameters@) == spec_required_parameter_count(
                parameters@.take(required as int),
            ),
        ensures
            spec_required_parameter_count(parameters@) == required,
        decreases required,
    {
        let parameter = &parameters[required - 1];
        let ghost pre = parameters@.take(required as int);
        assert(pre.drop_last() =~= parameters@.take(required - 1));
        assert(pre.last() == parameters@[required - 1]);
        if parameter.optional || parameter.has_initializer || parameter.rest {
            required = required - 1;
        } else {
            break;
        }
    }
    required
}

/// The name a parameter is written with, `None` for a destructuring pattern.
pub open spec fn spec_written_binding_name(p: FunctionParameter) -> Option<Seq<char>> {
    match p.binding_name {
        BindingName::Identifier { name, .. } => Some(name@),
        _ => None,
    }
}

/// The parameters' written names, in order.
pub open spec fn spec_written_binding_names(parameters: Seq<FunctionParameter>) -> Seq<Option<Seq<char>>> {
    parameters.map_values(|p: FunctionParameter| spec_written_binding_name(p))
}

/// See [`spec_written_binding_names`].
pub fn written_binding_names(parameters: &Vec<FunctionParameter>) -> (r: Vec<Option<String>>)
    ensures
        r@.map_values(|n: Option<String>| view_name_option(n)) == spec_written_binding_names(
            parameters@,
        ),
{
    let mut names: Vec<Option<String>> = Vec::new();
    let mut i: usize = 0;
    while i < parameters.len()
        invariant
            0 <= i <= parameters.len(),
            names@.len() == i,
            forall|j: int|
                0 <= j < i ==> view_name_option(#[trigger] names@[j]) == spec_written_binding_name(
                    parameters@[j],
                ),
        decreases parameters.len() - i,
    {
        let name = match &parameters[i].binding_name {
            BindingName::Identifier { name, .. } => Some(name.clone()),
            _ => None,
        };
        names.push(name);
        i = i + 1;
    }
    assert(names@.map_values(|n: Option<String>| view_name_option(n)) =~= spec_written_binding_names(
        parameters@,
    ));
    names
}

/// Whether a destructuring object pattern without a type annotation stands
/// where the contextual parameter type is the written `unknown` (tsc reports
/// such a pattern; the unmodelled sentinel is not reported).
pub open spec fn spec_has_contextual_unknown_object_binding_pattern(
    parameters: Seq<FunctionParameter>,
    contextual: Option<Seq<SpecType>>,
) -> bool {
    match contextual {
        Some(types) => spec_some_unknown_pattern(parameters, types),
        None => false,
    }
}

/// Whether some parameter is an unannotated object pattern whose contextual
/// type is the written `unknown`.
pub open spec fn spec_some_unknown_pattern(parameters: Seq<FunctionParameter>, types: Seq<SpecType>) -> bool {
    exists|i: int| 0 <= i < parameters.len() && #[trigger] spec_unknown_pattern_at(parameters, types, i)
}

/// Whether parameter `i` is an unannotated object pattern whose contextual
/// type is the written `unknown`.
pub open spec fn spec_unknown_pattern_at(parameters: Seq<FunctionParameter>, types: Seq<SpecType>, i: int) -> bool {
    parameters[i].binding_name is ObjectPattern && !parameters[i].has_declared_type && i < types.len()
        && types[i] is GenuineUnknown
}

/// See [`spec_has_contextual_unknown_object_binding_pattern`].
pub fn has_contextual_unknown_object_binding_pattern(
    parameters: &Vec<FunctionParameter>,
    contextual: Option<&Vec<Type>>,
) -> (r: bool)
    ensures
        r == spec_has_contextual_unknown_object_binding_pattern(
            parameters@,
            match contextual {
                Some(v) => Some(view_types(v@)),
                None => None,
            },
        ),
{
    let types = match contextual {
        Some(v) => v,
        None => return false,
    };
    let ghost vs = view_types(types@);
    proof {
        crate::types::lemma_view_types(types@);
    }
    let mut i: usize = 0;
    while i < parameters.len()
        invariant
            0 <= i <= parameters.len(),
            contextual == Some(types),
            vs == view_types(types@),
            vs.len() == types.len(),
            forall|j: int| 0 <= j < types.len() ==> #[trigger] vs[j] == view_type(types@[j]),
            forall|j: int| 0 <= j < i ==> !#[trigger] spec_unknown_pattern_at(parameters@, vs, j),
        decreases parameters.len() - i,
    {
        let parameter = &parameters[i];
        let pattern = match parameter.binding_name {
            BindingName::ObjectPattern(_) => true,
            _ => false,
        };
        if pattern && !parameter.has_declared_type && i < types.len() {
            let unknown = match &types[i] {
                Type::GenuineUnknown => true,
                _ => false,
            };
            if unknown {
                assert(vs[i as int] is GenuineUnknown);
                assert(spec_unknown_pattern_at(parameters@, vs, i as int));
                assert(spec_some_unknown_pattern(parameters@, vs));
                return true;
            }
        }
        i = i + 1;
    }
    false
}

/// The signature a declaration collects: its type parameter count, its
/// parameters' written names, whether it ends in a rest parameter, its return
/// annotation when that is a type predicate, and the file declaring it; it
/// is no overload group (yet) and carries no later overloads.
pub open spec fn spec_function_signature_info(
    type_parameter_count: nat,
    parameters: Seq<FunctionParameter>,
    predicate: Option<SpecPredicate>,
    declaring_file: Seq<char>,
) -> SpecSignature {
    SpecSignature {
        overloaded: false,
        type_parameter_count,
        parameter_names: spec_written_binding_names(parameters),
        rest: parameters.len() > 0 && parameters.last().rest,
        predicate,
        declaring_file: Some(declaring_file),
        predicate_overload: None,
        overload_alternatives: Seq::empty(),
    }
}

/// See [`spec_function_signature_info`]; `type_parameters` are the declared
/// type parameters' names, `predicate` the return annotation when it is a
/// type predicate.
pub fn function_signature_info(
    type_parameters: &Vec<String>,
    parameters: &Vec<FunctionParameter>,
    predicate: Option<TypePredicate>,
    declaring_file: &str,
) -> (r: FunctionSignatureInfo)
    ensures
        r@ == spec_function_signature_info(
            type_parameters@.len(),
            parameters@,
            match predicate {
                Some(p) => Some(p@),
                None => None,
            },
            declaring_file@,
        ),
{
    let names = written_binding_names(parameters);
    let rest = if parameters.len() > 0 {
        parameters[parameters.len() - 1].rest
    } else {
        false
    };
    let r = FunctionSignatureInfo {
        overloaded: false,
        type_parameter_count: type_parameters.len(),
        parameter_names: names,
        rest,
        predicate,
        declaring_file: Some(String::from_str(declaring_file)),
        predicate_overload: None,
        overload_alternatives: Vec::new(),
    };
    assert(r.overload_alternatives@ =~= Seq::<FunctionSignatureInfo>::empty());
    assert(crate::symbols::view_signatures(r.overload_alternatives@) =~= Seq::<SpecSignature>::empty());
    r
}


/// The type a parameter has inside the body, given its declared type: an
/// optional named parameter without a default (and not rest) may be
/// `undefined`; a destructuring pattern reads the declared type; an
/// unsupported binding is `any`.
pub open spec fn spec_parameter_scope_type(p: FunctionParameter, ty: SpecType) -> SpecType {
    match p.binding_name {
        BindingName::Identifier { .. } => if p.optional && !p.has_initializer && !p.rest {
            spec_union(seq![ty, SpecType::Undefined])
        } else {
            ty
        },
        BindingName::ObjectPattern(_) => ty,
        BindingName::ArrayPattern(_) => ty,
        BindingName::Unsupported => SpecType::Any,
    }
}

/// See [`spec_parameter_scope_type`].
pub fn parameter_scope_type(parameter: &FunctionParameter, parameter_type: &Type) -> (r: Type)
    ensures
        r@ == spec_parameter_scope_type(*parameter, parameter_type@),
{
    match &parameter.binding_name {
        BindingName::Identifier { .. } => {
            let ty = copy_type(parameter_type);
            if parameter.optional && !parameter.has_initializer && !parameter.rest {
                let mut members: Vec<Type> = Vec::new();
                members.push(ty);
                members.push(Type::Undefined);
                proof {
                    crate::types::lemma_view_types(members@);
                    assert(view_types(members@) =~= seq![parameter_type@, SpecType::Undefined]);
                }
                union_of(members)
            } else {
                ty
            }
        },
        BindingName::ObjectPattern(_) | BindingName::ArrayPattern(_) => copy_type(parameter_type),
        BindingName::Unsupported => Type::Any,
    }
}


/// The name a parameter is written with, when it is a plain name.
pub fn parameter_identifier_name(parameter: &FunctionParameter) -> (r: Option<&str>)
    ensures
        match r {
            Some(n) => spec_written_binding_name(*parameter) == Some(n@),
            None => spec_written_binding_name(*parameter) is None,
        },
{
    match &parameter.binding_name {
        BindingName::Identifier { name, .. } => Some(name.as_str()),
        _ => None,
    }
}

/// The type an array destructuring position reads: a tuple's element at
/// `index` (`undefined` past its end), an array's element type, and `any`
/// for any other source.
pub open spec fn spec_array_binding_element_type(source: SpecType, index: int) -> SpecType {
    match source {
        SpecType::Tuple(elements) => if 0 <= index < elements.len() {
            elements[index]
        } else {
            SpecType::Undefined
        },
        SpecType::Array(element) => *element,
        _ => SpecType::Any,
    }
}

/// See [`spec_array_binding_element_type`].
pub fn array_binding_element_type(source: &Type, index: usize) -> (r: Type)
    ensures
        r@ == spec_array_binding_element_type(source@, index as int),
{
    match source {
        Type::Tuple(elements) => {
            proof {
                crate::types::lemma_view_types(elements@);
            }
            if index < elements.len() {
                copy_type(&elements[index])
            } else {
                Type::Undefined
            }
        },
        Type::Array(element) => copy_type(element),
        _ => Type::Any,
    }
}

} // verus!
