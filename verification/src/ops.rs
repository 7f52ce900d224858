//! What operators make of their operands' inferred types.

use vstd::prelude::*;
use crate::syntax::{BinaryOperator, TextSpan};
use crate::types::{
    copy_type, is_unknown, lemma_seq_height, lemma_view_types, seq_height, spec_is_unknown,
    spec_union, type_eq, type_height, union_of, view_types, SpecType, Type,
};

verus! {

/// What inference made of an expression.
pub enum InferredExpression {
    /// A type the expression was inferred to have.
    Known(Type),
    /// An identifier nothing in scope binds.
    UnresolvedIdentifier { name: String },
    /// A property its object does not have.
    MissingProperty { object: String, property: String },
    /// Nothing could be inferred.
    Unknown,
}

/// The option view of an inferred type.
pub open spec fn spec_inferred_type(result: InferredExpression) -> Option<SpecType> {
    match result {
        InferredExpression::Known(t) => Some(t@),
        _ => None,
    }
}

/// The type an expression was inferred to have, if any.
pub fn inferred_type(result: &InferredExpression) -> (r: Option<&Type>)
    ensures
        match r {
            Some(t) => spec_inferred_type(*result) == Some(t@),
            None => spec_inferred_type(*result) is None,
        },
{
    match result {
        InferredExpression::Known(ty) => Some(ty),
        InferredExpression::UnresolvedIdentifier { .. } | InferredExpression::MissingProperty {
            ..
        } | InferredExpression::Unknown => None,
    }
}

/// Whether an expression was inferred to a type that is not a degradation.
pub open spec fn spec_is_known_non_unknown(result: InferredExpression) -> bool {
    match result {
        InferredExpression::Known(t) => !spec_is_unknown(t@),
        _ => false,
    }
}

/// See [`spec_is_known_non_unknown`].
pub fn is_known_non_unknown(result: &InferredExpression) -> (r: bool)
    ensures
        r == spec_is_known_non_unknown(*result),
{
    match result {
        InferredExpression::Known(ty) => !is_unknown(ty),
        _ => false,
    }
}

/// A type the checker could not model, as opposed to the written `unknown`,
/// which an operator judges like any other operand.
pub open spec fn spec_is_unmodelled(t: SpecType) -> bool {
    spec_is_unknown(t) && t != SpecType::GenuineUnknown
}

/// See [`spec_is_unmodelled`].
pub fn is_unmodelled(t: &Type) -> (r: bool)
    ensures
        r == spec_is_unmodelled(t@),
{
    match t {
        Type::Unknown | Type::ErrorType => true,
        _ => false,
    }
}

/// `c ? a : b`: unknown unless the condition and both branches are known and
/// none is a degradation; `any` when a branch is `any`; the branches' common
/// type when they are the same, else their union.
pub open spec fn spec_evaluate_conditional_expression(condition: InferredExpression, when_true: InferredExpression, when_false: InferredExpression) -> Option<SpecType> {
    if !spec_is_known_non_unknown(condition) {
        None
    } else {
        match (spec_inferred_type(when_true), spec_inferred_type(when_false)) {
            (Some(t), Some(f)) => if spec_is_unknown(t) || spec_is_unknown(f) {
                None
            } else if t is Any || f is Any {
                Some(SpecType::Any)
            } else if t == f {
                Some(t)
            } else {
                Some(spec_union(seq![t, f]))
            },
            _ => None,
        }
    }
}

/// See [`spec_evaluate_conditional_expression`].
pub fn evaluate_conditional_expression(condition: InferredExpression, when_true: InferredExpression, when_false: InferredExpression) -> (r: InferredExpression)
    ensures
        spec_inferred_type(r) == spec_evaluate_conditional_expression(
            condition,
            when_true,
            when_false,
        ),
        r is Known || r is Unknown,
{
    if !is_known_non_unknown(&condition) {
        return InferredExpression::Unknown;
    }
    let true_type = match inferred_type(&when_true) {
        Some(t) => t,
        None => return InferredExpression::Unknown,
    };
    let false_type = match inferred_type(&when_false) {
        Some(t) => t,
        None => return InferredExpression::Unknown,
    };
    if is_unknown(true_type) || is_unknown(false_type) {
        return InferredExpression::Unknown;
    }
    if matches!(true_type, Type::Any) || matches!(false_type, Type::Any) {
        return InferredExpression::Known(Type::Any);
    }
    if type_eq(true_type, false_type) {
        return InferredExpression::Known(copy_type(true_type));
    }
    let mut members: Vec<Type> = Vec::new();
    members.push(copy_type(true_type));
    members.push(copy_type(false_type));
    proof {
        crate::types::lemma_view_types(members@);
        assert(crate::types::view_types(members@) =~= seq![true_type@, false_type@]);
    }
    InferredExpression::Known(union_of(members))
}


/// How an infix operator is written.
pub open spec fn spec_binary_operator_text(operator: BinaryOperator) -> Seq<char> {
    match operator {
        BinaryOperator::Less => "<"@,
        BinaryOperator::LessEquals => "<="@,
        BinaryOperator::Greater => ">"@,
        BinaryOperator::GreaterEquals => ">="@,
        BinaryOperator::Add => "+"@,
        BinaryOperator::Subtract => "-"@,
        BinaryOperator::Multiply => "*"@,
        BinaryOperator::Divide => "/"@,
        BinaryOperator::Remainder => "%"@,
        BinaryOperator::Exponential => "**"@,
        BinaryOperator::ShiftLeft => "<<"@,
        BinaryOperator::ShiftRight => ">>"@,
        BinaryOperator::ShiftRightZeroFill => ">>>"@,
        BinaryOperator::BitwiseAnd => "&"@,
        BinaryOperator::BitwiseOr => "|"@,
        BinaryOperator::BitwiseXor => "^"@,
        BinaryOperator::StrictEquals | BinaryOperator::StrictNotEquals | BinaryOperator::Equals
        | BinaryOperator::NotEquals => "=="@,
        BinaryOperator::In => "in"@,
        BinaryOperator::Instanceof => "instanceof"@,
    }
}

/// See [`spec_binary_operator_text`]; every equality operator reads `==`.
pub fn binary_operator_text(operator: BinaryOperator) -> (r: &'static str)
    ensures
        r@ == spec_binary_operator_text(operator),
{
    match operator {
        BinaryOperator::Less => "<",
        BinaryOperator::LessEquals => "<=",
        BinaryOperator::Greater => ">",
        BinaryOperator::GreaterEquals => ">=",
        BinaryOperator::Add => "+",
        BinaryOperator::Subtract => "-",
        BinaryOperator::Multiply => "*",
        BinaryOperator::Divide => "/",
        BinaryOperator::Remainder => "%",
        BinaryOperator::Exponential => "**",
        BinaryOperator::ShiftLeft => "<<",
        BinaryOperator::ShiftRight => ">>",
        BinaryOperator::ShiftRightZeroFill => ">>>",
        BinaryOperator::BitwiseAnd => "&",
        BinaryOperator::BitwiseOr => "|",
        BinaryOperator::BitwiseXor => "^",
        BinaryOperator::StrictEquals | BinaryOperator::StrictNotEquals | BinaryOperator::Equals
        | BinaryOperator::NotEquals => "==",
        BinaryOperator::In => "in",
        BinaryOperator::Instanceof => "instanceof",
    }
}

/// The boolean operator a bitwise operator between two booleans was likely
/// meant to be: `&&` for `&`, `||` for `|`, `!==` for `^`.
pub open spec fn spec_suggested_boolean_operator(operator: BinaryOperator) -> Option<Seq<char>> {
    match operator {
        BinaryOperator::BitwiseAnd => Some("&&"@),
        BinaryOperator::BitwiseOr => Some("||"@),
        BinaryOperator::BitwiseXor => Some("!=="@),
        _ => None,
    }
}

/// See [`spec_suggested_boolean_operator`].
pub fn suggested_boolean_operator(operator: BinaryOperator) -> (r: Option<&'static str>)
    ensures
        match r {
            Some(t) => spec_suggested_boolean_operator(operator) == Some(t@),
            None => spec_suggested_boolean_operator(operator) is None,
        },
{
    match operator {
        BinaryOperator::BitwiseAnd => Some("&&"),
        BinaryOperator::BitwiseOr => Some("||"),
        BinaryOperator::BitwiseXor => Some("!=="),
        _ => None,
    }
}

/// `boolean`, a boolean literal, or a union of such.
pub open spec fn spec_is_boolean_like(t: SpecType) -> bool
    decreases type_height(t),
{
    match t {
        SpecType::Boolean | SpecType::BooleanLiteral(_) => true,
        SpecType::Union(ms) => {
            proof {
                lemma_seq_height(ms);
            }
            forall|i: int| 0 <= i < ms.len() ==> spec_is_boolean_like(#[trigger] ms[i])
        },
        _ => false,
    }
}

/// See [`spec_is_boolean_like`].
pub fn is_boolean_like(t: &Type) -> (r: bool)
    ensures
        r == spec_is_boolean_like(t@),
    decreases type_height(t@),
{
    match t {
        Type::Boolean | Type::BooleanLiteral(_) => true,
        Type::Union(ms) => {
            let ghost s = view_types(ms@);
            proof {
                lemma_view_types(ms@);
                lemma_seq_height(s);
            }
            assert(t@ == SpecType::Union(s));
            let mut i: usize = 0;
            while i < ms.len()
                invariant
                    0 <= i <= ms.len(),
                    s == view_types(ms@),
                    s.len() == ms.len(),
                    t@ == SpecType::Union(s),
                    forall|j: int| 0 <= j < ms.len() ==> #[trigger] s[j] == ms@[j]@,
                    forall|j: int| 0 <= j < s.len() ==> type_height(#[trigger] s[j]) <= seq_height(s),
                    forall|j: int| 0 <= j < i ==> spec_is_boolean_like(#[trigger] s[j]),
                decreases ms.len() - i,
            {
                assert(type_height(s[i as int]) <= seq_height(s));
                assert(type_height(ms@[i as int]@) < type_height(t@));
                if !is_boolean_like(&ms[i]) {
                    assert(!spec_is_boolean_like(s[i as int]));
                    return false;
                }
                i = i + 1;
            }
            true
        },
        _ => false,
    }
}

/// Bigint-like: `bigint`, `any`, or a union of such.
pub open spec fn spec_is_bigint_like(t: SpecType) -> bool
    decreases type_height(t),
{
    match t {
        SpecType::BigInt | SpecType::Any => true,
        SpecType::Union(ms) => {
            proof {
                lemma_seq_height(ms);
            }
            forall|i: int| 0 <= i < ms.len() ==> spec_is_bigint_like(#[trigger] ms[i])
        },
        _ => false,
    }
}

/// See [`spec_is_bigint_like`].
pub fn is_bigint_like(t: &Type) -> (r: bool)
    ensures
        r == spec_is_bigint_like(t@),
    decreases type_height(t@),
{
    match t {
        Type::BigInt | Type::Any => true,
        Type::Union(ms) => {
            let ghost s = view_types(ms@);
            proof {
                lemma_view_types(ms@);
                lemma_seq_height(s);
            }
            assert(t@ == SpecType::Union(s));
            let mut i: usize = 0;
            while i < ms.len()
                invariant
                    0 <= i <= ms.len(),
                    s == view_types(ms@),
                    s.len() == ms.len(),
                    t@ == SpecType::Union(s),
                    forall|j: int| 0 <= j < ms.len() ==> #[trigger] s[j] == ms@[j]@,
                    forall|j: int| 0 <= j < s.len() ==> type_height(#[trigger] s[j]) <= seq_height(s),
                    forall|j: int| 0 <= j < i ==> spec_is_bigint_like(#[trigger] s[j]),
                decreases ms.len() - i,
            {
                assert(type_height(s[i as int]) <= seq_height(s));
                assert(type_height(ms@[i as int]@) < type_height(t@));
                if !is_bigint_like(&ms[i]) {
                    assert(!spec_is_bigint_like(s[i as int]));
                    return false;
                }
                i = i + 1;
            }
            true
        },
        _ => false,
    }
}

/// Whether `bigint` is, or is a member of, the type.
pub open spec fn spec_maybe_bigint_like(t: SpecType) -> bool
    decreases type_height(t),
{
    match t {
        SpecType::BigInt => true,
        SpecType::Union(ms) => {
            proof {
                lemma_seq_height(ms);
            }
            exists|i: int| 0 <= i < ms.len() && spec_maybe_bigint_like(#[trigger] ms[i])
        },
        _ => false,
    }
}

/// See [`spec_maybe_bigint_like`].
pub fn maybe_bigint_like(t: &Type) -> (r: bool)
    ensures
        r == spec_maybe_bigint_like(t@),
    decreases type_height(t@),
{
    match t {
        Type::BigInt => true,
        Type::Union(ms) => {
            let ghost s = view_types(ms@);
            proof {
                lemma_view_types(ms@);
                lemma_seq_height(s);
            }
            assert(t@ == SpecType::Union(s));
            let mut i: usize = 0;
            while i < ms.len()
                invariant
                    0 <= i <= ms.len(),
                    s == view_types(ms@),
                    s.len() == ms.len(),
                    t@ == SpecType::Union(s),
                    forall|j: int| 0 <= j < ms.len() ==> #[trigger] s[j] == ms@[j]@,
                    forall|j: int| 0 <= j < s.len() ==> type_height(#[trigger] s[j]) <= seq_height(s),
                    forall|j: int| 0 <= j < i ==> !spec_maybe_bigint_like(#[trigger] s[j]),
                decreases ms.len() - i,
            {
                assert(type_height(s[i as int]) <= seq_height(s));
                assert(type_height(ms@[i as int]@) < type_height(t@));
                if maybe_bigint_like(&ms[i]) {
                    assert(spec_maybe_bigint_like(s[i as int]));
                    return true;
                }
                i = i + 1;
            }
            false
        },
        _ => false,
    }
}


/// The primitive a type is a value of: a primitive itself, a literal's
/// primitive, what a named type (an enum member, an alias) resolves to, and
/// for a union the primitive all of its members share.
pub open spec fn spec_base_primitive(t: SpecType) -> Option<SpecType>
    decreases type_height(t),
{
    match t {
        SpecType::String | SpecType::StringLiteral(_) => Some(SpecType::String),
        SpecType::Number | SpecType::NumberLiteral(_) => Some(SpecType::Number),
        SpecType::Boolean | SpecType::BooleanLiteral(_) => Some(SpecType::Boolean),
        SpecType::BigInt => Some(SpecType::BigInt),
        SpecType::Reference(r) => spec_base_primitive(*r.target),
        SpecType::Union(ms) => {
            proof {
                lemma_seq_height(ms);
            }
            if ms.len() > 0 && forall|i: int|
                0 <= i < ms.len() ==> spec_base_primitive(#[trigger] ms[i]) == spec_base_primitive(
                    ms[0],
                ) {
                spec_base_primitive(ms[0])
            } else {
                None
            }
        },
        _ => None,
    }
}

fn same_primitive(a: &Option<Type>, b: &Option<Type>) -> (r: bool)
    ensures
        r == (crate::types::opt_view(*a) == crate::types::opt_view(*b)),
{
    match (a, b) {
        (Some(x), Some(y)) => type_eq(x, y),
        (None, None) => true,
        _ => false,
    }
}

/// See [`spec_base_primitive`].
pub fn base_primitive(t: &Type) -> (r: Option<Type>)
    ensures
        crate::types::opt_view(r) == spec_base_primitive(t@),
    decreases type_height(t@),
{
    match t {
        Type::String | Type::StringLiteral(_) => Some(Type::String),
        Type::Number | Type::NumberLiteral(_) => Some(Type::Number),
        Type::Boolean | Type::BooleanLiteral(_) => Some(Type::Boolean),
        Type::BigInt => Some(Type::BigInt),
        Type::Reference(r) => {
            let target: &Type = &r.target;
            assert(t@ == SpecType::Reference(crate::types::view_reference(*r)));
            assert(crate::types::view_reference(*r).target == Box::new(target@));
            base_primitive(target)
        },
        Type::Union(ms) => {
            let ghost s = view_types(ms@);
            proof {
                lemma_view_types(ms@);
                lemma_seq_height(s);
            }
            assert(t@ == SpecType::Union(s));
            if ms.len() == 0 {
                return None;
            }
            assert(type_height(s[0]) <= seq_height(s));
            let first = base_primitive(&ms[0]);
            let mut i: usize = 1;
            while i < ms.len()
                invariant
                    1 <= i <= ms.len(),
                    s == view_types(ms@),
                    s.len() == ms.len(),
                    t@ == SpecType::Union(s),
                    crate::types::opt_view(first) == spec_base_primitive(s[0]),
                    forall|j: int| 0 <= j < ms.len() ==> #[trigger] s[j] == ms@[j]@,
                    forall|j: int| 0 <= j < s.len() ==> type_height(#[trigger] s[j]) <= seq_height(s),
                    forall|j: int|
                        0 <= j < i ==> spec_base_primitive(#[trigger] s[j]) == spec_base_primitive(
                            s[0],
                        ),
                decreases ms.len() - i,
            {
                assert(type_height(s[i as int]) <= seq_height(s));
                assert(type_height(ms@[i as int]@) < type_height(t@));
                let b = base_primitive(&ms[i]);
                if !same_primitive(&b, &first) {
                    assert(spec_base_primitive(s[i as int]) != spec_base_primitive(s[0]));
                    return None;
                }
                i = i + 1;
            }
            first
        },
        _ => None,
    }
}

/// A number-like operand of an arithmetic operator: its primitive is `number`
/// (numeric literals and numeric enums included).
pub open spec fn spec_is_number_like_for_arithmetic(t: SpecType) -> bool {
    spec_base_primitive(t) == Some(SpecType::Number)
}

/// See [`spec_is_number_like_for_arithmetic`].
pub fn is_number_like_for_arithmetic(t: &Type) -> (r: bool)
    ensures
        r == spec_is_number_like_for_arithmetic(t@),
{
    match base_primitive(t) {
        Some(Type::Number) => true,
        _ => false,
    }
}

/// An operand an arithmetic operator accepts: `any`, `bigint`, number-like,
/// or a union of such.
pub open spec fn spec_is_valid_arithmetic_operand(t: SpecType) -> bool
    decreases type_height(t),
{
    match t {
        SpecType::Any | SpecType::BigInt => true,
        SpecType::Union(ms) => {
            proof {
                lemma_seq_height(ms);
            }
            forall|i: int| 0 <= i < ms.len() ==> spec_is_valid_arithmetic_operand(#[trigger] ms[i])
        },
        _ => spec_is_number_like_for_arithmetic(t),
    }
}

/// See [`spec_is_valid_arithmetic_operand`].
pub fn is_valid_arithmetic_operand(t: &Type) -> (r: bool)
    ensures
        r == spec_is_valid_arithmetic_operand(t@),
    decreases type_height(t@),
{
    match t {
        Type::Any | Type::BigInt => true,
        Type::Union(ms) => {
            let ghost s = view_types(ms@);
            proof {
                lemma_view_types(ms@);
                lemma_seq_height(s);
            }
            assert(t@ == SpecType::Union(s));
            let mut i: usize = 0;
            while i < ms.len()
                invariant
                    0 <= i <= ms.len(),
                    s == view_types(ms@),
                    s.len() == ms.len(),
                    t@ == SpecType::Union(s),
                    forall|j: int| 0 <= j < ms.len() ==> #[trigger] s[j] == ms@[j]@,
                    forall|j: int| 0 <= j < s.len() ==> type_height(#[trigger] s[j]) <= seq_height(s),
                    forall|j: int| 0 <= j < i ==> spec_is_valid_arithmetic_operand(#[trigger] s[j]),
                decreases ms.len() - i,
            {
                assert(type_height(s[i as int]) <= seq_height(s));
                assert(type_height(ms@[i as int]@) < type_height(t@));
                if !is_valid_arithmetic_operand(&ms[i]) {
                    assert(!spec_is_valid_arithmetic_operand(s[i as int]));
                    return false;
                }
                i = i + 1;
            }
            true
        },
        _ => is_number_like_for_arithmetic(t),
    }
}

/// Whether `symbol` is, or is a member of, the type.
pub open spec fn spec_maybe_symbol(t: SpecType) -> bool
    decreases type_height(t),
{
    match t {
        SpecType::Symbol => true,
        SpecType::Union(ms) => {
            proof {
                lemma_seq_height(ms);
            }
            exists|i: int| 0 <= i < ms.len() && spec_maybe_symbol(#[trigger] ms[i])
        },
        _ => false,
    }
}

fn maybe_symbol(t: &Type) -> (r: bool)
    ensures
        r == spec_maybe_symbol(t@),
    decreases type_height(t@),
{
    match t {
        Type::Symbol => true,
        Type::Union(ms) => {
            let ghost s = view_types(ms@);
            proof {
                lemma_view_types(ms@);
                lemma_seq_height(s);
            }
            assert(t@ == SpecType::Union(s));
            let mut i: usize = 0;
            while i < ms.len()
                invariant
                    0 <= i <= ms.len(),
                    s == view_types(ms@),
                    s.len() == ms.len(),
                    t@ == SpecType::Union(s),
                    forall|j: int| 0 <= j < ms.len() ==> #[trigger] s[j] == ms@[j]@,
                    forall|j: int| 0 <= j < s.len() ==> type_height(#[trigger] s[j]) <= seq_height(s),
                    forall|j: int| 0 <= j < i ==> !spec_maybe_symbol(#[trigger] s[j]),
                decreases ms.len() - i,
            {
                assert(type_height(s[i as int]) <= seq_height(s));
                assert(type_height(ms@[i as int]@) < type_height(t@));
                if maybe_symbol(&ms[i]) {
                    assert(spec_maybe_symbol(s[i as int]));
                    return true;
                }
                i = i + 1;
            }
            false
        },
        _ => false,
    }
}

/// A problem an operator reports about its operands.
#[derive(Debug, PartialEq, Eq)]
pub enum OperatorReport {
    /// `&`, `|` or `^` between two boolean operands, at the operator: the
    /// boolean operator was likely meant (TS2447).
    BooleanBitwise { operator: BinaryOperator, span: Option<TextSpan> },
    /// The left operand of an arithmetic operator is not `any`, number-like
    /// or bigint-like (TS2362).
    LeftOperandNotArithmetic { span: Option<TextSpan> },
    /// The same of the right operand (TS2363).
    RightOperandNotArithmetic { span: Option<TextSpan> },
    /// The operator cannot be applied to the two operand types (TS2365).
    OperandsMismatch { operator: BinaryOperator, left: Type, right: Type, span: Option<TextSpan> },
    /// An operand may be a symbol, which the operator cannot take (TS2469).
    SymbolOperand { operator: BinaryOperator, span: Option<TextSpan> },
}

/// The mathematical value of an [`OperatorReport`].
pub enum SpecOperatorReport {
    BooleanBitwise { operator: BinaryOperator, span: Option<TextSpan> },
    LeftOperandNotArithmetic { span: Option<TextSpan> },
    RightOperandNotArithmetic { span: Option<TextSpan> },
    OperandsMismatch { operator: BinaryOperator, left: SpecType, right: SpecType, span: Option<TextSpan> },
    SymbolOperand { operator: BinaryOperator, span: Option<TextSpan> },
}

impl View for OperatorReport {
    type V = SpecOperatorReport;

    open spec fn view(&self) -> SpecOperatorReport {
        match self {
            OperatorReport::BooleanBitwise { operator, span } => SpecOperatorReport::BooleanBitwise {
                operator: *operator,
                span: *span,
            },
            OperatorReport::LeftOperandNotArithmetic { span } => SpecOperatorReport::LeftOperandNotArithmetic {
                span: *span,
            },
            OperatorReport::RightOperandNotArithmetic { span } => SpecOperatorReport::RightOperandNotArithmetic {
                span: *span,
            },
            OperatorReport::OperandsMismatch { operator, left, right, span } => SpecOperatorReport::OperandsMismatch {
                operator: *operator,
                left: left@,
                right: right@,
                span: *span,
            },
            OperatorReport::SymbolOperand { operator, span } => SpecOperatorReport::SymbolOperand {
                operator: *operator,
                span: *span,
            },
        }
    }
}

/// The views of a sequence of reports.
pub open spec fn view_operator_reports(s: Seq<OperatorReport>) -> Seq<SpecOperatorReport> {
    s.map_values(|r: OperatorReport| r@)
}

/// The symbol report of an operator: at the left operand when it may be a
/// symbol, else at the right one when it may be, else none.
pub open spec fn spec_report_symbol_operand(
    operator: BinaryOperator,
    left: SpecType,
    right: SpecType,
    left_span: Option<TextSpan>,
    right_span: Option<TextSpan>,
) -> Option<SpecOperatorReport> {
    if spec_maybe_symbol(left) {
        Some(SpecOperatorReport::SymbolOperand { operator, span: left_span })
    } else if spec_maybe_symbol(right) {
        Some(SpecOperatorReport::SymbolOperand { operator, span: right_span })
    } else {
        None
    }
}

/// See [`spec_report_symbol_operand`]; `Some` is the report to push.
pub fn report_symbol_operand(
    operator: BinaryOperator,
    left: &Type,
    right: &Type,
    left_span: Option<TextSpan>,
    right_span: Option<TextSpan>,
) -> (r: Option<OperatorReport>)
    ensures
        match r {
            Some(report) => spec_report_symbol_operand(operator, left@, right@, left_span, right_span)
                == Some(report@),
            None => spec_report_symbol_operand(operator, left@, right@, left_span, right_span) is None,
        },
{
    if maybe_symbol(left) {
        Some(OperatorReport::SymbolOperand { operator, span: left_span })
    } else if maybe_symbol(right) {
        Some(OperatorReport::SymbolOperand { operator, span: right_span })
    } else {
        None
    }
}

/// The report that `operator` cannot be applied to the two operands.
pub fn report_operator_error(operator: BinaryOperator, left: &Type, right: &Type, span: Option<TextSpan>) -> (r: OperatorReport)
    ensures
        r@ == (SpecOperatorReport::OperandsMismatch { operator, left: left@, right: right@, span }),
{
    OperatorReport::OperandsMismatch { operator, left: copy_type(left), right: copy_type(right), span }
}


/// The first span that is there.
pub open spec fn spec_span_or(span: Option<TextSpan>, fallback: Option<TextSpan>) -> Option<TextSpan> {
    match span {
        Some(s) => Some(s),
        None => fallback,
    }
}

pub(crate) fn span_or(span: Option<TextSpan>, fallback: Option<TextSpan>) -> (r: Option<TextSpan>)
    ensures
        r == spec_span_or(span, fallback),
{
    match span {
        Some(s) => Some(s),
        None => fallback,
    }
}

/// The operand reports of an arithmetic operator: the left operand's, then
/// the right one's, each when the operand is not valid.
pub open spec fn spec_arithmetic_operand_reports(
    left: SpecType,
    right: SpecType,
    left_span: Option<TextSpan>,
    right_span: Option<TextSpan>,
) -> Seq<SpecOperatorReport> {
    (if spec_is_valid_arithmetic_operand(left) {
        Seq::empty()
    } else {
        seq![SpecOperatorReport::LeftOperandNotArithmetic { span: left_span }]
    }) + (if spec_is_valid_arithmetic_operand(right) {
        Seq::empty()
    } else {
        seq![SpecOperatorReport::RightOperandNotArithmetic { span: right_span }]
    })
}

/// An arithmetic or bitwise operator (`-`, `*`, `/`, `%`, `**`, the shifts,
/// `&`, `|`, `^`) on two inferred operands: its result type (`None` for an
/// unknown result) and its reports, in order.
///
/// Nothing is judged when an operand was not inferred or is a type the
/// checker could not model. Two boolean-like operands of `&`, `|` or `^` are
/// one report at the operator and a `number`. Otherwise each operand that is
/// not `any`, number-like or bigint-like is reported; with no bigint in play
/// the result is `number` when both operands are valid; two bigint-like
/// operands give `bigint` (`>>>` on them is still reported); a bigint mixed
/// with anything else is reported on the whole expression.
pub open spec fn spec_evaluate_arithmetic_binary(
    left_result: InferredExpression,
    right_result: InferredExpression,
    operator: BinaryOperator,
    left_span: Option<TextSpan>,
    operator_span: Option<TextSpan>,
    right_span: Option<TextSpan>,
    fallback_span: Option<TextSpan>,
) -> (Option<SpecType>, Seq<SpecOperatorReport>) {
    match (spec_inferred_type(left_result), spec_inferred_type(right_result)) {
        (Some(l), Some(r)) => if spec_is_unmodelled(l) || spec_is_unmodelled(r) {
            (None, Seq::empty())
        } else if spec_suggested_boolean_operator(operator) is Some && spec_is_boolean_like(l)
            && spec_is_boolean_like(r) {
            (
                Some(SpecType::Number),
                seq![
                    SpecOperatorReport::BooleanBitwise {
                        operator,
                        span: spec_span_or(operator_span, fallback_span),
                    },
                ],
            )
        } else {
            let checks = spec_arithmetic_operand_reports(l, r, left_span, right_span);
            let mismatch = SpecOperatorReport::OperandsMismatch {
                operator,
                left: l,
                right: r,
                span: fallback_span,
            };
            if !spec_maybe_bigint_like(l) && !spec_maybe_bigint_like(r) {
                (
                    if spec_is_valid_arithmetic_operand(l) && spec_is_valid_arithmetic_operand(r) {
                        Some(SpecType::Number)
                    } else {
                        None
                    },
                    checks,
                )
            } else if spec_is_bigint_like(l) && spec_is_bigint_like(r) {
                (
                    Some(SpecType::BigInt),
                    if operator == BinaryOperator::ShiftRightZeroFill {
                        checks.push(mismatch)
                    } else {
                        checks
                    },
                )
            } else {
                (None, checks.push(mismatch))
            }
        },
        _ => (None, Seq::empty()),
    }
}

fn push_report(reports: &mut Vec<OperatorReport>, report: OperatorReport)
    ensures
        view_operator_reports(final(reports)@) == view_operator_reports(old(reports)@).push(report@),
{
    let ghost before = reports@;
    reports.push(report);
    assert(view_operator_reports(reports@) =~= view_operator_reports(before).push(report@));
}

/// See [`spec_evaluate_arithmetic_binary`].
pub fn evaluate_arithmetic_binary(
    left_result: InferredExpression,
    right_result: InferredExpression,
    operator: BinaryOperator,
    left_span: Option<TextSpan>,
    operator_span: Option<TextSpan>,
    right_span: Option<TextSpan>,
    fallback_span: Option<TextSpan>,
) -> (r: (InferredExpression, Vec<OperatorReport>))
    ensures
        r.0 is Known || r.0 is Unknown,
        (spec_inferred_type(r.0), view_operator_reports(r.1@)) == spec_evaluate_arithmetic_binary(
            left_result,
            right_result,
            operator,
            left_span,
            operator_span,
            right_span,
            fallback_span,
        ),
{
    let mut reports: Vec<OperatorReport> = Vec::new();
    assert(view_operator_reports(reports@) =~= Seq::<SpecOperatorReport>::empty());
    let left_type = match inferred_type(&left_result) {
        Some(t) => t,
        None => return (InferredExpression::Unknown, reports),
    };
    let right_type = match inferred_type(&right_result) {
        Some(t) => t,
        None => return (InferredExpression::Unknown, reports),
    };
    if is_unmodelled(left_type) || is_unmodelled(right_type) {
        return (InferredExpression::Unknown, reports);
    }
    if suggested_boolean_operator(operator).is_some() && is_boolean_like(left_type) && is_boolean_like(
        right_type,
    ) {
        push_report(
            &mut reports,
            OperatorReport::BooleanBitwise { operator, span: span_or(operator_span, fallback_span) },
        );
        return (InferredExpression::Known(Type::Number), reports);
    }
    let left_valid = is_valid_arithmetic_operand(left_type);
    let right_valid = is_valid_arithmetic_operand(right_type);
    if !left_valid {
        push_report(&mut reports, OperatorReport::LeftOperandNotArithmetic { span: left_span });
    }
    if !right_valid {
        push_report(&mut reports, OperatorReport::RightOperandNotArithmetic { span: right_span });
    }
    assert(view_operator_reports(reports@) =~= spec_arithmetic_operand_reports(
        left_type@,
        right_type@,
        left_span,
        right_span,
    ));
    if !maybe_bigint_like(left_type) && !maybe_bigint_like(right_type) {
        if left_valid && right_valid {
            return (InferredExpression::Known(Type::Number), reports);
        }
        return (InferredExpression::Unknown, reports);
    }
    if is_bigint_like(left_type) && is_bigint_like(right_type) {
        if operator == BinaryOperator::ShiftRightZeroFill {
            push_report(&mut reports, report_operator_error(operator, left_type, right_type, fallback_span));
        }
        return (InferredExpression::Known(Type::BigInt), reports);
    }
    push_report(&mut reports, report_operator_error(operator, left_type, right_type, fallback_span));
    (InferredExpression::Unknown, reports)
}


/// An operand of `<`, `>`, `<=` or `>=` as the comparison reads it: a literal
/// as its primitive, an enum (or enum member) as the values it resolves to,
/// a union member by member.
pub open spec fn spec_widen_literal_for_comparison(t: SpecType) -> SpecType
    decreases type_height(t), 0nat, 0nat,
{
    match t {
        SpecType::StringLiteral(_) => SpecType::String,
        SpecType::NumberLiteral(_) => SpecType::Number,
        SpecType::BooleanLiteral(_) => SpecType::Boolean,
        SpecType::Union(ms) => spec_union(spec_widen_all_for_comparison(ms)),
        SpecType::Reference(r) => if r.enum_owner {
            proof {
                crate::types::lemma_peel_height(*r.target);
            }
            spec_widen_literal_for_comparison(crate::types::spec_peel(*r.target))
        } else {
            t
        },
        _ => t,
    }
}

/// [`spec_widen_literal_for_comparison`] of each member, in order.
pub open spec fn spec_widen_all_for_comparison(s: Seq<SpecType>) -> Seq<SpecType>
    decreases seq_height(s), 1nat, s.len(),
{
    if s.len() == 0 {
        Seq::empty()
    } else {
        proof {
            lemma_seq_height(s);
        }
        spec_widen_all_for_comparison(s.drop_last()).push(
            spec_widen_literal_for_comparison(s.last()),
        )
    }
}

/// See [`spec_widen_literal_for_comparison`].
pub fn widen_literal_for_comparison(t: &Type) -> (r: Type)
    ensures
        r@ == spec_widen_literal_for_comparison(t@),
    decreases type_height(t@),
{
    match t {
        Type::StringLiteral(_) => Type::String,
        Type::NumberLiteral(_) => Type::Number,
        Type::BooleanLiteral(_) => Type::Boolean,
        Type::Union(ms) => {
            let ghost s = view_types(ms@);
            proof {
                lemma_view_types(ms@);
                lemma_seq_height(s);
            }
            assert(t@ == SpecType::Union(s));
            let mut widened: Vec<Type> = Vec::new();
            let mut i: usize = 0;
            while i < ms.len()
                invariant
                    0 <= i <= ms.len(),
                    s == view_types(ms@),
                    s.len() == ms.len(),
                    t@ == SpecType::Union(s),
                    forall|j: int| 0 <= j < ms.len() ==> #[trigger] s[j] == ms@[j]@,
                    forall|j: int| 0 <= j < s.len() ==> type_height(#[trigger] s[j]) <= seq_height(s),
                    view_types(widened@) == spec_widen_all_for_comparison(s.take(i as int)),
                decreases ms.len() - i,
            {
                assert(type_height(s[i as int]) <= seq_height(s));
                assert(type_height(ms@[i as int]@) < type_height(t@));
                let w = widen_literal_for_comparison(&ms[i]);
                proof {
                    crate::types::lemma_view_types_push(widened@, w);
                    assert(s.take(i + 1).drop_last() =~= s.take(i as int));
                    assert(s.take(i + 1).last() == s[i as int]);
                }
                widened.push(w);
                i = i + 1;
            }
            assert(s.take(ms.len() as int) =~= s);
            union_of(widened)
        },
        Type::Reference(r) => {
            if r.enum_owner {
                let target: &Type = &r.target;
                assert(t@ == SpecType::Reference(crate::types::view_reference(*r)));
                assert(crate::types::view_reference(*r).target == Box::new(target@));
                proof {
                    crate::types::lemma_peel_height(target@);
                }
                let p = crate::types::peeled(target);
                widen_literal_for_comparison(p)
            } else {
                copy_type(t)
            }
        },
        _ => copy_type(t),
    }
}

} // verus!
