//! The expression forms a guard condition is read from.

use vstd::prelude::*;

verus! {

/// A range of source text, by offsets.
#[derive(PartialEq, Eq, Structural, Clone, Copy, Debug)]
pub struct TextSpan {
    pub start: u32,
    pub end: u32,
}

/// A prefix operator.
#[derive(PartialEq, Eq, Structural, Clone, Copy, Debug)]
pub enum UnaryOperator {
    /// `!`
    Not,
    /// `typeof`
    Typeof,
    /// `-`
    Minus,
    /// `+`
    Plus,
    /// `void`
    Void,
}

/// An infix operator other than the short-circuiting ones.
#[derive(PartialEq, Eq, Structural, Clone, Copy, Debug)]
pub enum BinaryOperator {
    /// `===`
    StrictEquals,
    /// `!==`
    StrictNotEquals,
    /// `==`
    Equals,
    /// `!=`
    NotEquals,
    /// `instanceof`
    Instanceof,
    /// `in`
    In,
    /// `<`
    Less,
    /// `<=`
    LessEquals,
    /// `>`
    Greater,
    /// `>=`
    GreaterEquals,
    /// `+`
    Add,
    /// `-`
    Subtract,
    /// `*`
    Multiply,
    /// `/`
    Divide,
    /// `%`
    Remainder,
    /// `**`
    Exponential,
    /// `<<`
    ShiftLeft,
    /// `>>`
    ShiftRight,
    /// `>>>`
    ShiftRightZeroFill,
    /// `&`
    BitwiseAnd,
    /// `|`
    BitwiseOr,
    /// `^`
    BitwiseXor,
}

/// A short-circuiting operator.
#[derive(PartialEq, Eq, Structural, Clone, Copy, Debug)]
pub enum LogicalOperator {
    /// `&&`
    And,
    /// `||`
    Or,
    /// `??`
    Coalesce,
}

/// An expression as a guard condition holds it.
#[allow(inconsistent_fields)]
pub enum Expr {
    Identifier(String),
    This,
    StringLiteral(String),
    /// A number literal, by its source spelling.
    NumberLiteral(String),
    BooleanLiteral(bool),
    NullLiteral,
    UndefinedLiteral,
    Unary { operator: UnaryOperator, operand: Box<Expr> },
    Binary { left: Box<Expr>, operator: BinaryOperator, right: Box<Expr> },
    Logical { left: Box<Expr>, operator: LogicalOperator, right: Box<Expr> },
    /// `object.property_name`
    PropertyAccess { object: Box<Expr>, property_name: String },
    /// `object?.property_name`
    OptionalPropertyAccess { object: Box<Expr>, property_name: String },
    /// `callee_name<type_arguments>(arguments)`
    Call { callee_name: String, type_argument_count: usize, arguments: Vec<Expr> },
    /// `object.property_name<type_arguments>(arguments)`
    PropertyCall { object: Box<Expr>, property_name: String, type_argument_count: usize, arguments: Vec<Expr> },
    /// `object_name[index]` on a bare name.
    IndexAccess { object_name: String, index: Box<Expr> },
    /// `object[index]`
    ElementAccess { object: Box<Expr>, index: Box<Expr> },
    /// `object?.[index]`
    OptionalIndexAccess { object: Box<Expr>, index: Box<Expr> },
    /// `expression!`
    NonNullAssertion(Box<Expr>),
    /// A bigint literal, by its source spelling.
    BigIntLiteral(String),
    /// A template literal.
    TemplateLiteral,
    /// An object literal.
    ObjectLiteral,
    /// `[elements]`.
    ArrayLiteral { elements: Vec<ArrayLiteralElement> },
    /// `condition ? when_true : when_false`
    Conditional { condition: Box<Expr>, when_true: Box<Expr>, when_false: Box<Expr> },
    /// An expression form guards never read.
    Unknown,
}

/// An element of an array literal: `...expression` when `spread`.
pub struct ArrayLiteralElement {
    pub expression: Expr,
    pub spread: bool,
}

/// The polarity of an equality operator: `Some(true)` for `===`/`==`,
/// `Some(false)` for `!==`/`!=`, `None` for any other operator.
pub open spec fn spec_equality_polarity(op: BinaryOperator) -> Option<bool> {
    match op {
        BinaryOperator::StrictEquals | BinaryOperator::Equals => Some(true),
        BinaryOperator::StrictNotEquals | BinaryOperator::NotEquals => Some(false),
        _ => None,
    }
}

/// See [`spec_equality_polarity`].
pub fn equality_polarity(op: BinaryOperator) -> (r: Option<bool>)
    ensures
        r == spec_equality_polarity(op),
{
    match op {
        BinaryOperator::StrictEquals | BinaryOperator::Equals => Some(true),
        BinaryOperator::StrictNotEquals | BinaryOperator::NotEquals => Some(false),
        _ => None,
    }
}


} // verus!
