//! The types of expressions and the type checker's interface.
use vstd::prelude::*;

verus! {

/// The type of an expression.
#[derive(Debug, PartialEq, Eq)]
pub enum Type {
    /// Integers.
    Int,
    /// Floats.
    Float,
    /// Strings.
    String,
    /// Booleans.
    Bool,
    /// Functions from the first type to the second.
    Function(Box<Type>, Box<Type>),
    /// The type of expressions that give no value.
    Unit,
    /// Not yet inferred.
    Unknown,
    /// The type given to an expression that failed to check.
    Error,
}

/// The types of the variables in scope (none are tracked yet).
#[derive(Debug, Default)]
pub struct TypeEnvironment {}

/// The outcome of checking an expression.
#[derive(Debug)]
pub enum TypeCheckResult {
    /// The expression has this type.
    Success(Type),
    /// The expression does not check, for this reason.
    Failure(String),
}

/// The type checker.
pub struct TypeChecker {}

impl TypeChecker {
    /// A type checker.
    pub fn new() -> (r: Self) {
        TypeChecker {}
    }

    /// Checks an expression. No type is inferred yet: every expression
    /// checks, with the type `Unknown`.
    pub fn check_expression(&self) -> (r: TypeCheckResult)
        ensures
            r matches TypeCheckResult::Success(Type::Unknown),
    {
        TypeCheckResult::Success(Type::Unknown)
    }
}

} // verus!
