use vstd::prelude::*;

use crate::syntax::ty::Type;

verus! {

/// What the type checker can find wrong at an application.
#[derive(Clone, Debug, PartialEq, Eq)]
pub enum TypeckError {
    /// A term of this type was applied to an argument, and the type is no
    /// arrow.
    NotAFunction(Type),
    /// A term of this type was applied to a type, and the type is no
    /// quantified type.
    NotAForall(Type),
    /// A function that expects the first type was given an argument of the
    /// second.
    NotEqual(Type, Type),
}

} // verus!
