use std::ops::Add;
use vstd::prelude::*;
use vstd::std_specs::ops::AddSpecImpl;

use crate::typeck::error::TypeckError;

verus! {

/// A best-effort value together with the typing errors met on the way to
/// it, in the order in which they were met.
#[derive(Debug, PartialEq, Eq)]
pub struct TypeckResult<T>(pub T, pub Vec<TypeckError>);

impl<T> TypeckResult<T> {
    /// A value reached without an error.
    pub fn ok(value: T) -> (r: TypeckResult<T>)
        ensures
            r.0 == value,
            r.1@ == Seq::<TypeckError>::empty(),
    {
        TypeckResult(value, Vec::new())
    }

    /// A surrogate value and the one error that called for it.
    pub fn new(result: T, error: TypeckError) -> (r: TypeckResult<T>)
        ensures
            r.0 == result,
            r.1@ == seq![error],
    {
        let mut errors = Vec::new();
        errors.push(error);
        TypeckResult(result, errors)
    }

    /// Applies `f` to the value and leaves the errors as they are.
    pub fn map<U, F: FnOnce(T) -> U>(self, f: F) -> (r: TypeckResult<U>)
        requires
            f.requires((self.0,)),
        ensures
            f.ensures((self.0,), r.0),
            r.1@ == self.1@,
    {
        let TypeckResult(value, errors) = self;
        TypeckResult(f(value), errors)
    }

    /// Runs `f` on the value; the errors of `f` follow the earlier ones.
    pub fn then<U, F: FnOnce(T) -> TypeckResult<U>>(self, f: F) -> (r: TypeckResult<U>)
        requires
            f.requires((self.0,)),
        ensures
            exists|next: TypeckResult<U>| #[trigger]
                f.ensures((self.0,), next) && r.0 == next.0 && r.1@ == self.1@ + next.1@,
    {
        let TypeckResult(value, mut errors) = self;
        let next = f(value);
        let TypeckResult(value, mut new_errors) = next;
        errors.append(&mut new_errors);
        TypeckResult(value, errors)
    }

    /// Both values side by side; the errors of `rhs` follow those of `self`.
    pub fn pair<U>(self, rhs: TypeckResult<U>) -> (r: TypeckResult<(T, U)>)
        ensures
            r.0 == (self.0, rhs.0),
            r.1@ == self.1@ + rhs.1@,
    {
        let TypeckResult(left, mut errors) = self;
        let TypeckResult(right, mut new_errors) = rhs;
        errors.append(&mut new_errors);
        TypeckResult((left, right), errors)
    }

    /// The value if no error was met, the errors otherwise.
    pub fn into_result(self) -> (r: Result<T, Vec<TypeckError>>)
        ensures
            match r {
                Ok(value) => self.1@.len() == 0 && value == self.0,
                Err(errors) => self.1@.len() > 0 && errors@ == self.1@,
            },
    {
        let TypeckResult(value, errors) = self;
        if errors.len() == 0 {
            Ok(value)
        } else {
            Err(errors)
        }
    }
}

/// `left + right` pairs the two, as `pair` does.
impl<T, U> Add<TypeckResult<U>> for TypeckResult<T> {
    type Output = TypeckResult<(T, U)>;

    fn add(self, rhs: TypeckResult<U>) -> (r: TypeckResult<(T, U)>)
        ensures
            r.0 == (self.0, rhs.0),
            r.1@ == self.1@ + rhs.1@,
    {
        self.pair(rhs)
    }
}

/// The sum has no closed form, since a list is known by its view alone:
/// what it is stands in the contract of `add`.
impl<T, U> AddSpecImpl<TypeckResult<U>> for TypeckResult<T> {
    open spec fn obeys_add_spec() -> bool {
        false
    }

    open spec fn add_req(self, rhs: TypeckResult<U>) -> bool {
        true
    }

    open spec fn add_spec(self, rhs: TypeckResult<U>) -> TypeckResult<(T, U)> {
        arbitrary()
    }
}

} // verus!
