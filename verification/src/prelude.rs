//! Pairing of results: both values where both sides succeeded, and the
//! errors of every side that failed.

use vstd::prelude::*;

use crate::multi_result::Semigroup;

verus! {

pub trait Pair<T>: Sized {
    type Output;

    /// Whether `out` is the pairing of `self` with `other`.
    spec fn paired(self, other: T, out: Self::Output) -> bool;

    fn pair(self, other: T) -> (out: Self::Output)
        ensures
            self.paired(other, out),
    ;
}

impl<T, U, E: Semigroup> Pair<Result<U, E>> for Result<T, E> {
    type Output = Result<(T, U), E>;

    open spec fn paired(self, other: Result<U, E>, out: Result<(T, U), E>) -> bool {
        match (self, other) {
            (Ok(left), Ok(right)) => out == Ok::<(T, U), E>((left, right)),
            (Err(error), Ok(_)) => out == Err::<(T, U), E>(error),
            (Ok(_), Err(error)) => out == Err::<(T, U), E>(error),
            (Err(left), Err(right)) => out is Err && left.joined(right, out->Err_0),
        }
    }

    fn pair(self, other: Result<U, E>) -> (out: Result<(T, U), E>) {
        match (self, other) {
            (Ok(left), Ok(right)) => Ok((left, right)),
            (Err(error), Ok(_)) => Err(error),
            (Ok(_), Err(error)) => Err(error),
            (Err(left), Err(right)) => Err(left.app(right)),
        }
    }
}

} // verus!
