//! The diagnostic accumulator: a best-effort value, a piece of state and a
//! collection of errors, combined so that the errors of every part are kept.

pub mod neutral;
pub mod semigroup;
pub mod singleton;

use std::ops::Add;
use vstd::prelude::*;
use vstd::std_specs::ops::AddSpecImpl;

pub use neutral::Neutral;
pub use semigroup::Semigroup;
pub use singleton::{empty, Empty, Singleton};

verus! {

#[derive(Debug)]
pub struct MultiResult<T, S, E> {
    pub result: T,
    pub state: S,
    pub errors: E,
}

impl<T, S, E> MultiResult<T, S, E> {
    /// A value with the state made from `state` and no error.
    pub fn ok<S1>(result: T, state: S1) -> (r: MultiResult<T, S, E>) where
        S: Singleton<S1>,
        E: Default,

        ensures
            r.result == result,
            S::made_from(state, r.state),
            call_ensures(E::default, (), r.errors),
    {
        MultiResult { result, state: S::single(state), errors: E::default() }
    }

    /// A surrogate value with the default state and the one error that
    /// called for it.
    pub fn err<E1>(result: T, error: E1) -> (r: MultiResult<T, S, E>) where
        S: Default,
        E: Singleton<E1>,

        ensures
            r.result == result,
            call_ensures(S::default, (), r.state),
            E::made_from(error, r.errors),
    {
        MultiResult { result, state: S::default(), errors: E::single(error) }
    }

    /// A value with the state made from `state` and the one error `error`.
    pub fn new<S1, E1>(result: T, state: S1, error: E1) -> (r: MultiResult<T, S, E>) where
        S: Singleton<S1>,
        E: Singleton<E1>,

        ensures
            r.result == result,
            S::made_from(state, r.state),
            E::made_from(error, r.errors),
    {
        MultiResult { result, state: S::single(state), errors: E::single(error) }
    }

    /// The default value with the default state and the one error `item`.
    pub fn item<E1>(item: E1) -> (r: MultiResult<T, S, E>) where
        T: Default,
        S: Default,
        E: Singleton<E1>,

        ensures
            call_ensures(T::default, (), r.result),
            call_ensures(S::default, (), r.state),
            E::made_from(item, r.errors),
    {
        MultiResult { result: T::default(), state: S::default(), errors: E::single(item) }
    }

    /// Applies `f` to the value; state and errors stay as they are.
    pub fn map<U, F: FnOnce(T) -> U>(self, f: F) -> (r: MultiResult<U, S, E>)
        requires
            f.requires((self.result,)),
        ensures
            f.ensures((self.result,), r.result),
            r.state == self.state,
            r.errors == self.errors,
    {
        MultiResult { result: f(self.result), state: self.state, errors: self.errors }
    }

    /// Runs `f` on the value; the state and the errors of `f` follow those
    /// of `self`.
    pub fn then<U, F: FnOnce(T) -> MultiResult<U, S, E>>(self, f: F) -> (r: MultiResult<
        U,
        S,
        E,
    >) where S: Semigroup, E: Semigroup
        requires
            f.requires((self.result,)),
        ensures
            exists|next: MultiResult<U, S, E>| #[trigger]
                f.ensures((self.result,), next) && r.result == next.result && self.state.joined(
                    next.state,
                    r.state,
                ) && self.errors.joined(next.errors, r.errors),
    {
        let MultiResult { result, state, errors } = f(self.result);
        MultiResult { result, state: self.state.app(state), errors: self.errors.app(errors) }
    }

    /// Both values side by side; state and errors of `rhs` follow those of
    /// `self`, so that the errors of both sides are kept.
    pub fn pair<U>(self, rhs: MultiResult<U, S, E>) -> (r: MultiResult<(T, U), S, E>) where
        S: Semigroup,
        E: Semigroup,

        ensures
            r.result == (self.result, rhs.result),
            self.state.joined(rhs.state, r.state),
            self.errors.joined(rhs.errors, r.errors),
    {
        MultiResult {
            result: (self.result, rhs.result),
            state: self.state.app(rhs.state),
            errors: self.errors.app(rhs.errors),
        }
    }
}

impl<T, E: Neutral> MultiResult<T, (), E> {
    /// The value where no error was collected, the errors otherwise.
    pub fn into_result(self) -> (r: Result<T, E>)
        ensures
            match r {
                Ok(value) => self.errors.neutral() && value == self.result,
                Err(errors) => !self.errors.neutral() && errors == self.errors,
            },
    {
        if self.errors.is_neutral() {
            Ok(self.result)
        } else {
            Err(self.errors)
        }
    }
}

/// `left + right` pairs the two, as `pair` does.
impl<T, U, S: Semigroup, E: Semigroup> Add<MultiResult<U, S, E>> for MultiResult<T, S, E> {
    type Output = MultiResult<(T, U), S, E>;

    fn add(self, rhs: MultiResult<U, S, E>) -> (r: MultiResult<(T, U), S, E>)
        ensures
            r.result == (self.result, rhs.result),
            self.state.joined(rhs.state, r.state),
            self.errors.joined(rhs.errors, r.errors),
    {
        self.pair(rhs)
    }
}

/// The sum has no closed form, since state and errors join by a relation:
/// what it is stands in the contract of `add`.
impl<T, U, S: Semigroup, E: Semigroup> AddSpecImpl<MultiResult<U, S, E>> for MultiResult<T, S, E> {
    open spec fn obeys_add_spec() -> bool {
        false
    }

    open spec fn add_req(self, rhs: MultiResult<U, S, E>) -> bool {
        true
    }

    open spec fn add_spec(self, rhs: MultiResult<U, S, E>) -> MultiResult<(T, U), S, E> {
        arbitrary()
    }
}

} // verus!
