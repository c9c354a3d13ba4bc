use std::marker::PhantomData;
use vstd::prelude::*;

verus! {

/// Collections that can be made from one element of type `T`.
pub trait Singleton<T>: Sized {
    /// Whether `out` is the collection made from `elem` alone.
    spec fn made_from(elem: T, out: Self) -> bool;

    fn single(elem: T) -> (out: Self)
        ensures
            Self::made_from(elem, out),
    ;
}

/// The element from which the default value of `T` is made.
pub struct Empty<T>(pub PhantomData<T>);

pub fn empty<T>() -> Empty<T> {
    Empty(PhantomData)
}

impl<T: Default> Singleton<Empty<T>> for T {
    open spec fn made_from(elem: Empty<T>, out: Self) -> bool {
        call_ensures(T::default, (), out)
    }

    fn single(elem: Empty<T>) -> (out: Self) {
        T::default()
    }
}

impl<T: Singleton<T1>, U: Singleton<U1>, T1, U1> Singleton<(T1, U1)> for (T, U) {
    open spec fn made_from(elem: (T1, U1), out: Self) -> bool {
        T::made_from(elem.0, out.0) && U::made_from(elem.1, out.1)
    }

    fn single(elem: (T1, U1)) -> (out: Self) {
        (T::single(elem.0), U::single(elem.1))
    }
}

impl<T> Singleton<T> for Vec<T> {
    open spec fn made_from(elem: T, out: Self) -> bool {
        out@ == seq![elem]
    }

    fn single(elem: T) -> (out: Self) {
        let mut out = Vec::new();
        out.push(elem);
        out
    }
}

} // verus!
