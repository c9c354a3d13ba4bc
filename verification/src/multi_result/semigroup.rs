use vstd::prelude::*;

verus! {

/// Collections that can be appended to one another.
pub trait Semigroup: Sized {
    /// Whether `out` is `self` followed by `other`.
    spec fn joined(self, other: Self, out: Self) -> bool;

    fn app(self, other: Self) -> (out: Self)
        ensures
            self.joined(other, out),
    ;
}

impl Semigroup for () {
    open spec fn joined(self, other: Self, out: Self) -> bool {
        true
    }

    fn app(self, other: Self) -> (out: Self) {
    }
}

impl<T: Semigroup, U: Semigroup> Semigroup for (T, U) {
    open spec fn joined(self, other: Self, out: Self) -> bool {
        self.0.joined(other.0, out.0) && self.1.joined(other.1, out.1)
    }

    fn app(self, other: Self) -> (out: Self) {
        (self.0.app(other.0), self.1.app(other.1))
    }
}

/// A list joins by concatenation: what came first stays first.
impl<T> Semigroup for Vec<T> {
    open spec fn joined(self, other: Self, out: Self) -> bool {
        out@ == self@ + other@
    }

    fn app(self, other: Self) -> (out: Self) {
        let mut out = self;
        let mut rest = other;
        out.append(&mut rest);
        out
    }
}

} // verus!
