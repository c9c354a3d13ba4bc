use vstd::prelude::*;

verus! {

/// Collections that can tell whether they hold anything.
pub trait Neutral {
    /// Whether the collection holds nothing.
    spec fn neutral(&self) -> bool;

    fn is_neutral(&self) -> (b: bool)
        ensures
            b == self.neutral(),
    ;
}

impl Neutral for () {
    open spec fn neutral(&self) -> bool {
        true
    }

    fn is_neutral(&self) -> (b: bool) {
        true
    }
}

impl<T: Neutral, U: Neutral> Neutral for (T, U) {
    open spec fn neutral(&self) -> bool {
        self.0.neutral() && self.1.neutral()
    }

    fn is_neutral(&self) -> (b: bool) {
        self.0.is_neutral() && self.1.is_neutral()
    }
}

impl<T> Neutral for Vec<T> {
    open spec fn neutral(&self) -> bool {
        self@.len() == 0
    }

    fn is_neutral(&self) -> (b: bool) {
        self.len() == 0
    }
}

} // verus!
