use vstd::prelude::*;
use vstd::std_specs::convert::FromSpecImpl;

use crate::text::{decimal, digits};

verus! {

/// A fresh type unknown. Two unknowns are the same exactly when their
/// numbers are.
#[derive(Clone, Copy, Debug, PartialEq, Eq, Structural, Hash)]
pub struct Alpha(pub usize);

/// The counter from which type unknowns are drawn. Its view is the number of
/// the unknown handed out last.
#[derive(Debug)]
pub struct AlphaGen(usize);

impl View for AlphaGen {
    type V = nat;

    closed spec fn view(&self) -> nat {
        self.0 as nat
    }
}

impl From<usize> for Alpha {
    fn from(num: usize) -> (alpha: Self) {
        Alpha(num)
    }
}

impl FromSpecImpl<usize> for Alpha {
    open spec fn obeys_from_spec() -> bool {
        true
    }

    open spec fn from_spec(num: usize) -> Self {
        Alpha(num)
    }
}

impl Alpha {
    /// The unknown as text: an underscore and its number.
    pub fn to_string(&self) -> (text: String)
        ensures
            text@ == seq!['_'] + digits(self.0 as nat),
    {
        let mut text = String::new();
        text.push('_');
        let number = decimal(self.0);
        text.append(number.as_str());
        assert(text@ =~= seq!['_'] + digits(self.0 as nat));
        text
    }
}

impl Default for AlphaGen {
    fn default() -> (gen: Self)
        ensures
            gen@ == 0,
    {
        AlphaGen(0)
    }
}

impl AlphaGen {
    /// A counter that continues after `last`.
    pub fn starting_after(last: usize) -> (gen: Self)
        ensures
            gen@ == last,
    {
        AlphaGen(last)
    }

    /// The number of the unknown handed out last.
    pub fn last(&self) -> (n: usize)
        ensures
            n == self@,
    {
        self.0
    }

    /// Whether another unknown can be drawn.
    pub fn has_next(&self) -> (b: bool)
        ensures
            b == (self@ < usize::MAX),
    {
        self.0 < usize::MAX
    }

    /// Draws the next unknown: the counter advances by one and the unknown
    /// carries the new count, so it differs from every earlier one.
    pub fn next(&mut self) -> (alpha: Alpha)
        requires
            old(self)@ < usize::MAX,
        ensures
            final(self)@ == old(self)@ + 1,
            alpha.0 == final(self)@,
    {
        self.0 = self.0 + 1;
        Alpha(self.0)
    }
}

} // verus!
