use vstd::prelude::*;
use vstd::std_specs::convert::FromSpecImpl;

verus! {

/// An identifier: the position of a binder's source name in the name table.
#[derive(Clone, Copy, Debug, PartialEq, Eq, Structural, Hash)]
pub struct Var(pub usize);

/// The name table: the source name of every identifier, in the order in
/// which the identifiers were made.
#[derive(Debug)]
pub struct Names(Vec<String>);

/// Values that can be written out with the help of a name table.
pub trait Named {
    /// Whether every identifier the value mentions has a name in `names`.
    spec fn named_by(&self, names: &Names) -> bool;

    /// The text the value is written as.
    spec fn rendering(&self, names: &Names) -> Seq<char>;

    fn pprint(&self, names: &Names) -> (text: String)
        requires
            self.named_by(names),
        ensures
            text@ == self.rendering(names),
    ;
}

impl From<usize> for Var {
    fn from(id: usize) -> (var: Self) {
        Var(id)
    }
}

impl FromSpecImpl<usize> for Var {
    open spec fn obeys_from_spec() -> bool {
        true
    }

    open spec fn from_spec(id: usize) -> Self {
        Var(id)
    }
}

impl View for Names {
    type V = Seq<Seq<char>>;

    closed spec fn view(&self) -> Seq<Seq<char>> {
        Seq::new(self.0@.len(), |i: int| self.0@[i]@)
    }
}

impl Default for Names {
    fn default() -> (names: Self)
        ensures
            names@ == Seq::<Seq<char>>::empty(),
    {
        let names = Names(Vec::new());
        assert(names@ =~= Seq::<Seq<char>>::empty());
        names
    }
}

impl Names {
    /// The number of identifiers made so far.
    pub fn len(&self) -> (n: usize)
        ensures
            n == self@.len(),
    {
        self.0.len()
    }

    /// Makes the next identifier and records `name` as its source name.
    pub fn push(&mut self, name: String) -> (var: Var)
        ensures
            final(self)@ == old(self)@.push(name@),
            var.0 == old(self)@.len(),
    {
        self.0.push(name);
        assert(self@ =~= old(self)@.push(name@));
        Var(self.0.len() - 1)
    }

    /// The source name of `var`.
    pub fn name(&self, var: Var) -> (name: &String)
        requires
            var.0 < self@.len(),
        ensures
            name@ == self@[var.0 as int],
    {
        &self.0[var.0]
    }
}

} // verus!
