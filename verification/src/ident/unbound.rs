use vstd::prelude::*;

use crate::multi_result::{Neutral, Semigroup, Singleton};

verus! {

/// The names that were used and bound nowhere. Each is held once, in the
/// order in which the names were first met.
#[derive(Debug)]
pub struct Unbound(Vec<String>);

/// The text of the names of `list` from position `from` on, one line for
/// each.
pub open spec fn unbound_lines(list: Seq<Seq<char>>, from: int) -> Seq<char>
    decreases list.len() - from,
{
    if 0 <= from < list.len() {
        "Unbound name: "@ + list[from] + "\n"@ + unbound_lines(list, from + 1)
    } else {
        Seq::empty()
    }
}

proof fn lemma_push_to_set(list: Seq<Seq<char>>, name: Seq<char>)
    ensures
        list.push(name).to_set() =~= list.to_set().insert(name),
{
    let longer = list.push(name);
    assert forall|n: Seq<char>| longer.to_set().contains(n) <==> list.to_set().insert(
        name,
    ).contains(n) by {
        if longer.contains(n) {
            let i = choose|i: int| 0 <= i < longer.len() && longer[i] == n;
            if i < list.len() {
                assert(list[i] == n);
            }
        }
        if list.contains(n) {
            let i = choose|i: int| 0 <= i < list.len() && list[i] == n;
            assert(longer[i] == n);
        }
        if n == name {
            assert(longer[list.len() as int] == n);
        }
    }
}

impl Unbound {
    #[verifier::type_invariant]
    spec fn held_once(self) -> bool {
        self.listing().no_duplicates()
    }

    /// The names, in the order in which they were first met.
    pub closed spec fn listing(&self) -> Seq<Seq<char>> {
        Seq::new(self.0@.len(), |i: int| self.0@[i]@)
    }

    /// The collection without a name.
    pub fn new() -> (set: Unbound)
        ensures
            set@ == Set::<Seq<char>>::empty(),
            set.listing() == Seq::<Seq<char>>::empty(),
    {
        let names: Vec<String> = Vec::new();
        assert(Seq::new(names@.len(), |i: int| names@[i]@) =~= Seq::<Seq<char>>::empty());
        let set = Unbound(names);
        assert(set@ =~= Set::<Seq<char>>::empty());
        set
    }

    /// Whether the collection holds `name`.
    pub fn contains(&self, name: &String) -> (found: bool)
        ensures
            found == self@.contains(name@),
    {
        let mut i: usize = 0;
        while i < self.0.len()
            invariant
                i <= self.0.len(),
                forall|j: int| 0 <= j < i ==> self.listing()[j] != name@,
            decreases self.0.len() - i,
        {
            if self.0[i] == *name {
                assert(self.listing()[i as int] == name@);
                return true;
            }
            i = i + 1;
        }
        false
    }

    /// The collection with `name` added, unless it holds the name already.
    pub fn insert(self, name: String) -> (out: Unbound)
        ensures
            out@ == self@.insert(name@),
            out.listing() == (if self@.contains(name@) {
                self.listing()
            } else {
                self.listing().push(name@)
            }),
    {
        proof {
            use_type_invariant(&self);
        }
        if !self.contains(&name) {
            proof {
                lemma_push_to_set(self.listing(), name@);
            }
            let mut names = self.0;
            names.push(name);
            assert(Seq::new(names@.len(), |i: int| names@[i]@) =~= self.listing().push(name@));
            Unbound(names)
        } else {
            assert(self@ =~= self@.insert(name@));
            self
        }
    }

    /// The number of names held; no name is counted twice.
    pub fn len(&self) -> (n: usize)
        ensures
            n == self.listing().len(),
            self.listing().no_duplicates(),
            self.listing().to_set() == self@,
    {
        proof {
            use_type_invariant(self);
        }
        self.0.len()
    }

    /// One line for each name: the words `Unbound name: `, the name and a
    /// line break.
    pub fn to_string(&self) -> (text: String)
        ensures
            text@ == unbound_lines(self.listing(), 0),
    {
        let mut text = String::new();
        let mut i: usize = self.0.len();
        assert(unbound_lines(self.listing(), i as int) =~= Seq::<char>::empty());
        while i > 0
            invariant
                i <= self.0.len(),
                text@ == unbound_lines(self.listing(), i as int),
            decreases i,
        {
            i = i - 1;
            let mut line = String::from_str("Unbound name: ");
            line.append(self.0[i].as_str());
            line.append("\n");
            line.append(text.as_str());
            assert(self.listing()[i as int] == self.0@[i as int]@);
            assert(line@ =~= unbound_lines(self.listing(), i as int));
            text = line;
        }
        text
    }
}

impl View for Unbound {
    type V = Set<Seq<char>>;

    closed spec fn view(&self) -> Set<Seq<char>> {
        self.listing().to_set()
    }
}

impl Default for Unbound {
    fn default() -> (set: Unbound)
        ensures
            set@ == Set::<Seq<char>>::empty(),
    {
        Unbound::new()
    }
}

/// Two collections of names join to their union.
impl Semigroup for Unbound {
    open spec fn joined(self, other: Self, out: Self) -> bool {
        out@ == self@.union(other@)
    }

    fn app(self, other: Self) -> (out: Self) {
        let mut out = self;
        let mut i: usize = 0;
        assert(other.listing().take(0) =~= Seq::<Seq<char>>::empty());
        assert(out@ =~= self@.union(other.listing().take(0).to_set()));
        while i < other.0.len()
            invariant
                i <= other.0.len(),
                other.0.len() == other.listing().len(),
                out@ == self@.union(other.listing().take(i as int).to_set()),
            decreases other.0.len() - i,
        {
            let name = other.0[i].clone();
            proof {
                assert(other.listing().take(i + 1) =~= other.listing().take(i as int).push(name@));
                lemma_push_to_set(other.listing().take(i as int), name@);
            }
            out = out.insert(name);
            assert(out@ =~= self@.union(other.listing().take(i + 1).to_set()));
            i = i + 1;
        }
        assert(other.listing().take(i as int) =~= other.listing());
        out
    }
}

impl Singleton<String> for Unbound {
    open spec fn made_from(elem: String, out: Self) -> bool {
        out@ == set![elem@]
    }

    fn single(elem: String) -> (out: Self) {
        let out = Unbound::new().insert(elem);
        assert(out@ =~= set![elem@]);
        out
    }
}

impl Neutral for Unbound {
    open spec fn neutral(&self) -> bool {
        self@ =~= Set::<Seq<char>>::empty()
    }

    fn is_neutral(&self) -> (b: bool) {
        proof {
            if self.listing().len() > 0 {
                assert(self@.contains(self.listing()[0]));
            } else {
                assert(self@ =~= Set::<Seq<char>>::empty());
            }
        }
        self.0.len() == 0
    }
}

} // verus!
