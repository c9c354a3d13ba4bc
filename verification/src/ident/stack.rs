use vstd::prelude::*;

use crate::atoms::Var;

verus! {

/// What a binder binds: abstractions bind term variables; type abstractions
/// and quantifiers bind type variables.
#[derive(Clone, Copy, Debug, PartialEq, Eq, Structural)]
pub enum Kind {
    Term,
    Type,
}

/// The scope chain: one frame for each binder around the place that is
/// being read, the innermost first. A frame borrows the chain it extends.
pub struct Stack<'a>(pub Option<(&'a Stack<'a>, Kind, String, Var)>);

impl<'a> Stack<'a> {
    /// What the chain resolves each name of each kind to: the identifier
    /// of the innermost frame with that kind and name.
    pub open spec fn env(&self) -> Map<(Kind, Seq<char>), Var>
        decreases self,
    {
        match self.0 {
            None => Map::empty(),
            Some((prev, kind, name, var)) => prev.env().insert((kind, name@), var),
        }
    }

    /// The chain with no frame.
    pub fn empty() -> (stack: Stack<'a>)
        ensures
            stack.env() == Map::<(Kind, Seq<char>), Var>::empty(),
    {
        Stack(None)
    }

    /// The chain extended by a frame that binds `name` of kind `kind` to
    /// `var`.
    pub fn push(&'a self, kind: Kind, name: String, var: Var) -> (stack: Stack<'a>)
        ensures
            stack.env() == self.env().insert((kind, name@), var),
    {
        Stack(Some((self, kind, name, var)))
    }

    /// Resolves `name` as a variable of kind `kind`: the identifier of the
    /// nearest frame of that kind with that name, or the name back where no
    /// frame has both.
    pub fn map(&self, kind: Kind, name: String) -> (r: Result<Var, String>)
        ensures
            match r {
                Ok(var) => self.env().contains_key((kind, name@)) && var == self.env()[(
                    kind,
                    name@,
                )],
                Err(unbound) => !self.env().contains_key((kind, name@)) && unbound@ == name@,
            },
        decreases self,
    {
        match &self.0 {
            None => Err(name),
            Some((prev, frame_kind, key, var)) => {
                if *frame_kind == kind && *key == name {
                    Ok(*var)
                } else {
                    prev.map(kind, name)
                }
            },
        }
    }
}

} // verus!
