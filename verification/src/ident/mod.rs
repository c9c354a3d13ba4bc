//! The identifier pass: it turns surface names into identifiers, one for
//! each binder, and finds the names that no binder binds.

pub mod context;
pub mod scoping;
pub mod stack;
pub mod unbound;

use vstd::prelude::*;

use crate::atoms::{AlphaGen, Names};
use crate::input::{InputTerm, SurfaceTerm};
use crate::named::term_named;
use crate::syntax::de::Term;

pub use context::{renamed_term, Context, CtxResult, Renamed};
pub use stack::{Kind, Stack};
pub use unbound::Unbound;

verus! {

pub type IdResult = Result<(Term, Names, AlphaGen), Unbound>;

/// The renaming of a whole line: no scopes around it, an empty name table
/// and no unknown drawn yet.
pub open spec fn identified(term: SurfaceTerm) -> Renamed<Term> {
    renamed_term(Map::empty(), term, Seq::empty(), 0)
}

/// Renames a parsed term. Where every variable has a binder of its kind
/// around it, the answer is the internal term with its name table and the
/// counter of unknowns: a closed term without error nodes in which no two
/// binders share an identifier and every identifier has its name in the
/// table. Otherwise the answer is the set of the names that are bound
/// nowhere.
pub fn identify(term: InputTerm) -> (r: IdResult)
    requires
        term@.well_formed(),
        term@.holes() <= usize::MAX,
    ensures
        match r {
            Ok((out, names, alpha)) => {
                &&& identified(term@).unbound =~= Set::<Seq<char>>::empty()
                &&& out == identified(term@).out
                &&& names@ == identified(term@).names
                &&& alpha@ == identified(term@).last
                &&& out.sound()
                &&& out.closed()
                &&& out.binders().no_duplicates()
                &&& term_named(out, names@.len())
            },
            Err(unbound) => {
                &&& unbound@ == identified(term@).unbound
                &&& !(unbound@ =~= Set::<Seq<char>>::empty())
            },
        },
{
    let mut ctx = Context::default();
    let stack = Stack::empty();
    let renamed = ctx.rename_term(&stack, term);
    let bound = ctx.names.len();
    proof {
        assert(identified(term@).names.len() == bound);
        scoping::lemma_scoped(Map::empty(), term@, Seq::empty(), 0);
        scoping::lemma_identified_closed(term@, Seq::empty(), 0);
        scoping::lemma_binders_distinct(Map::empty(), term@, Seq::empty(), 0);
        crate::named::lemma_renamed_named(Map::empty(), term@, Seq::empty(), 0);
    }
    let Context { names, alpha } = ctx;
    match renamed.into_result() {
        Ok(out) => Ok((out, names, alpha)),
        Err(unbound) => Err(unbound),
    }
}

} // verus!
