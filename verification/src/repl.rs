//! One line through the whole pipeline: parsing, identification, type
//! checking and evaluation, with no input or output of its own.

use vstd::prelude::*;

use crate::atoms::Names;
use crate::eval::{eval, evaluated};
use crate::ident::{identified, identify, Unbound};
use crate::parser::{line_errors, line_term, parse, ParseErrors};
use crate::named::{error_named, term_named};
use crate::syntax::de::Term;
use crate::typeck::{alpha_demand, lemma_counter_bounds, synth, typeck, TypeckError};

verus! {

/// Why a line has no value.
#[derive(Debug)]
pub enum LineError {
    /// The line does not follow the grammar.
    Parse(ParseErrors),
    /// The line uses names that are bound nowhere.
    Unbound(Unbound),
    /// The term is ill-typed; the name table serves to write the errors.
    Typeck(Vec<TypeckError>, Names),
    /// The term is too large for the counter of unknowns.
    TooLarge,
    /// The evaluator ran out of fuel.
    OutOfFuel,
}

/// Takes a line through the pipeline. The line is parsed; its names are
/// resolved; the term is checked, and evaluated only where the checker
/// found no error. The first pass that fails gives the error, and the
/// passes behind it do not run.
pub fn process_line(line: &str, fuel: usize) -> (r: Result<(Term, Names), LineError>)
    ensures
        match r {
            Ok((value, names)) => {
                &&& line_errors(line@).len() == 0
                &&& line_term(line@) is Ok
                &&& identified(line_term(line@)->Ok_0).unbound =~= Set::<Seq<char>>::empty()
                &&& names@ == identified(line_term(line@)->Ok_0).names
                &&& synth(
                    Map::empty(),
                    identified(line_term(line@)->Ok_0).out,
                    identified(line_term(line@)->Ok_0).last,
                ).errors.len() == 0
                &&& evaluated(identified(line_term(line@)->Ok_0).out, fuel as nat) == Some(value)
                &&& term_named(value, names@.len())
            },
            Err(LineError::Parse(errors)) => errors.0@ == line_errors(line@) && errors.0@.len() > 0,
            Err(LineError::Unbound(unbound)) => {
                &&& line_errors(line@).len() == 0
                &&& line_term(line@) is Ok
                &&& unbound@ == identified(line_term(line@)->Ok_0).unbound
                &&& !(unbound@ =~= Set::<Seq<char>>::empty())
            },
            Err(LineError::Typeck(errors, names)) => {
                &&& line_errors(line@).len() == 0
                &&& line_term(line@) is Ok
                &&& identified(line_term(line@)->Ok_0).unbound =~= Set::<Seq<char>>::empty()
                &&& names@ == identified(line_term(line@)->Ok_0).names
                &&& errors@.len() > 0
                &&& errors@ == synth(
                    Map::empty(),
                    identified(line_term(line@)->Ok_0).out,
                    identified(line_term(line@)->Ok_0).last,
                ).errors
                &&& forall|i: int|
                    0 <= i < errors@.len() ==> error_named(#[trigger] errors@[i], names@.len())
            },
            Err(LineError::TooLarge) => {
                &&& line_errors(line@).len() == 0
                &&& line_term(line@) is Ok
                &&& identified(line_term(line@)->Ok_0).unbound =~= Set::<Seq<char>>::empty()
                &&& identified(line_term(line@)->Ok_0).last + crate::typeck::demand(
                    identified(line_term(line@)->Ok_0).out,
                ) > usize::MAX
            },
            Err(LineError::OutOfFuel) => {
                &&& line_errors(line@).len() == 0
                &&& line_term(line@) is Ok
                &&& identified(line_term(line@)->Ok_0).unbound =~= Set::<Seq<char>>::empty()
                &&& synth(
                    Map::empty(),
                    identified(line_term(line@)->Ok_0).out,
                    identified(line_term(line@)->Ok_0).last,
                ).errors.len() == 0
                &&& evaluated(identified(line_term(line@)->Ok_0).out, fuel as nat).is_none()
            },
        },
{
    let input = match parse(line) {
        Ok(input) => input,
        Err(errors) => {
            return Err(LineError::Parse(errors));
        },
    };
    let (term, names, alpha) = match identify(input) {
        Ok(found) => found,
        Err(unbound) => {
            return Err(LineError::Unbound(unbound));
        },
    };
    let fits = match alpha_demand(&term) {
        Some(demand) => demand.checked_add(alpha.last()).is_some(),
        None => false,
    };
    if !fits {
        return Err(LineError::TooLarge);
    }
    proof {
        lemma_counter_bounds(Map::empty(), term, alpha@);
        crate::named::lemma_synth_named(Map::empty(), term, alpha@, names@.len());
        if evaluated(term, fuel as nat) is Some {
            crate::named::lemma_evaluated_named(term, fuel as nat, names@.len());
        }
    }
    match typeck(alpha, term.clone()) {
        Ok(_) => match eval(term, fuel) {
            Some(value) => Ok((value, names)),
            None => Err(LineError::OutOfFuel),
        },
        Err(errors) => Err(LineError::Typeck(errors, names)),
    }
}

} // verus!
