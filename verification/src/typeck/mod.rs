//! The type checker: it synthesises a type for a term and collects every
//! typing error on the way, going on after each with a surrogate type.

pub mod error;
pub mod result;
pub mod state;

use std::rc::Rc;
use vstd::prelude::*;

use crate::atoms::{Alpha, AlphaGen, Var};
use crate::syntax::de::{Term, TermData};
use crate::syntax::ty::{Type, TypeData};

pub use error::TypeckError;
pub use result::TypeckResult;
pub use state::Typeck;

verus! {

/// The type `body` with `with` in place of every variable `what` that no
/// quantifier inside `body` binds anew.
pub open spec fn substituted(body: Type, with: Type, what: Var) -> Type
    decreases body,
{
    match *body {
        TypeData::TyVar(var) => if var == what { with } else { body },
        TypeData::TyArrow(from, to) => Rc::new(
            TypeData::TyArrow(substituted(from, with, what), substituted(to, with, what)),
        ),
        TypeData::TyForall(param, inner) => if param == what {
            body
        } else {
            Rc::new(TypeData::TyForall(param, substituted(inner, with, what)))
        },
        _ => body,
    }
}

/// What a pass over a term yields: the type, the errors in the order of a
/// left-to-right reading, and the number of the unknown drawn last.
pub struct Judgement {
    pub ty: Type,
    pub errors: Seq<TypeckError>,
    pub last: nat,
}

/// The unknown drawn after `last`.
pub open spec fn fresh(last: nat) -> Type {
    Rc::new(TypeData::TyAlpha(Alpha((last + 1) as usize)))
}

/// The judgement on applying a term of type `fun` to one of type `arg`. An
/// arrow from the argument's type gives its result. An arrow from another
/// type gives its result too, with one error. Anything else gives a fresh
/// unknown, with one error.
pub open spec fn applied(fun: Type, arg: Type, last: nat) -> Judgement {
    match *fun {
        TypeData::TyArrow(from, to) => if from == arg {
            Judgement { ty: to, errors: seq![], last }
        } else {
            Judgement { ty: to, errors: seq![TypeckError::NotEqual(from, arg)], last }
        },
        _ => Judgement {
            ty: fresh(last),
            errors: seq![TypeckError::NotAFunction(fun)],
            last: last + 1,
        },
    }
}

/// The judgement on applying a term of type `fun` to the type `arg`. A
/// quantified type gives its body with `arg` for the bound variable.
/// Anything else gives a fresh unknown, with one error.
pub open spec fn instantiated(fun: Type, arg: Type, last: nat) -> Judgement {
    match *fun {
        TypeData::TyForall(var, inner) => Judgement {
            ty: substituted(inner, arg, var),
            errors: seq![],
            last,
        },
        _ => Judgement {
            ty: fresh(last),
            errors: seq![TypeckError::NotAForall(fun)],
            last: last + 1,
        },
    }
}

/// The typing rules. `ctx` gives the type of each identifier in scope, by
/// its number, and `last` is the number of the unknown drawn last. A
/// variable out of scope gets a fresh unknown and no error.
pub open spec fn synth(ctx: Map<usize, Type>, term: Term, last: nat) -> Judgement
    decreases term,
{
    match *term {
        TermData::TmUnit => Judgement { ty: Rc::new(TypeData::TyUnit), errors: seq![], last },
        TermData::TmVar(var) => if ctx.contains_key(var.0) {
            Judgement { ty: ctx[var.0], errors: seq![], last }
        } else {
            Judgement { ty: fresh(last), errors: seq![], last: last + 1 }
        },
        TermData::TmAbs(param, ty, body) => {
            let inner = synth(ctx.insert(param.0, ty), body, last);
            Judgement {
                ty: Rc::new(TypeData::TyArrow(ty, inner.ty)),
                errors: inner.errors,
                last: inner.last,
            }
        },
        TermData::TmApp(f, x) => {
            let fun = synth(ctx, f, last);
            let arg = synth(ctx, x, fun.last);
            let out = applied(fun.ty, arg.ty, arg.last);
            Judgement {
                ty: out.ty,
                errors: fun.errors + arg.errors + out.errors,
                last: out.last,
            }
        },
        TermData::TmTyAbs(param, body) => {
            let inner = synth(ctx, body, last);
            Judgement {
                ty: Rc::new(TypeData::TyForall(param, inner.ty)),
                errors: inner.errors,
                last: inner.last,
            }
        },
        TermData::TmTyApp(f, ty) => {
            let fun = synth(ctx, f, last);
            let out = instantiated(fun.ty, ty, fun.last);
            Judgement { ty: out.ty, errors: fun.errors + out.errors, last: out.last }
        },
        TermData::TmError => Judgement { ty: Rc::new(TypeData::TyError), errors: seq![], last },
    }
}

/// The number of nodes of a term that may each draw one unknown.
pub open spec fn demand(term: Term) -> nat
    decreases term,
{
    match *term {
        TermData::TmVar(_) => 1,
        TermData::TmAbs(_, _, body) => demand(body),
        TermData::TmApp(f, x) => demand(f) + demand(x) + 1,
        TermData::TmTyAbs(_, body) => demand(body),
        TermData::TmTyApp(f, _) => demand(f) + 1,
        _ => 0,
    }
}

/// The counter never runs back, and it runs on by no more than the term's
/// demand.
pub proof fn lemma_counter_bounds(ctx: Map<usize, Type>, term: Term, last: nat)
    ensures
        last <= synth(ctx, term, last).last <= last + demand(term),
    decreases term,
{
    match *term {
        TermData::TmAbs(param, ty, body) => {
            lemma_counter_bounds(ctx.insert(param.0, ty), body, last);
        },
        TermData::TmApp(f, x) => {
            lemma_counter_bounds(ctx, f, last);
            lemma_counter_bounds(ctx, x, synth(ctx, f, last).last);
        },
        TermData::TmTyAbs(_, body) => {
            lemma_counter_bounds(ctx, body, last);
        },
        TermData::TmTyApp(f, _) => {
            lemma_counter_bounds(ctx, f, last);
        },
        _ => {},
    }
}

/// The type `body` with `with` for `what`, or nothing where `body` holds no
/// variable to replace, so that the caller can hand on `body` itself.
pub(crate) fn replaced(body: &Type, with: &Type, what: Var) -> (r: Option<Type>)
    ensures
        match r {
            Some(out) => out == substituted(*body, *with, what),
            None => substituted(*body, *with, what) == *body,
        },
    decreases **body,
{
    match &**body {
        TypeData::TyVar(var) => if var.0 == what.0 {
            Some(with.clone())
        } else {
            None
        },
        TypeData::TyArrow(from, to) => {
            let new_from = replaced(from, with, what);
            let new_to = replaced(to, with, what);
            match (new_from, new_to) {
                (None, None) => None,
                (Some(new_from), None) => Some(Rc::new(TypeData::TyArrow(new_from, to.clone()))),
                (None, Some(new_to)) => Some(Rc::new(TypeData::TyArrow(from.clone(), new_to))),
                (Some(new_from), Some(new_to)) => Some(
                    Rc::new(TypeData::TyArrow(new_from, new_to)),
                ),
            }
        },
        TypeData::TyForall(param, inner) => {
            if param.0 == what.0 {
                None
            } else {
                match replaced(inner, with, what) {
                    Some(new_inner) => Some(Rc::new(TypeData::TyForall(*param, new_inner))),
                    None => None,
                }
            }
        },
        _ => None,
    }
}

/// Substitution on types: `body` with `with` in place of the variable
/// `what`. A quantifier over `what` itself shadows it, and its body is left
/// alone. Subtrees in which nothing changes are handed on, not rebuilt.
pub fn subst_type(body: Type, with: Type, what: Var) -> (r: Type)
    ensures
        r == substituted(body, with, what),
{
    match replaced(&body, &with, what) {
        Some(out) => out,
        None => body,
    }
}

/// An upper bound on the unknowns that checking `term` can draw, where it
/// fits the machine's numbers.
pub fn alpha_demand(term: &Term) -> (n: Option<usize>)
    ensures
        n == (if demand(*term) <= usize::MAX {
            Some(demand(*term) as usize)
        } else {
            None
        }),
    decreases **term,
{
    match &**term {
        TermData::TmVar(_) => Some(1),
        TermData::TmAbs(_, _, body) => alpha_demand(body),
        TermData::TmApp(f, x) => {
            match (alpha_demand(f), alpha_demand(x)) {
                (Some(left), Some(right)) => match left.checked_add(right) {
                    Some(both) => both.checked_add(1),
                    None => None,
                },
                _ => None,
            }
        },
        TermData::TmTyAbs(_, body) => alpha_demand(body),
        TermData::TmTyApp(f, _) => match alpha_demand(f) {
            Some(left) => left.checked_add(1),
            None => None,
        },
        _ => Some(0),
    }
}

/// Checks a term in the empty context, drawing unknowns from `gen`. The
/// answer is the synthesised type where the rules found no error, and every
/// error, in reading order, where they found one. The same term and counter
/// always give the same answer.
pub fn typeck(gen: AlphaGen, term: Term) -> (r: Result<Type, Vec<TypeckError>>)
    requires
        term.sound(),
        synth(Map::empty(), term, gen@).last <= usize::MAX,
    ensures
        match r {
            Ok(ty) => synth(Map::empty(), term, gen@).errors.len() == 0 && ty == synth(
                Map::empty(),
                term,
                gen@,
            ).ty,
            Err(errors) => errors@.len() > 0 && errors@ == synth(Map::empty(), term, gen@).errors,
        },
{
    let mut state = Typeck::from(gen);
    state.typeck(term).into_result()
}

} // verus!
