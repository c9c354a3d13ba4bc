//! The evaluator: call-by-value reduction of terms, with substitution of
//! terms for term variables and of types for type variables.

use std::rc::Rc;
use vstd::prelude::*;

use crate::atoms::Var;
use crate::syntax::de::{Term, TermData};
use crate::syntax::ty::{Type, TypeData};
use crate::typeck::{replaced, substituted};

verus! {

/// The term `inside` with `with` in place of every variable `what` that no
/// abstraction inside `inside` binds anew. Types are left as they are.
pub open spec fn term_substituted(with: Term, inside: Term, what: Var) -> Term
    decreases inside,
{
    match *inside {
        TermData::TmVar(var) => if var == what { with } else { inside },
        TermData::TmAbs(param, ty, body) => if param == what {
            inside
        } else {
            Rc::new(TermData::TmAbs(param, ty, term_substituted(with, body, what)))
        },
        TermData::TmApp(f, x) => Rc::new(
            TermData::TmApp(term_substituted(with, f, what), term_substituted(with, x, what)),
        ),
        TermData::TmTyAbs(param, body) => Rc::new(
            TermData::TmTyAbs(param, term_substituted(with, body, what)),
        ),
        TermData::TmTyApp(f, ty) => Rc::new(
            TermData::TmTyApp(term_substituted(with, f, what), ty),
        ),
        _ => inside,
    }
}

/// The term `term` with the type `with` in place of the type variable `var`
/// in every type it holds, but for the reach of a type abstraction over
/// `var` itself.
pub open spec fn type_substituted(with: Type, term: Term, var: Var) -> Term
    decreases term,
{
    match *term {
        TermData::TmAbs(param, ty, body) => Rc::new(
            TermData::TmAbs(
                param,
                substituted(ty, with, var),
                type_substituted(with, body, var),
            ),
        ),
        TermData::TmApp(f, x) => Rc::new(
            TermData::TmApp(type_substituted(with, f, var), type_substituted(with, x, var)),
        ),
        TermData::TmTyAbs(param, body) => if param == var {
            term
        } else {
            Rc::new(TermData::TmTyAbs(param, type_substituted(with, body, var)))
        },
        TermData::TmTyApp(f, ty) => Rc::new(
            TermData::TmTyApp(type_substituted(with, f, var), substituted(ty, with, var)),
        ),
        _ => term,
    }
}

/// One step of call-by-value reduction, where the term can take one. In an
/// application the function is reduced first, then the argument, and then
/// an abstraction is applied; in a type application the term is reduced
/// first, and then a type abstraction is applied. Nothing under a binder is
/// reduced.
pub open spec fn stepped(term: Term) -> Option<Term>
    decreases term,
{
    match *term {
        TermData::TmApp(f, x) => match stepped(f) {
            Some(next) => Some(Rc::new(TermData::TmApp(next, x))),
            None => match stepped(x) {
                Some(next) => Some(Rc::new(TermData::TmApp(f, next))),
                None => match *f {
                    TermData::TmAbs(param, _, body) => Some(term_substituted(x, body, param)),
                    _ => None,
                },
            },
        },
        TermData::TmTyApp(f, ty) => match stepped(f) {
            Some(next) => Some(Rc::new(TermData::TmTyApp(next, ty))),
            None => match *f {
                TermData::TmTyAbs(param, body) => Some(type_substituted(ty, body, param)),
                _ => None,
            },
        },
        _ => None,
    }
}

/// The term that `term` reaches in exactly `count` steps, where it can take
/// that many.
pub open spec fn path(term: Term, count: nat) -> Option<Term>
    decreases count,
{
    if count == 0 {
        Some(term)
    } else {
        match stepped(term) {
            Some(next) => path(next, (count - 1) as nat),
            None => None,
        }
    }
}

/// The normal form of `term`, where it is reached with no more than `fuel`
/// applications of abstractions nested in one another. Both sides of an
/// application are evaluated; an abstraction on the left is then applied
/// and the outcome evaluated on. Abstractions, variables and the unit value
/// are their own normal forms.
pub open spec fn evaluated(term: Term, fuel: nat) -> Option<Term>
    decreases fuel, term,
{
    match *term {
        TermData::TmApp(f, x) => match (evaluated(f, fuel), evaluated(x, fuel)) {
            (Some(fun), Some(arg)) => match *fun {
                TermData::TmAbs(param, _, body) => if fuel == 0 {
                    None
                } else {
                    evaluated(term_substituted(arg, body, param), (fuel - 1) as nat)
                },
                _ => Some(Rc::new(TermData::TmApp(fun, arg))),
            },
            _ => None,
        },
        TermData::TmTyApp(f, ty) => match evaluated(f, fuel) {
            Some(fun) => match *fun {
                TermData::TmTyAbs(param, body) => if fuel == 0 {
                    None
                } else {
                    evaluated(type_substituted(ty, body, param), (fuel - 1) as nat)
                },
                _ => Some(Rc::new(TermData::TmTyApp(fun, ty))),
            },
            None => None,
        },
        _ => Some(term),
    }
}

/// `inside` with `with` for `what`, or nothing where `inside` holds no
/// variable to replace, so that the caller can hand on `inside` itself.
fn term_replaced(with: &Term, inside: &Term, what: Var) -> (r: Option<Term>)
    ensures
        match r {
            Some(out) => out == term_substituted(*with, *inside, what),
            None => term_substituted(*with, *inside, what) == *inside,
        },
    decreases *inside,
{
    match &**inside {
        TermData::TmVar(var) => if var.0 == what.0 {
            Some(with.clone())
        } else {
            None
        },
        TermData::TmAbs(param, ty, body) => {
            if param.0 == what.0 {
                None
            } else {
                match term_replaced(with, body, what) {
                    Some(body) => Some(Rc::new(TermData::TmAbs(*param, ty.clone(), body))),
                    None => None,
                }
            }
        },
        TermData::TmApp(f, x) => {
            match (term_replaced(with, f, what), term_replaced(with, x, what)) {
                (None, None) => None,
                (Some(new_f), None) => Some(Rc::new(TermData::TmApp(new_f, x.clone()))),
                (None, Some(new_x)) => Some(Rc::new(TermData::TmApp(f.clone(), new_x))),
                (Some(new_f), Some(new_x)) => Some(Rc::new(TermData::TmApp(new_f, new_x))),
            }
        },
        TermData::TmTyAbs(param, body) => match term_replaced(with, body, what) {
            Some(body) => Some(Rc::new(TermData::TmTyAbs(*param, body))),
            None => None,
        },
        TermData::TmTyApp(f, ty) => match term_replaced(with, f, what) {
            Some(new_f) => Some(Rc::new(TermData::TmTyApp(new_f, ty.clone()))),
            None => None,
        },
        _ => None,
    }
}

/// Substitution of a term for a term variable: `inside` with `with` in
/// place of `what`. An abstraction over `what` itself shadows it, and its
/// body is left alone. Subtrees in which nothing changes are handed on, not
/// rebuilt.
pub fn subst(with: Term, inside: Term, what: Var) -> (r: Term)
    ensures
        r == term_substituted(with, inside, what),
{
    match term_replaced(&with, &inside, what) {
        Some(out) => out,
        None => inside,
    }
}

/// `term` with the type `with` for `var`, or nothing where no type in
/// `term` holds a variable to replace.
fn type_replaced(with: &Type, term: &Term, var: Var) -> (r: Option<Term>)
    ensures
        match r {
            Some(out) => out == type_substituted(*with, *term, var),
            None => type_substituted(*with, *term, var) == *term,
        },
    decreases *term,
{
    match &**term {
        TermData::TmAbs(param, ty, body) => {
            match (replaced(ty, with, var), type_replaced(with, body, var)) {
                (None, None) => None,
                (Some(new_ty), None) => Some(
                    Rc::new(TermData::TmAbs(*param, new_ty, body.clone())),
                ),
                (None, Some(new_body)) => Some(
                    Rc::new(TermData::TmAbs(*param, ty.clone(), new_body)),
                ),
                (Some(new_ty), Some(new_body)) => Some(
                    Rc::new(TermData::TmAbs(*param, new_ty, new_body)),
                ),
            }
        },
        TermData::TmApp(f, x) => {
            match (type_replaced(with, f, var), type_replaced(with, x, var)) {
                (None, None) => None,
                (Some(new_f), None) => Some(Rc::new(TermData::TmApp(new_f, x.clone()))),
                (None, Some(new_x)) => Some(Rc::new(TermData::TmApp(f.clone(), new_x))),
                (Some(new_f), Some(new_x)) => Some(Rc::new(TermData::TmApp(new_f, new_x))),
            }
        },
        TermData::TmTyAbs(param, body) => {
            if param.0 == var.0 {
                None
            } else {
                match type_replaced(with, body, var) {
                    Some(new_body) => Some(Rc::new(TermData::TmTyAbs(*param, new_body))),
                    None => None,
                }
            }
        },
        TermData::TmTyApp(f, ty) => {
            match (type_replaced(with, f, var), replaced(ty, with, var)) {
                (None, None) => None,
                (Some(new_f), None) => Some(Rc::new(TermData::TmTyApp(new_f, ty.clone()))),
                (None, Some(new_ty)) => Some(Rc::new(TermData::TmTyApp(f.clone(), new_ty))),
                (Some(new_f), Some(new_ty)) => Some(Rc::new(TermData::TmTyApp(new_f, new_ty))),
            }
        },
        _ => None,
    }
}

/// Substitution of a type for a type variable throughout a term: in the
/// type of every parameter and in every type argument, but for the reach of
/// a type abstraction over the variable itself. Subtrees in which nothing
/// changes are handed on, not rebuilt.
pub fn subst_type(with: Type, term: Term, var: Var) -> (r: Term)
    ensures
        r == type_substituted(with, term, var),
{
    match type_replaced(&with, &term, var) {
        Some(out) => out,
        None => term,
    }
}

/// Takes one step of call-by-value reduction, or says that the term takes
/// none.
pub fn step(term: &Term) -> (r: Option<Term>)
    ensures
        r == stepped(*term),
    decreases *term,
{
    match &**term {
        TermData::TmApp(f, x) => match step(f) {
            Some(next) => Some(Rc::new(TermData::TmApp(next, x.clone()))),
            None => match step(x) {
                Some(next) => Some(Rc::new(TermData::TmApp(f.clone(), next))),
                None => match &**f {
                    TermData::TmAbs(param, _, body) => Some(subst(x.clone(), body.clone(), *param)),
                    _ => None,
                },
            },
        },
        TermData::TmTyApp(f, ty) => match step(f) {
            Some(next) => Some(Rc::new(TermData::TmTyApp(next, ty.clone()))),
            None => match &**f {
                TermData::TmTyAbs(param, body) => Some(
                    subst_type(ty.clone(), body.clone(), *param),
                ),
                _ => None,
            },
        },
        _ => None,
    }
}

/// Reduces a term to its normal form under call-by-value. `fuel` bounds how
/// deep applications of abstractions may nest; the answer is nothing where
/// that bound is met before a normal form. A term that comes out is reached
/// from `term` by steps of reduction and takes no further step.
pub fn eval(term: Term, fuel: usize) -> (r: Option<Term>)
    ensures
        r == evaluated(term, fuel as nat),
        r matches Some(value) ==> stepped(value).is_none() && exists|count: nat|
            path(term, count) == Some(value),
    decreases fuel, term,
{
    proof {
        lemma_evaluated_normal(term, fuel as nat);
        if evaluated(term, fuel as nat) is Some {
            let count = lemma_evaluated_by_steps(term, fuel as nat);
        }
    }
    match &*term {
        TermData::TmApp(f, x) => {
            let fun = eval(f.clone(), fuel);
            let arg = eval(x.clone(), fuel);
            match (fun, arg) {
                (Some(fun), Some(arg)) => match &*fun {
                    TermData::TmAbs(param, _, body) => {
                        if fuel == 0 {
                            None
                        } else {
                            eval(subst(arg, body.clone(), *param), fuel - 1)
                        }
                    },
                    _ => Some(Rc::new(TermData::TmApp(fun, arg))),
                },
                _ => None,
            }
        },
        TermData::TmTyApp(f, ty) => match eval(f.clone(), fuel) {
            Some(fun) => match &*fun {
                TermData::TmTyAbs(param, body) => {
                    if fuel == 0 {
                        None
                    } else {
                        eval(subst_type(ty.clone(), body.clone(), *param), fuel - 1)
                    }
                },
                _ => Some(Rc::new(TermData::TmTyApp(fun, ty.clone()))),
            },
            None => None,
        },
        _ => Some(term),
    }
}

/// What evaluation reaches takes no further step: it is a normal form.
pub proof fn lemma_evaluated_normal(term: Term, fuel: nat)
    ensures
        evaluated(term, fuel) matches Some(value) ==> stepped(value).is_none(),
    decreases fuel, term,
{
    match *term {
        TermData::TmApp(f, x) => {
            lemma_evaluated_normal(f, fuel);
            lemma_evaluated_normal(x, fuel);
            match (evaluated(f, fuel), evaluated(x, fuel)) {
                (Some(fun), Some(arg)) => match *fun {
                    TermData::TmAbs(param, _, body) => {
                        if fuel > 0 {
                            lemma_evaluated_normal(
                                term_substituted(arg, body, param),
                                (fuel - 1) as nat,
                            );
                        }
                    },
                    _ => {},
                },
                _ => {},
            }
        },
        TermData::TmTyApp(f, ty) => {
            lemma_evaluated_normal(f, fuel);
            match evaluated(f, fuel) {
                Some(fun) => match *fun {
                    TermData::TmTyAbs(param, body) => {
                        if fuel > 0 {
                            lemma_evaluated_normal(
                                type_substituted(ty, body, param),
                                (fuel - 1) as nat,
                            );
                        }
                    },
                    _ => {},
                },
                None => {},
            }
        },
        _ => {},
    }
}

/// Steps that follow one another add up.
pub proof fn lemma_path_joined(term: Term, first: nat, second: nat)
    requires
        path(term, first) is Some,
        path(path(term, first)->Some_0, second) is Some,
    ensures
        path(term, first + second) == path(path(term, first)->Some_0, second),
    decreases first,
{
    if first > 0 {
        lemma_path_joined(stepped(term)->Some_0, (first - 1) as nat, second);
    }
}

/// While the function of an application takes steps, the application takes
/// them with it.
pub proof fn lemma_path_in_function(f: Term, x: Term, count: nat)
    requires
        path(f, count) is Some,
    ensures
        path(Rc::new(TermData::TmApp(f, x)), count) == Some(
            Rc::new(TermData::TmApp(path(f, count)->Some_0, x)),
        ),
    decreases count,
{
    if count > 0 {
        lemma_path_in_function(stepped(f)->Some_0, x, (count - 1) as nat);
    }
}

/// Once the function of an application takes no step, the application
/// takes the steps of its argument.
pub proof fn lemma_path_in_argument(f: Term, x: Term, count: nat)
    requires
        stepped(f).is_none(),
        path(x, count) is Some,
    ensures
        path(Rc::new(TermData::TmApp(f, x)), count) == Some(
            Rc::new(TermData::TmApp(f, path(x, count)->Some_0)),
        ),
    decreases count,
{
    if count > 0 {
        lemma_path_in_argument(f, stepped(x)->Some_0, (count - 1) as nat);
    }
}

/// While the term of a type application takes steps, the type application
/// takes them with it.
pub proof fn lemma_path_in_type_application(f: Term, ty: Type, count: nat)
    requires
        path(f, count) is Some,
    ensures
        path(Rc::new(TermData::TmTyApp(f, ty)), count) == Some(
            Rc::new(TermData::TmTyApp(path(f, count)->Some_0, ty)),
        ),
    decreases count,
{
    if count > 0 {
        lemma_path_in_type_application(stepped(f)->Some_0, ty, (count - 1) as nat);
    }
}

/// Evaluation goes by steps: what it reaches is reached from the term by
/// the number of steps that the lemma hands back.
pub proof fn lemma_evaluated_by_steps(term: Term, fuel: nat) -> (count: nat)
    requires
        evaluated(term, fuel) is Some,
    ensures
        path(term, count) == evaluated(term, fuel),
    decreases fuel, term,
{
    match *term {
        TermData::TmApp(f, x) => {
            let fun = evaluated(f, fuel)->Some_0;
            let arg = evaluated(x, fuel)->Some_0;
            let in_function = lemma_evaluated_by_steps(f, fuel);
            let in_argument = lemma_evaluated_by_steps(x, fuel);
            lemma_evaluated_normal(f, fuel);
            lemma_evaluated_normal(x, fuel);
            lemma_path_in_function(f, x, in_function);
            lemma_path_in_argument(fun, x, in_argument);
            lemma_path_joined(term, in_function, in_argument);
            let applied: Term = Rc::new(TermData::TmApp(fun, arg));
            match *fun {
                TermData::TmAbs(param, _, body) => {
                    let next = term_substituted(arg, body, param);
                    let rest = lemma_evaluated_by_steps(next, (fuel - 1) as nat);
                    assert(stepped(applied) == Some(next));
                    assert(path(applied, rest + 1) == path(next, rest));
                    lemma_path_joined(term, in_function + in_argument, rest + 1);
                    in_function + in_argument + rest + 1
                },
                _ => in_function + in_argument,
            }
        },
        TermData::TmTyApp(f, ty) => {
            let fun = evaluated(f, fuel)->Some_0;
            let in_function = lemma_evaluated_by_steps(f, fuel);
            lemma_evaluated_normal(f, fuel);
            lemma_path_in_type_application(f, ty, in_function);
            let applied: Term = Rc::new(TermData::TmTyApp(fun, ty));
            match *fun {
                TermData::TmTyAbs(param, body) => {
                    let next = type_substituted(ty, body, param);
                    let rest = lemma_evaluated_by_steps(next, (fuel - 1) as nat);
                    assert(stepped(applied) == Some(next));
                    assert(path(applied, rest + 1) == path(next, rest));
                    lemma_path_joined(term, in_function, rest + 1);
                    in_function + rest + 1
                },
                _ => in_function,
            }
        },
        _ => 0,
    }
}

/// More fuel never changes what evaluation reaches.
pub proof fn lemma_evaluated_steady(term: Term, fuel: nat, more: nat)
    requires
        fuel <= more,
        evaluated(term, fuel) is Some,
    ensures
        evaluated(term, more) == evaluated(term, fuel),
    decreases fuel, term,
{
    match *term {
        TermData::TmApp(f, x) => {
            lemma_evaluated_steady(f, fuel, more);
            lemma_evaluated_steady(x, fuel, more);
            match (evaluated(f, fuel), evaluated(x, fuel)) {
                (Some(fun), Some(arg)) => match *fun {
                    TermData::TmAbs(param, _, body) => {
                        lemma_evaluated_steady(
                            term_substituted(arg, body, param),
                            (fuel - 1) as nat,
                            (more - 1) as nat,
                        );
                    },
                    _ => {},
                },
                _ => {},
            }
        },
        TermData::TmTyApp(f, ty) => {
            lemma_evaluated_steady(f, fuel, more);
            match evaluated(f, fuel) {
                Some(fun) => match *fun {
                    TermData::TmTyAbs(param, body) => {
                        lemma_evaluated_steady(
                            type_substituted(ty, body, param),
                            (fuel - 1) as nat,
                            (more - 1) as nat,
                        );
                    },
                    _ => {},
                },
                None => {},
            }
        },
        _ => {},
    }
}

/// Substituting for a variable that does not occur free changes nothing.
pub proof fn lemma_subst_fresh(with: Term, inside: Term, what: Var)
    requires
        !inside.free_vars().contains(what),
    ensures
        term_substituted(with, inside, what) == inside,
    decreases inside,
{
    match *inside {
        TermData::TmAbs(param, ty, body) => {
            if param != what {
                lemma_subst_fresh(with, body, what);
            }
        },
        TermData::TmApp(f, x) => {
            lemma_subst_fresh(with, f, what);
            lemma_subst_fresh(with, x, what);
        },
        TermData::TmTyAbs(param, body) => {
            lemma_subst_fresh(with, body, what);
        },
        TermData::TmTyApp(f, ty) => {
            lemma_subst_fresh(with, f, what);
        },
        _ => {},
    }
}

/// Substituting a type for a type variable that does not occur free in a
/// type changes nothing.
pub proof fn lemma_substituted_fresh(body: Type, with: Type, what: Var)
    requires
        !body.free_vars().contains(what),
    ensures
        substituted(body, with, what) == body,
    decreases body,
{
    match *body {
        TypeData::TyArrow(from, to) => {
            lemma_substituted_fresh(from, with, what);
            lemma_substituted_fresh(to, with, what);
        },
        TypeData::TyForall(param, inner) => {
            if param != what {
                lemma_substituted_fresh(inner, with, what);
            }
        },
        _ => {},
    }
}

/// Substituting a type for a type variable that does not occur free in a
/// term changes nothing.
pub proof fn lemma_subst_type_fresh(with: Type, term: Term, var: Var)
    requires
        !term.free_type_vars().contains(var),
    ensures
        type_substituted(with, term, var) == term,
    decreases term,
{
    match *term {
        TermData::TmAbs(param, ty, body) => {
            lemma_substituted_fresh(ty, with, var);
            lemma_subst_type_fresh(with, body, var);
        },
        TermData::TmApp(f, x) => {
            lemma_subst_type_fresh(with, f, var);
            lemma_subst_type_fresh(with, x, var);
        },
        TermData::TmTyAbs(param, body) => {
            if param != var {
                lemma_subst_type_fresh(with, body, var);
            }
        },
        TermData::TmTyApp(f, ty) => {
            lemma_subst_type_fresh(with, f, var);
            lemma_substituted_fresh(ty, with, var);
        },
        _ => {},
    }
}

/// Substituting a closed term captures nothing: the variables free in the
/// outcome are those that were free in `inside`, but for the one replaced,
/// and the free type variables are those of `inside`.
pub proof fn lemma_subst_closed(with: Term, inside: Term, what: Var)
    requires
        with.closed(),
    ensures
        term_substituted(with, inside, what).free_vars() =~= inside.free_vars().remove(what),
        term_substituted(with, inside, what).free_type_vars() =~= inside.free_type_vars(),
    decreases inside,
{
    match *inside {
        TermData::TmAbs(param, ty, body) => {
            if param != what {
                lemma_subst_closed(with, body, what);
            }
        },
        TermData::TmApp(f, x) => {
            lemma_subst_closed(with, f, what);
            lemma_subst_closed(with, x, what);
        },
        TermData::TmTyAbs(param, body) => {
            lemma_subst_closed(with, body, what);
        },
        TermData::TmTyApp(f, ty) => {
            lemma_subst_closed(with, f, what);
        },
        _ => {},
    }
}

/// Substituting a closed type in a type captures nothing: the variables
/// free in the outcome are those that were free before, but for the one
/// replaced.
pub proof fn lemma_substituted_closed(body: Type, with: Type, what: Var)
    requires
        with.free_vars() =~= Set::<Var>::empty(),
    ensures
        substituted(body, with, what).free_vars() =~= body.free_vars().remove(what),
    decreases body,
{
    match *body {
        TypeData::TyArrow(from, to) => {
            lemma_substituted_closed(from, with, what);
            lemma_substituted_closed(to, with, what);
        },
        TypeData::TyForall(param, inner) => {
            if param != what {
                lemma_substituted_closed(inner, with, what);
            }
        },
        _ => {},
    }
}

/// Substituting a closed type throughout a term captures nothing: the type
/// variables free in the outcome are those that were free before, but for
/// the one replaced, and the free term variables are those of the term.
pub proof fn lemma_subst_type_closed(with: Type, term: Term, var: Var)
    requires
        with.free_vars() =~= Set::<Var>::empty(),
    ensures
        type_substituted(with, term, var).free_type_vars() =~= term.free_type_vars().remove(var),
        type_substituted(with, term, var).free_vars() =~= term.free_vars(),
    decreases term,
{
    match *term {
        TermData::TmAbs(_, ty, body) => {
            lemma_substituted_closed(ty, with, var);
            lemma_subst_type_closed(with, body, var);
        },
        TermData::TmApp(f, x) => {
            lemma_subst_type_closed(with, f, var);
            lemma_subst_type_closed(with, x, var);
        },
        TermData::TmTyAbs(param, body) => {
            if param != var {
                lemma_subst_type_closed(with, body, var);
            }
        },
        TermData::TmTyApp(f, ty) => {
            lemma_subst_type_closed(with, f, var);
            lemma_substituted_closed(ty, with, var);
        },
        _ => {},
    }
}

/// A step of a closed term gives a closed term.
pub proof fn lemma_step_closed(term: Term)
    requires
        term.closed(),
        stepped(term) is Some,
    ensures
        stepped(term)->Some_0.closed(),
    decreases term,
{
    match *term {
        TermData::TmApp(f, x) => {
            assert(f.closed());
            assert(x.closed());
            match stepped(f) {
                Some(_) => {
                    lemma_step_closed(f);
                },
                None => match stepped(x) {
                    Some(_) => {
                        lemma_step_closed(x);
                    },
                    None => match *f {
                        TermData::TmAbs(param, ty, body) => {
                            lemma_subst_closed(x, body, param);
                            assert(body.free_vars().remove(param) =~= Set::<Var>::empty());
                        },
                        _ => {},
                    },
                },
            }
        },
        TermData::TmTyApp(f, ty) => {
            assert(f.closed());
            assert(ty.free_vars() =~= Set::<Var>::empty());
            match stepped(f) {
                Some(_) => {
                    lemma_step_closed(f);
                },
                None => match *f {
                    TermData::TmTyAbs(param, body) => {
                        lemma_subst_type_closed(ty, body, param);
                        assert(body.free_type_vars().remove(param) =~= Set::<Var>::empty());
                    },
                    _ => {},
                },
            }
        },
        _ => {},
    }
}

} // verus!
