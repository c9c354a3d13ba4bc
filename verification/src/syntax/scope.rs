//! Variables and the binders around them.

use vstd::prelude::*;

use crate::atoms::Var;
use crate::syntax::de::{Term, TermData};
use crate::syntax::ty::{Type, TypeData};

verus! {

/// An identifier is in two sequences put together exactly when it is in one
/// of them.
pub proof fn lemma_contains_concat(left: Seq<Var>, right: Seq<Var>, var: Var)
    ensures
        (left + right).contains(var) <==> left.contains(var) || right.contains(var),
{
    if left.contains(var) {
        let i = choose|i: int| 0 <= i < left.len() && left[i] == var;
        assert((left + right)[i] == var);
    }
    if right.contains(var) {
        let i = choose|i: int| 0 <= i < right.len() && right[i] == var;
        assert((left + right)[left.len() + i] == var);
    }
    if (left + right).contains(var) {
        let i = choose|i: int| 0 <= i < (left + right).len() && (left + right)[i] == var;
        if i < left.len() {
            assert(left[i] == var);
        } else {
            assert(right[i - left.len()] == var);
        }
    }
}

/// Every variable of a type is free in it or bound by one of its
/// quantifiers.
pub proof fn lemma_type_vars_bound(ty: Type, var: Var)
    requires
        ty.vars().contains(var),
    ensures
        ty.binders().contains(var) || ty.free_vars().contains(var),
    decreases ty,
{
    match *ty {
        TypeData::TyVar(found) => {
            assert(seq![found][0] == found);
        },
        TypeData::TyArrow(from, to) => {
            lemma_contains_concat(from.vars(), to.vars(), var);
            lemma_contains_concat(from.binders(), to.binders(), var);
            if from.vars().contains(var) {
                lemma_type_vars_bound(from, var);
            } else {
                lemma_type_vars_bound(to, var);
            }
        },
        TypeData::TyForall(param, body) => {
            lemma_contains_concat(seq![param], body.binders(), var);
            assert(seq![param][0] == param);
            lemma_type_vars_bound(body, var);
        },
        _ => {},
    }
}

/// Every variable of a term is free in it or bound by one of its binders.
pub proof fn lemma_vars_bound(term: Term, var: Var)
    requires
        term.vars().contains(var),
    ensures
        term.binders().contains(var) || term.free_vars().contains(var)
            || term.free_type_vars().contains(var),
    decreases term,
{
    match *term {
        TermData::TmVar(found) => {
            assert(seq![found][0] == found);
        },
        TermData::TmAbs(param, ty, body) => {
            lemma_contains_concat(ty.vars(), body.vars(), var);
            lemma_contains_concat(seq![param] + ty.binders(), body.binders(), var);
            lemma_contains_concat(seq![param], ty.binders(), var);
            assert(seq![param][0] == param);
            if ty.vars().contains(var) {
                lemma_type_vars_bound(ty, var);
            } else {
                lemma_vars_bound(body, var);
            }
        },
        TermData::TmApp(f, x) => {
            lemma_contains_concat(f.vars(), x.vars(), var);
            lemma_contains_concat(f.binders(), x.binders(), var);
            if f.vars().contains(var) {
                lemma_vars_bound(f, var);
            } else {
                lemma_vars_bound(x, var);
            }
        },
        TermData::TmTyAbs(param, body) => {
            lemma_contains_concat(seq![param], body.binders(), var);
            assert(seq![param][0] == param);
            lemma_vars_bound(body, var);
        },
        TermData::TmTyApp(f, ty) => {
            lemma_contains_concat(f.vars(), ty.vars(), var);
            lemma_contains_concat(f.binders(), ty.binders(), var);
            if f.vars().contains(var) {
                lemma_vars_bound(f, var);
            } else {
                lemma_type_vars_bound(ty, var);
            }
        },
        _ => {},
    }
}

/// In a closed term every variable holds the identifier of one of the
/// term's binders.
pub proof fn lemma_closed_vars_bound(term: Term, var: Var)
    requires
        term.closed(),
        term.vars().contains(var),
    ensures
        term.binders().contains(var),
{
    lemma_vars_bound(term, var);
}

} // verus!
