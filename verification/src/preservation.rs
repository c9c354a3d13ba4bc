//! Evaluation and typing agree: a closed term with distinct binders that the
//! checker accepts keeps its type through a step of reduction, and such a
//! term is a value or takes a step.

use vstd::prelude::*;

use crate::atoms::Var;
use crate::eval::{stepped, term_substituted, type_substituted};
use crate::syntax::de::{Term, TermData};
use crate::syntax::scope::lemma_contains_concat;
use crate::syntax::ty::{Type, TypeData};
use crate::typeck::{substituted, synth};

verus! {

/// Whether two contexts say the same of every identifier in `vars`.
pub open spec fn agree_on(left: Map<usize, Type>, right: Map<usize, Type>, vars: Set<Var>) -> bool {
    forall|v: Var| #[trigger]
        vars.contains(v) ==> left.contains_key(v.0) == right.contains_key(v.0) && (
        left.contains_key(v.0) ==> left[v.0] == right[v.0])
}

/// Whether two contexts say the same of every identifier but `what`.
pub open spec fn agree_but(left: Map<usize, Type>, right: Map<usize, Type>, what: Var) -> bool {
    forall|k: usize|
        k != what.0 ==> #[trigger] left.contains_key(k) == right.contains_key(k) && (
        left.contains_key(k) ==> left[k] == right[k])
}

/// Whether the context gives a type to every identifier in `vars`.
pub open spec fn covers(ctx: Map<usize, Type>, vars: Set<Var>) -> bool {
    forall|v: Var| #[trigger] vars.contains(v) ==> ctx.contains_key(v.0)
}

/// Whether no type in the context binds `var`.
pub open spec fn binds_nowhere(ctx: Map<usize, Type>, var: Var) -> bool {
    forall|k: usize| #[trigger] ctx.contains_key(k) ==> !ctx[k].binders().contains(var)
}

/// Whether `image` is `ctx` with `with` for `var` in every type.
pub open spec fn image_of(
    ctx: Map<usize, Type>,
    image: Map<usize, Type>,
    with: Type,
    var: Var,
) -> bool {
    forall|k: usize|
        #[trigger] ctx.contains_key(k) == image.contains_key(k) && (ctx.contains_key(k)
            ==> image[k] == substituted(ctx[k], with, var))
}

proof fn lemma_distinct_concat(left: Seq<Var>, right: Seq<Var>)
    requires
        (left + right).no_duplicates(),
    ensures
        left.no_duplicates(),
        right.no_duplicates(),
        forall|var: Var| left.contains(var) ==> !right.contains(var),
{
    let both = left + right;
    assert forall|i: int, j: int| 0 <= i < left.len() && 0 <= j < left.len() && i != j implies left[i]
        != left[j] by {
        assert(both[i] == left[i] && both[j] == left[j]);
    }
    assert forall|i: int, j: int|
        0 <= i < right.len() && 0 <= j < right.len() && i != j implies right[i] != right[j] by {
        assert(both[left.len() + i] == right[i] && both[left.len() + j] == right[j]);
    }
    assert forall|var: Var| left.contains(var) implies !right.contains(var) by {
        if right.contains(var) {
            let i = choose|i: int| 0 <= i < left.len() && left[i] == var;
            let j = choose|j: int| 0 <= j < right.len() && right[j] == var;
            assert(both[i] == var && both[left.len() + j] == var);
        }
    }
}

/// The judgement on a term depends on the context only at the term's free
/// variables.
pub proof fn lemma_typing_local(
    left: Map<usize, Type>,
    right: Map<usize, Type>,
    term: Term,
    last: nat,
)
    requires
        agree_on(left, right, term.free_vars()),
    ensures
        synth(left, term, last) == synth(right, term, last),
    decreases term,
{
    match *term {
        TermData::TmVar(var) => {
            assert(term.free_vars().contains(var));
        },
        TermData::TmAbs(param, ty, body) => {
            assert forall|v: Var| #[trigger] body.free_vars().contains(v) implies left.insert(
                param.0,
                ty,
            ).contains_key(v.0) == right.insert(param.0, ty).contains_key(v.0) && (left.insert(
                param.0,
                ty,
            ).contains_key(v.0) ==> left.insert(param.0, ty)[v.0] == right.insert(
                param.0,
                ty,
            )[v.0]) by {
                if v != param {
                    assert(term.free_vars().contains(v));
                }
            }
            lemma_typing_local(left.insert(param.0, ty), right.insert(param.0, ty), body, last);
        },
        TermData::TmApp(f, x) => {
            assert forall|v: Var| #[trigger] f.free_vars().contains(v) implies term.free_vars().contains(
                v,
            ) by {}
            assert forall|v: Var| #[trigger] x.free_vars().contains(v) implies term.free_vars().contains(
                v,
            ) by {}
            lemma_typing_local(left, right, f, last);
            lemma_typing_local(left, right, x, synth(left, f, last).last);
        },
        TermData::TmTyAbs(_, body) => {
            lemma_typing_local(left, right, body, last);
        },
        TermData::TmTyApp(f, _) => {
            lemma_typing_local(left, right, f, last);
        },
        _ => {},
    }
}

/// A term whose free variables the context covers and in which the rules
/// find no error draws no unknown, and has the same type whatever the
/// counter.
pub proof fn lemma_typing_steady(ctx: Map<usize, Type>, term: Term, last: nat, other: nat)
    requires
        covers(ctx, term.free_vars()),
        synth(ctx, term, last).errors.len() == 0,
    ensures
        synth(ctx, term, last).last == last,
        synth(ctx, term, other).ty == synth(ctx, term, last).ty,
        synth(ctx, term, other).errors.len() == 0,
        synth(ctx, term, other).last == other,
    decreases term,
{
    match *term {
        TermData::TmVar(var) => {
            assert(term.free_vars().contains(var));
        },
        TermData::TmAbs(param, ty, body) => {
            assert forall|v: Var| #[trigger] body.free_vars().contains(v) implies ctx.insert(
                param.0,
                ty,
            ).contains_key(v.0) by {
                if v != param {
                    assert(term.free_vars().contains(v));
                }
            }
            lemma_typing_steady(ctx.insert(param.0, ty), body, last, other);
        },
        TermData::TmApp(f, x) => {
            assert forall|v: Var| #[trigger] f.free_vars().contains(v) implies term.free_vars().contains(
                v,
            ) by {}
            assert forall|v: Var| #[trigger] x.free_vars().contains(v) implies term.free_vars().contains(
                v,
            ) by {}
            lemma_typing_steady(ctx, f, last, other);
            lemma_typing_steady(ctx, x, last, other);
        },
        TermData::TmTyAbs(_, body) => {
            lemma_typing_steady(ctx, body, last, other);
        },
        TermData::TmTyApp(f, _) => {
            lemma_typing_steady(ctx, f, last, other);
        },
        _ => {},
    }
}

/// Putting a closed, well-typed term in place of a variable of its type
/// leaves the judgement on the surrounding term as it was.
pub proof fn lemma_subst_typing(
    ctx: Map<usize, Type>,
    target: Map<usize, Type>,
    with: Term,
    inside: Term,
    what: Var,
    base: nat,
    last: nat,
)
    requires
        with.free_vars() =~= Set::<Var>::empty(),
        synth(Map::empty(), with, base).errors.len() == 0,
        ctx.contains_key(what.0),
        ctx[what.0] == synth(Map::empty(), with, base).ty,
        agree_but(ctx, target, what),
    ensures
        synth(target, term_substituted(with, inside, what), last).ty == synth(ctx, inside, last).ty,
        synth(target, term_substituted(with, inside, what), last).errors == synth(
            ctx,
            inside,
            last,
        ).errors,
        synth(target, term_substituted(with, inside, what), last).last == synth(
            ctx,
            inside,
            last,
        ).last,
    decreases inside,
{
    match *inside {
        TermData::TmVar(var) => {
            if var == what {
                lemma_typing_local(target, Map::empty(), with, last);
                lemma_typing_steady(Map::empty(), with, base, last);
                assert(synth(Map::empty(), with, last).errors =~= Seq::empty());
            } else {
                assert(var.0 != what.0);
            }
        },
        TermData::TmAbs(param, ty, body) => {
            if param == what {
                assert(ctx.insert(param.0, ty) =~= target.insert(param.0, ty));
            } else {
                assert(param.0 != what.0);
                lemma_subst_typing(
                    ctx.insert(param.0, ty),
                    target.insert(param.0, ty),
                    with,
                    body,
                    what,
                    base,
                    last,
                );
            }
        },
        TermData::TmApp(f, x) => {
            lemma_subst_typing(ctx, target, with, f, what, base, last);
            lemma_subst_typing(ctx, target, with, x, what, base, synth(ctx, f, last).last);
        },
        TermData::TmTyAbs(_, body) => {
            lemma_subst_typing(ctx, target, with, body, what, base, last);
        },
        TermData::TmTyApp(f, _) => {
            lemma_subst_typing(ctx, target, with, f, what, base, last);
        },
        _ => {},
    }
}

/// Substituting twice for one variable is substituting once what the second
/// substitution makes of the first type.
pub proof fn lemma_substituted_twice(body: Type, first: Type, second: Type, var: Var)
    ensures
        substituted(substituted(body, first, var), second, var) == substituted(
            body,
            substituted(first, second, var),
            var,
        ),
    decreases body,
{
    match *body {
        TypeData::TyArrow(from, to) => {
            lemma_substituted_twice(from, first, second, var);
            lemma_substituted_twice(to, first, second, var);
        },
        TypeData::TyForall(param, inner) => {
            if param != var {
                lemma_substituted_twice(inner, first, second, var);
            }
        },
        _ => {},
    }
}

/// Substitutions for two variables change places, where the type put in
/// last has no use for the other variable and the body does not bind the
/// variable it replaces.
pub proof fn lemma_substituted_swap(body: Type, arg: Type, inner_var: Var, with: Type, var: Var)
    requires
        inner_var != var,
        !with.free_vars().contains(inner_var),
        !body.binders().contains(var),
    ensures
        substituted(substituted(body, arg, inner_var), with, var) == substituted(
            substituted(body, with, var),
            substituted(arg, with, var),
            inner_var,
        ),
    decreases body,
{
    match *body {
        TypeData::TyVar(found) => {
            if found == var {
                crate::eval::lemma_substituted_fresh(with, substituted(arg, with, var), inner_var);
            }
        },
        TypeData::TyArrow(from, to) => {
            lemma_contains_concat(from.binders(), to.binders(), var);
            lemma_substituted_swap(from, arg, inner_var, with, var);
            lemma_substituted_swap(to, arg, inner_var, with, var);
        },
        TypeData::TyForall(param, inner) => {
            lemma_contains_concat(seq![param], inner.binders(), var);
            assert(seq![param][0] == param);
            if param != inner_var {
                lemma_substituted_swap(inner, arg, inner_var, with, var);
            }
        },
        _ => {},
    }
}

/// A substitution binds no identifier that neither of its two types binds.
pub proof fn lemma_substituted_binders(body: Type, with: Type, what: Var, var: Var)
    requires
        !body.binders().contains(var),
        !with.binders().contains(var),
    ensures
        !substituted(body, with, what).binders().contains(var),
    decreases body,
{
    match *body {
        TypeData::TyArrow(from, to) => {
            lemma_contains_concat(from.binders(), to.binders(), var);
            lemma_substituted_binders(from, with, what, var);
            lemma_substituted_binders(to, with, what, var);
            lemma_contains_concat(
                substituted(from, with, what).binders(),
                substituted(to, with, what).binders(),
                var,
            );
        },
        TypeData::TyForall(param, inner) => {
            lemma_contains_concat(seq![param], inner.binders(), var);
            if param != what {
                lemma_substituted_binders(inner, with, what, var);
                lemma_contains_concat(seq![param], substituted(inner, with, what).binders(), var);
            }
        },
        _ => {},
    }
}

/// The type of a term binds no identifier that neither the term nor a type
/// in the context binds.
pub proof fn lemma_synth_binders(ctx: Map<usize, Type>, term: Term, last: nat, var: Var)
    requires
        !term.binders().contains(var),
        binds_nowhere(ctx, var),
    ensures
        !synth(ctx, term, last).ty.binders().contains(var),
    decreases term,
{
    match *term {
        TermData::TmAbs(param, ty, body) => {
            lemma_contains_concat(seq![param] + ty.binders(), body.binders(), var);
            lemma_contains_concat(seq![param], ty.binders(), var);
            lemma_synth_binders(ctx.insert(param.0, ty), body, last, var);
            lemma_contains_concat(
                ty.binders(),
                synth(ctx.insert(param.0, ty), body, last).ty.binders(),
                var,
            );
        },
        TermData::TmApp(f, x) => {
            lemma_contains_concat(f.binders(), x.binders(), var);
            lemma_synth_binders(ctx, f, last, var);
            let fun = synth(ctx, f, last);
            match *fun.ty {
                TypeData::TyArrow(from, to) => {
                    lemma_contains_concat(from.binders(), to.binders(), var);
                },
                _ => {},
            }
        },
        TermData::TmTyAbs(param, body) => {
            lemma_contains_concat(seq![param], body.binders(), var);
            assert(seq![param][0] == param);
            lemma_synth_binders(ctx, body, last, var);
            lemma_contains_concat(seq![param], synth(ctx, body, last).ty.binders(), var);
        },
        TermData::TmTyApp(f, ty) => {
            lemma_contains_concat(f.binders(), ty.binders(), var);
            lemma_synth_binders(ctx, f, last, var);
            let fun = synth(ctx, f, last);
            match *fun.ty {
                TypeData::TyForall(param, inner) => {
                    lemma_contains_concat(seq![param], inner.binders(), var);
                    lemma_substituted_binders(inner, ty, param, var);
                },
                _ => {},
            }
        },
        _ => {},
    }
}

/// Putting a closed type in place of a type variable throughout a term that
/// the rules accept puts it in place of that variable in the term's type,
/// where nothing in the term or the context binds the variable anew.
pub proof fn lemma_subst_type_typing(
    ctx: Map<usize, Type>,
    image: Map<usize, Type>,
    with: Type,
    term: Term,
    var: Var,
    last: nat,
)
    requires
        with.free_vars() =~= Set::<Var>::empty(),
        !term.binders().contains(var),
        binds_nowhere(ctx, var),
        image_of(ctx, image, with, var),
        synth(ctx, term, last).errors.len() == 0,
    ensures
        synth(image, type_substituted(with, term, var), last).ty == substituted(
            synth(ctx, term, last).ty,
            with,
            var,
        ),
        synth(image, type_substituted(with, term, var), last).errors.len() == 0,
        synth(image, type_substituted(with, term, var), last).last == synth(ctx, term, last).last,
    decreases term,
{
    match *term {
        TermData::TmAbs(param, ty, body) => {
            lemma_contains_concat(seq![param] + ty.binders(), body.binders(), var);
            lemma_contains_concat(seq![param], ty.binders(), var);
            lemma_subst_type_typing(
                ctx.insert(param.0, ty),
                image.insert(param.0, substituted(ty, with, var)),
                with,
                body,
                var,
                last,
            );
        },
        TermData::TmApp(f, x) => {
            lemma_contains_concat(f.binders(), x.binders(), var);
            lemma_subst_type_typing(ctx, image, with, f, var, last);
            lemma_subst_type_typing(ctx, image, with, x, var, synth(ctx, f, last).last);
        },
        TermData::TmTyAbs(param, body) => {
            lemma_contains_concat(seq![param], body.binders(), var);
            assert(seq![param][0] == param);
            lemma_subst_type_typing(ctx, image, with, body, var, last);
        },
        TermData::TmTyApp(f, ty) => {
            lemma_contains_concat(f.binders(), ty.binders(), var);
            lemma_subst_type_typing(ctx, image, with, f, var, last);
            let fun = synth(ctx, f, last);
            lemma_synth_binders(ctx, f, last, var);
            match *fun.ty {
                TypeData::TyForall(param, inner) => {
                    lemma_contains_concat(seq![param], inner.binders(), var);
                    if param == var {
                        lemma_substituted_twice(inner, ty, with, var);
                    } else {
                        lemma_substituted_swap(inner, ty, param, with, var);
                    }
                },
                _ => {},
            }
        },
        _ => {},
    }
}

/// Subject reduction. Let `term` be closed, with no identifier bound twice,
/// and let the rules find no error in it. If `term` takes a step to `next`,
/// the rules find no error in `next` either, and give it the type of
/// `term`.
pub proof fn lemma_subject_reduction(term: Term, next: Term, last: nat)
    requires
        term.closed(),
        term.binders().no_duplicates(),
        synth(Map::empty(), term, last).errors.len() == 0,
        stepped(term) == Some(next),
    ensures
        synth(Map::empty(), next, last).errors.len() == 0,
        synth(Map::empty(), next, last).ty == synth(Map::empty(), term, last).ty,
        synth(Map::empty(), next, last).last == synth(Map::empty(), term, last).last,
    decreases term,
{
    let empty = Map::<usize, Type>::empty();
    match *term {
        TermData::TmApp(f, x) => {
            lemma_distinct_concat(f.binders(), x.binders());
            assert(f.free_vars() =~= Set::<Var>::empty());
            assert(x.free_vars() =~= Set::<Var>::empty());
            assert(f.free_type_vars() =~= Set::<Var>::empty());
            assert(x.free_type_vars() =~= Set::<Var>::empty());
            let fun = synth(empty, f, last);
            let arg = synth(empty, x, fun.last);
            match stepped(f) {
                Some(f_next) => {
                    lemma_subject_reduction(f, f_next, last);
                },
                None => match stepped(x) {
                    Some(x_next) => {
                        lemma_subject_reduction(x, x_next, fun.last);
                    },
                    None => match *f {
                        TermData::TmAbs(param, ty, body) => {
                            lemma_typing_steady(empty, x, fun.last, fun.last);
                            lemma_subst_typing(
                                empty.insert(param.0, ty),
                                empty,
                                x,
                                body,
                                param,
                                fun.last,
                                last,
                            );
                        },
                        _ => {},
                    },
                },
            }
        },
        TermData::TmTyApp(f, ty) => {
            lemma_distinct_concat(f.binders(), ty.binders());
            assert(f.free_vars() =~= Set::<Var>::empty());
            assert(f.free_type_vars() =~= Set::<Var>::empty());
            assert(ty.free_vars() =~= Set::<Var>::empty());
            match stepped(f) {
                Some(f_next) => {
                    lemma_subject_reduction(f, f_next, last);
                },
                None => match *f {
                    TermData::TmTyAbs(param, body) => {
                        lemma_distinct_concat(seq![param], body.binders());
                        assert(seq![param].contains(param)) by {
                            assert(seq![param][0] == param);
                        }
                        lemma_subst_type_typing(empty, empty, ty, body, param, last);
                    },
                    _ => {},
                },
            }
        },
        _ => {},
    }
}

/// Whether a term is a value: the unit value, an abstraction or a type
/// abstraction.
pub open spec fn is_value(term: Term) -> bool {
    *term is TmUnit || *term is TmAbs || *term is TmTyAbs
}

/// Progress. A closed term without error nodes in which the rules find no
/// error is a value or takes a step.
pub proof fn lemma_progress(term: Term, last: nat)
    requires
        term.free_vars() =~= Set::<Var>::empty(),
        term.sound(),
        synth(Map::empty(), term, last).errors.len() == 0,
    ensures
        is_value(term) || stepped(term) is Some,
    decreases term,
{
    let empty = Map::<usize, Type>::empty();
    match *term {
        TermData::TmVar(var) => {
            assert(term.free_vars().contains(var));
        },
        TermData::TmApp(f, x) => {
            assert(f.free_vars() =~= Set::<Var>::empty());
            assert(x.free_vars() =~= Set::<Var>::empty());
            lemma_progress(f, last);
            lemma_progress(x, synth(empty, f, last).last);
        },
        TermData::TmTyApp(f, _) => {
            assert(f.free_vars() =~= Set::<Var>::empty());
            lemma_progress(f, last);
        },
        _ => {},
    }
}

} // verus!
