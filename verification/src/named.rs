//! Which terms a name table can name: those whose identifiers all have a
//! place in it. Renaming makes such terms, and substitution, evaluation and
//! type checking keep them so.

use vstd::prelude::*;

use crate::atoms::{Names, Var};
use crate::eval::{evaluated, term_substituted, type_substituted};
use crate::ident::context::{next_var, renamed_term, renamed_type, Env};
use crate::ident::stack::Kind;
use crate::input::{SurfaceTerm, SurfaceTermNode, SurfaceType, SurfaceTypeNode};
use crate::syntax::de::{Term, TermData};
use crate::syntax::ty::{Type, TypeData};
use crate::typeck::{substituted, synth, TypeckError};

verus! {

/// Whether every identifier of a type has a name among the first `count`.
pub open spec fn type_named(ty: Type, count: nat) -> bool
    decreases ty,
{
    match *ty {
        TypeData::TyVar(var) => var.0 < count,
        TypeData::TyArrow(from, to) => type_named(from, count) && type_named(to, count),
        TypeData::TyForall(param, body) => param.0 < count && type_named(body, count),
        _ => true,
    }
}

/// Whether every identifier of a term has a name among the first `count`.
pub open spec fn term_named(term: Term, count: nat) -> bool
    decreases term,
{
    match *term {
        TermData::TmVar(var) => var.0 < count,
        TermData::TmAbs(param, ty, body) => param.0 < count && type_named(ty, count) && term_named(
            body,
            count,
        ),
        TermData::TmApp(f, x) => term_named(f, count) && term_named(x, count),
        TermData::TmTyAbs(param, body) => param.0 < count && term_named(body, count),
        TermData::TmTyApp(f, ty) => term_named(f, count) && type_named(ty, count),
        _ => true,
    }
}

/// Whether every identifier of a typing error has a name among the first
/// `count`.
pub open spec fn error_named(error: TypeckError, count: nat) -> bool {
    match error {
        TypeckError::NotEqual(expected, actual) => type_named(expected, count) && type_named(
            actual,
            count,
        ),
        TypeckError::NotAFunction(found) => type_named(found, count),
        TypeckError::NotAForall(found) => type_named(found, count),
    }
}

/// Whether every identifier of a type has a name in `names`.
pub fn names_cover_type(names: &Names, ty: &Type) -> (b: bool)
    ensures
        b == type_named(*ty, names@.len()),
    decreases *ty,
{
    match &**ty {
        TypeData::TyVar(var) => var.0 < names.len(),
        TypeData::TyArrow(from, to) => names_cover_type(names, from) && names_cover_type(names, to),
        TypeData::TyForall(param, body) => param.0 < names.len() && names_cover_type(names, body),
        _ => true,
    }
}

/// Whether every identifier of a term has a name in `names`.
pub fn names_cover(names: &Names, term: &Term) -> (b: bool)
    ensures
        b == term_named(*term, names@.len()),
    decreases *term,
{
    match &**term {
        TermData::TmVar(var) => var.0 < names.len(),
        TermData::TmAbs(param, ty, body) => param.0 < names.len() && names_cover_type(names, ty)
            && names_cover(names, body),
        TermData::TmApp(f, x) => names_cover(names, f) && names_cover(names, x),
        TermData::TmTyAbs(param, body) => param.0 < names.len() && names_cover(names, body),
        TermData::TmTyApp(f, ty) => names_cover(names, f) && names_cover_type(names, ty),
        _ => true,
    }
}

/// Whether every identifier of a typing error has a name in `names`.
pub fn names_cover_error(names: &Names, error: &TypeckError) -> (b: bool)
    ensures
        b == error_named(*error, names@.len()),
{
    match error {
        TypeckError::NotEqual(expected, actual) => names_cover_type(names, expected)
            && names_cover_type(names, actual),
        TypeckError::NotAFunction(found) => names_cover_type(names, found),
        TypeckError::NotAForall(found) => names_cover_type(names, found),
    }
}

/// Whether the scopes resolve names to identifiers among the first `count`
/// only.
pub open spec fn env_named(env: Env, count: nat) -> bool {
    forall|key: (Kind, Seq<char>)| #[trigger] env.contains_key(key) ==> env[key].0 < count
}

/// Whether every type of a context is named among the first `count`.
pub open spec fn ctx_named(ctx: Map<usize, Type>, count: nat) -> bool {
    forall|key: usize| #[trigger] ctx.contains_key(key) ==> type_named(ctx[key], count)
}

/// A type that a table names is named by every longer table.
pub proof fn lemma_type_named_more(ty: Type, count: nat, more: nat)
    requires
        type_named(ty, count),
        count <= more,
    ensures
        type_named(ty, more),
    decreases ty,
{
    match *ty {
        TypeData::TyArrow(from, to) => {
            lemma_type_named_more(from, count, more);
            lemma_type_named_more(to, count, more);
        },
        TypeData::TyForall(_, body) => {
            lemma_type_named_more(body, count, more);
        },
        _ => {},
    }
}

/// A term that a table names is named by every longer table.
pub proof fn lemma_term_named_more(term: Term, count: nat, more: nat)
    requires
        term_named(term, count),
        count <= more,
    ensures
        term_named(term, more),
    decreases term,
{
    match *term {
        TermData::TmAbs(_, ty, body) => {
            lemma_type_named_more(ty, count, more);
            lemma_term_named_more(body, count, more);
        },
        TermData::TmApp(f, x) => {
            lemma_term_named_more(f, count, more);
            lemma_term_named_more(x, count, more);
        },
        TermData::TmTyAbs(_, body) => {
            lemma_term_named_more(body, count, more);
        },
        TermData::TmTyApp(f, ty) => {
            lemma_term_named_more(f, count, more);
            lemma_type_named_more(ty, count, more);
        },
        _ => {},
    }
}

/// The name table that comes out of the renaming of a type names the type
/// that comes out, and is no shorter than the table that went in.
pub proof fn lemma_renamed_type_named(env: Env, ty: SurfaceType, names: Seq<Seq<char>>, last: nat)
    requires
        env_named(env, names.len()),
        renamed_type(env, ty, names, last).names.len() <= usize::MAX,
    ensures
        names.len() <= renamed_type(env, ty, names, last).names.len(),
        type_named(
            renamed_type(env, ty, names, last).out,
            renamed_type(env, ty, names, last).names.len(),
        ),
    decreases ty,
{
    match ty.node {
        SurfaceTypeNode::Var(name) => {
            if env.contains_key((Kind::Type, name)) {
                assert(env[(Kind::Type, name)].0 < names.len());
            }
        },
        SurfaceTypeNode::Arrow(from, to) => {
            let left = renamed_type(env, *from, names, last);
            let right = renamed_type(env, *to, left.names, left.last);
            lemma_names_grow_type(env, *to, left.names, left.last);
            lemma_renamed_type_named(env, *from, names, last);
            lemma_renamed_type_named(env, *to, left.names, left.last);
            lemma_type_named_more(left.out, left.names.len(), right.names.len());
        },
        SurfaceTypeNode::Forall(param, body) => {
            let var = next_var(names);
            let inner_env = env.insert((Kind::Type, param), var);
            lemma_names_grow_type(inner_env, *body, names.push(param), last);
            assert(env_named(inner_env, names.push(param).len())) by {
                assert forall|key: (Kind, Seq<char>)| #[trigger]
                    inner_env.contains_key(key) implies inner_env[key].0 < names.push(
                    param,
                ).len() by {
                    if key != (Kind::Type, param) {
                        assert(env.contains_key(key));
                    }
                }
            }
            lemma_renamed_type_named(inner_env, *body, names.push(param), last);
        },
        _ => {},
    }
}

/// The renaming of a type never shortens the name table.
pub proof fn lemma_names_grow_type(env: Env, ty: SurfaceType, names: Seq<Seq<char>>, last: nat)
    ensures
        names.len() <= renamed_type(env, ty, names, last).names.len(),
    decreases ty,
{
    match ty.node {
        SurfaceTypeNode::Arrow(from, to) => {
            let left = renamed_type(env, *from, names, last);
            lemma_names_grow_type(env, *from, names, last);
            lemma_names_grow_type(env, *to, left.names, left.last);
        },
        SurfaceTypeNode::Forall(param, body) => {
            lemma_names_grow_type(
                env.insert((Kind::Type, param), next_var(names)),
                *body,
                names.push(param),
                last,
            );
        },
        _ => {},
    }
}

/// The renaming of a term never shortens the name table.
pub proof fn lemma_names_grow(env: Env, term: SurfaceTerm, names: Seq<Seq<char>>, last: nat)
    ensures
        names.len() <= renamed_term(env, term, names, last).names.len(),
    decreases term,
{
    match term.node {
        SurfaceTermNode::Abs(param, ty, body) => {
            let inner_env = env.insert((Kind::Term, param), next_var(names));
            let left = renamed_type(inner_env, ty, names.push(param), last);
            lemma_names_grow_type(inner_env, ty, names.push(param), last);
            lemma_names_grow(inner_env, *body, left.names, left.last);
        },
        SurfaceTermNode::App(f, x) => {
            let left = renamed_term(env, *f, names, last);
            lemma_names_grow(env, *f, names, last);
            lemma_names_grow(env, *x, left.names, left.last);
        },
        SurfaceTermNode::TyAbs(param, body) => {
            lemma_names_grow(
                env.insert((Kind::Type, param), next_var(names)),
                *body,
                names.push(param),
                last,
            );
        },
        SurfaceTermNode::TyApp(f, ty) => {
            let left = renamed_term(env, *f, names, last);
            lemma_names_grow(env, *f, names, last);
            lemma_names_grow_type(env, ty, left.names, left.last);
        },
        _ => {},
    }
}

proof fn lemma_env_named_more(env: Env, count: nat, more: nat)
    requires
        env_named(env, count),
        count <= more,
    ensures
        env_named(env, more),
{
}

/// The name table that comes out of the renaming of a term names the term
/// that comes out.
pub proof fn lemma_renamed_named(env: Env, term: SurfaceTerm, names: Seq<Seq<char>>, last: nat)
    requires
        env_named(env, names.len()),
        renamed_term(env, term, names, last).names.len() <= usize::MAX,
    ensures
        term_named(
            renamed_term(env, term, names, last).out,
            renamed_term(env, term, names, last).names.len(),
        ),
    decreases term,
{
    match term.node {
        SurfaceTermNode::Var(name) => {
            if env.contains_key((Kind::Term, name)) {
                assert(env[(Kind::Term, name)].0 < names.len());
            }
        },
        SurfaceTermNode::Abs(param, ty, body) => {
            let var = next_var(names);
            let inner_env = env.insert((Kind::Term, param), var);
            let left = renamed_type(inner_env, ty, names.push(param), last);
            let right = renamed_term(inner_env, *body, left.names, left.last);
            lemma_names_grow_type(inner_env, ty, names.push(param), last);
            lemma_names_grow(inner_env, *body, left.names, left.last);
            assert(env_named(inner_env, names.push(param).len())) by {
                assert forall|key: (Kind, Seq<char>)| #[trigger]
                    inner_env.contains_key(key) implies inner_env[key].0 < names.push(
                    param,
                ).len() by {
                    if key != (Kind::Term, param) {
                        assert(env.contains_key(key));
                    }
                }
            }
            lemma_renamed_type_named(inner_env, ty, names.push(param), last);
            lemma_env_named_more(inner_env, names.push(param).len(), left.names.len());
            lemma_renamed_named(inner_env, *body, left.names, left.last);
            lemma_type_named_more(left.out, left.names.len(), right.names.len());
        },
        SurfaceTermNode::App(f, x) => {
            let left = renamed_term(env, *f, names, last);
            let right = renamed_term(env, *x, left.names, left.last);
            lemma_names_grow(env, *f, names, last);
            lemma_names_grow(env, *x, left.names, left.last);
            lemma_renamed_named(env, *f, names, last);
            lemma_env_named_more(env, names.len(), left.names.len());
            lemma_renamed_named(env, *x, left.names, left.last);
            lemma_term_named_more(left.out, left.names.len(), right.names.len());
        },
        SurfaceTermNode::TyAbs(param, body) => {
            let var = next_var(names);
            let inner_env = env.insert((Kind::Type, param), var);
            lemma_names_grow(inner_env, *body, names.push(param), last);
            assert(env_named(inner_env, names.push(param).len())) by {
                assert forall|key: (Kind, Seq<char>)| #[trigger]
                    inner_env.contains_key(key) implies inner_env[key].0 < names.push(
                    param,
                ).len() by {
                    if key != (Kind::Type, param) {
                        assert(env.contains_key(key));
                    }
                }
            }
            lemma_renamed_named(inner_env, *body, names.push(param), last);
        },
        SurfaceTermNode::TyApp(f, ty) => {
            let left = renamed_term(env, *f, names, last);
            let right = renamed_type(env, ty, left.names, left.last);
            lemma_names_grow(env, *f, names, last);
            lemma_names_grow_type(env, ty, left.names, left.last);
            lemma_renamed_named(env, *f, names, last);
            lemma_env_named_more(env, names.len(), left.names.len());
            lemma_renamed_type_named(env, ty, left.names, left.last);
            lemma_term_named_more(left.out, left.names.len(), right.names.len());
        },
        _ => {},
    }
}

/// Substitution in a type keeps it named.
pub proof fn lemma_substituted_named(body: Type, with: Type, what: Var, count: nat)
    requires
        type_named(body, count),
        type_named(with, count),
    ensures
        type_named(substituted(body, with, what), count),
    decreases body,
{
    match *body {
        TypeData::TyArrow(from, to) => {
            lemma_substituted_named(from, with, what, count);
            lemma_substituted_named(to, with, what, count);
        },
        TypeData::TyForall(param, inner) => {
            if param != what {
                lemma_substituted_named(inner, with, what, count);
            }
        },
        _ => {},
    }
}

/// Substitution of a term for a variable keeps the term named.
pub proof fn lemma_term_substituted_named(with: Term, inside: Term, what: Var, count: nat)
    requires
        term_named(with, count),
        term_named(inside, count),
    ensures
        term_named(term_substituted(with, inside, what), count),
    decreases inside,
{
    match *inside {
        TermData::TmAbs(param, _, body) => {
            if param != what {
                lemma_term_substituted_named(with, body, what, count);
            }
        },
        TermData::TmApp(f, x) => {
            lemma_term_substituted_named(with, f, what, count);
            lemma_term_substituted_named(with, x, what, count);
        },
        TermData::TmTyAbs(_, body) => {
            lemma_term_substituted_named(with, body, what, count);
        },
        TermData::TmTyApp(f, _) => {
            lemma_term_substituted_named(with, f, what, count);
        },
        _ => {},
    }
}

/// Substitution of a type for a type variable keeps the term named.
pub proof fn lemma_type_substituted_named(with: Type, term: Term, var: Var, count: nat)
    requires
        type_named(with, count),
        term_named(term, count),
    ensures
        term_named(type_substituted(with, term, var), count),
    decreases term,
{
    match *term {
        TermData::TmAbs(_, ty, body) => {
            lemma_substituted_named(ty, with, var, count);
            lemma_type_substituted_named(with, body, var, count);
        },
        TermData::TmApp(f, x) => {
            lemma_type_substituted_named(with, f, var, count);
            lemma_type_substituted_named(with, x, var, count);
        },
        TermData::TmTyAbs(param, body) => {
            if param != var {
                lemma_type_substituted_named(with, body, var, count);
            }
        },
        TermData::TmTyApp(f, ty) => {
            lemma_type_substituted_named(with, f, var, count);
            lemma_substituted_named(ty, with, var, count);
        },
        _ => {},
    }
}

/// Evaluation keeps a term named.
pub proof fn lemma_evaluated_named(term: Term, fuel: nat, count: nat)
    requires
        term_named(term, count),
        evaluated(term, fuel) is Some,
    ensures
        term_named(evaluated(term, fuel)->Some_0, count),
    decreases fuel, term,
{
    match *term {
        TermData::TmApp(f, x) => {
            lemma_evaluated_named(f, fuel, count);
            lemma_evaluated_named(x, fuel, count);
            let fun = evaluated(f, fuel)->Some_0;
            let arg = evaluated(x, fuel)->Some_0;
            match *fun {
                TermData::TmAbs(param, _, body) => {
                    lemma_term_substituted_named(arg, body, param, count);
                    lemma_evaluated_named(
                        term_substituted(arg, body, param),
                        (fuel - 1) as nat,
                        count,
                    );
                },
                _ => {},
            }
        },
        TermData::TmTyApp(f, ty) => {
            lemma_evaluated_named(f, fuel, count);
            let fun = evaluated(f, fuel)->Some_0;
            match *fun {
                TermData::TmTyAbs(param, body) => {
                    lemma_type_substituted_named(ty, body, param, count);
                    lemma_evaluated_named(
                        type_substituted(ty, body, param),
                        (fuel - 1) as nat,
                        count,
                    );
                },
                _ => {},
            }
        },
        _ => {},
    }
}

/// The type of a named term under a named context is named, and so is
/// every error that the rules find in the term.
pub proof fn lemma_synth_named(ctx: Map<usize, Type>, term: Term, last: nat, count: nat)
    requires
        ctx_named(ctx, count),
        term_named(term, count),
    ensures
        type_named(synth(ctx, term, last).ty, count),
        forall|i: int|
            0 <= i < synth(ctx, term, last).errors.len() ==> error_named(
                #[trigger] synth(ctx, term, last).errors[i],
                count,
            ),
    decreases term,
{
    match *term {
        TermData::TmAbs(param, ty, body) => {
            lemma_synth_named(ctx.insert(param.0, ty), body, last, count);
        },
        TermData::TmApp(f, x) => {
            lemma_synth_named(ctx, f, last, count);
            lemma_synth_named(ctx, x, synth(ctx, f, last).last, count);
        },
        TermData::TmTyAbs(_, body) => {
            lemma_synth_named(ctx, body, last, count);
        },
        TermData::TmTyApp(f, ty) => {
            lemma_synth_named(ctx, f, last, count);
            let fun = synth(ctx, f, last);
            match *fun.ty {
                TypeData::TyForall(var, inner) => {
                    lemma_substituted_named(inner, ty, var, count);
                },
                _ => {},
            }
        },
        _ => {},
    }
}

} // verus!
