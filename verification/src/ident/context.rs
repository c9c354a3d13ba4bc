use std::rc::Rc;
use vstd::prelude::*;

use crate::atoms::{Alpha, AlphaGen, Names, Var};
use crate::ident::stack::{Kind, Stack};
use crate::ident::unbound::Unbound;
use crate::input::{
    InputTerm, InputTermRec, InputType, InputTypeRec, SurfaceTerm, SurfaceTermNode, SurfaceType,
    SurfaceTypeNode,
};
use crate::multi_result::{empty, MultiResult};
use crate::syntax::de::{Term, TermData};
use crate::syntax::ty::{Type, TypeData};

verus! {

/// What the pass over a piece of syntax yields: the internal syntax, the
/// name table and the number of the last unknown after it, and the names it
/// found unbound.
pub struct Renamed<T> {
    pub out: T,
    pub names: Seq<Seq<char>>,
    pub last: nat,
    pub unbound: Set<Seq<char>>,
}

/// The scopes: the identifier that each name of each kind resolves to.
pub type Env = Map<(Kind, Seq<char>), Var>;

/// The identifier that a binder gets when the name table is `names`.
pub open spec fn next_var(names: Seq<Seq<char>>) -> Var {
    Var(names.len() as usize)
}

/// The renaming of a type. A variable becomes the identifier that its name
/// resolves to as a type variable, or an error node where it resolves to
/// none. A quantifier gets the next identifier and binds its name to it in
/// its body. A hole becomes the next unknown.
pub open spec fn renamed_type(
    env: Env,
    ty: SurfaceType,
    names: Seq<Seq<char>>,
    last: nat,
) -> Renamed<Type>
    decreases ty,
{
    match ty.node {
        SurfaceTypeNode::Unit => Renamed {
            out: Rc::new(TypeData::TyUnit),
            names,
            last,
            unbound: Set::empty(),
        },
        SurfaceTypeNode::Hole => Renamed {
            out: Rc::new(TypeData::TyAlpha(Alpha((last + 1) as usize))),
            names,
            last: last + 1,
            unbound: Set::empty(),
        },
        SurfaceTypeNode::Var(name) => if env.contains_key((Kind::Type, name)) {
            Renamed {
                out: Rc::new(TypeData::TyVar(env[(Kind::Type, name)])),
                names,
                last,
                unbound: Set::empty(),
            }
        } else {
            Renamed { out: Rc::new(TypeData::TyError), names, last, unbound: set![name] }
        },
        SurfaceTypeNode::Arrow(from, to) => {
            let left = renamed_type(env, *from, names, last);
            let right = renamed_type(env, *to, left.names, left.last);
            Renamed {
                out: Rc::new(TypeData::TyArrow(left.out, right.out)),
                names: right.names,
                last: right.last,
                unbound: left.unbound.union(right.unbound),
            }
        },
        SurfaceTypeNode::Forall(param, body) => {
            let var = next_var(names);
            let inner = renamed_type(
                env.insert((Kind::Type, param), var),
                *body,
                names.push(param),
                last,
            );
            Renamed {
                out: Rc::new(TypeData::TyForall(var, inner.out)),
                names: inner.names,
                last: inner.last,
                unbound: inner.unbound,
            }
        },
        SurfaceTypeNode::Error => Renamed {
            out: Rc::new(TypeData::TyError),
            names,
            last,
            unbound: Set::empty(),
        },
    }
}

/// The renaming of a term. A variable becomes the identifier that its name
/// resolves to as a term variable, or an error node where it resolves to
/// none. An abstraction gets the next identifier and binds its name to it
/// as a term variable; a type abstraction does so as a type variable.
pub open spec fn renamed_term(
    env: Env,
    term: SurfaceTerm,
    names: Seq<Seq<char>>,
    last: nat,
) -> Renamed<Term>
    decreases term,
{
    match term.node {
        SurfaceTermNode::Unit => Renamed {
            out: Rc::new(TermData::TmUnit),
            names,
            last,
            unbound: Set::empty(),
        },
        SurfaceTermNode::Var(name) => if env.contains_key((Kind::Term, name)) {
            Renamed {
                out: Rc::new(TermData::TmVar(env[(Kind::Term, name)])),
                names,
                last,
                unbound: Set::empty(),
            }
        } else {
            Renamed { out: Rc::new(TermData::TmError), names, last, unbound: set![name] }
        },
        SurfaceTermNode::Abs(param, ty, body) => {
            let var = next_var(names);
            let inner_env = env.insert((Kind::Term, param), var);
            let left = renamed_type(inner_env, ty, names.push(param), last);
            let right = renamed_term(inner_env, *body, left.names, left.last);
            Renamed {
                out: Rc::new(TermData::TmAbs(var, left.out, right.out)),
                names: right.names,
                last: right.last,
                unbound: left.unbound.union(right.unbound),
            }
        },
        SurfaceTermNode::App(f, x) => {
            let left = renamed_term(env, *f, names, last);
            let right = renamed_term(env, *x, left.names, left.last);
            Renamed {
                out: Rc::new(TermData::TmApp(left.out, right.out)),
                names: right.names,
                last: right.last,
                unbound: left.unbound.union(right.unbound),
            }
        },
        SurfaceTermNode::TyAbs(param, body) => {
            let var = next_var(names);
            let inner = renamed_term(
                env.insert((Kind::Type, param), var),
                *body,
                names.push(param),
                last,
            );
            Renamed {
                out: Rc::new(TermData::TmTyAbs(var, inner.out)),
                names: inner.names,
                last: inner.last,
                unbound: inner.unbound,
            }
        },
        SurfaceTermNode::TyApp(f, ty) => {
            let left = renamed_term(env, *f, names, last);
            let right = renamed_type(env, ty, left.names, left.last);
            Renamed {
                out: Rc::new(TermData::TmTyApp(left.out, right.out)),
                names: right.names,
                last: right.last,
                unbound: left.unbound.union(right.unbound),
            }
        },
        SurfaceTermNode::Error => Renamed {
            out: Rc::new(TermData::TmError),
            names,
            last,
            unbound: Set::empty(),
        },
    }
}

/// The pass draws one unknown for each hole of a type and no other.
pub proof fn lemma_type_holes_drawn(env: Env, ty: SurfaceType, names: Seq<Seq<char>>, last: nat)
    ensures
        renamed_type(env, ty, names, last).last == last + ty.holes(),
    decreases ty,
{
    match ty.node {
        SurfaceTypeNode::Arrow(from, to) => {
            lemma_type_holes_drawn(env, *from, names, last);
            let left = renamed_type(env, *from, names, last);
            lemma_type_holes_drawn(env, *to, left.names, left.last);
        },
        SurfaceTypeNode::Forall(param, body) => {
            lemma_type_holes_drawn(
                env.insert((Kind::Type, param), next_var(names)),
                *body,
                names.push(param),
                last,
            );
        },
        _ => {},
    }
}

/// The pass draws one unknown for each hole of a term and no other.
pub proof fn lemma_holes_drawn(env: Env, term: SurfaceTerm, names: Seq<Seq<char>>, last: nat)
    ensures
        renamed_term(env, term, names, last).last == last + term.holes(),
    decreases term,
{
    match term.node {
        SurfaceTermNode::Abs(param, ty, body) => {
            let inner_env = env.insert((Kind::Term, param), next_var(names));
            lemma_type_holes_drawn(inner_env, ty, names.push(param), last);
            let left = renamed_type(inner_env, ty, names.push(param), last);
            lemma_holes_drawn(inner_env, *body, left.names, left.last);
        },
        SurfaceTermNode::App(f, x) => {
            lemma_holes_drawn(env, *f, names, last);
            let left = renamed_term(env, *f, names, last);
            lemma_holes_drawn(env, *x, left.names, left.last);
        },
        SurfaceTermNode::TyAbs(param, body) => {
            lemma_holes_drawn(
                env.insert((Kind::Type, param), next_var(names)),
                *body,
                names.push(param),
                last,
            );
        },
        SurfaceTermNode::TyApp(f, ty) => {
            lemma_holes_drawn(env, *f, names, last);
            let left = renamed_term(env, *f, names, last);
            lemma_type_holes_drawn(env, ty, left.names, left.last);
        },
        _ => {},
    }
}

/// A best-effort piece of internal syntax together with the names found
/// unbound on the way to it.
pub type CtxResult<T> = MultiResult<T, (), Unbound>;

/// What the pass carries along: the name table and the counter of
/// unknowns.
pub struct Context {
    pub names: Names,
    pub alpha: AlphaGen,
}

impl Default for Context {
    fn default() -> (ctx: Context)
        ensures
            ctx.names@ == Seq::<Seq<char>>::empty(),
            ctx.alpha@ == 0,
    {
        Context { names: Names::default(), alpha: AlphaGen::default() }
    }
}

fn term_var(var: Var) -> (node: Term)
    ensures
        *node == TermData::TmVar(var),
{
    Rc::new(TermData::TmVar(var))
}

fn type_var(var: Var) -> (node: Type)
    ensures
        *node == TypeData::TyVar(var),
{
    Rc::new(TypeData::TyVar(var))
}

/// Resolves a variable of kind `kind`: `then` makes the node for the
/// identifier found, `otherwise` makes the node for a name that is bound
/// nowhere, and that name is then the one error.
pub fn rename_var<T, F: FnOnce(Var) -> T, G: FnOnce() -> T>(
    stack: &Stack,
    kind: Kind,
    name: String,
    then: F,
    otherwise: G,
) -> (r: CtxResult<T>)
    requires
        forall|var: Var| then.requires((var,)),
        otherwise.requires(()),
    ensures
        stack.env().contains_key((kind, name@)) ==> then.ensures(
            (stack.env()[(kind, name@)],),
            r.result,
        ) && r.errors@ == Set::<Seq<char>>::empty(),
        !stack.env().contains_key((kind, name@)) ==> otherwise.ensures((), r.result) && r.errors@
            == set![name@],
{
    match stack.map(kind, name) {
        Ok(var) => MultiResult::ok(then(var), empty()),
        Err(name) => MultiResult::err(otherwise(), name),
    }
}

impl Context {
    /// Renames a term under the scopes of `stack`. Every binder gets the
    /// next identifier and its name goes into the name table; every hole
    /// gets the next unknown; every variable gets the identifier of the
    /// nearest binder of its kind with its name. The term comes out whether
    /// or not names were unbound: the errors are exactly those names.
    pub fn rename_term(&mut self, stack: &Stack, term: InputTerm) -> (r: CtxResult<Term>)
        requires
            term@.well_formed(),
            old(self).alpha@ + term@.holes() <= usize::MAX,
        ensures
            r.result == renamed_term(stack.env(), term@, old(self).names@, old(self).alpha@).out,
            r.errors@ == renamed_term(
                stack.env(),
                term@,
                old(self).names@,
                old(self).alpha@,
            ).unbound,
            final(self).names@ == renamed_term(
                stack.env(),
                term@,
                old(self).names@,
                old(self).alpha@,
            ).names,
            final(self).alpha@ == renamed_term(
                stack.env(),
                term@,
                old(self).names@,
                old(self).alpha@,
            ).last,
        decreases term,
    {
        let ghost env = stack.env();
        let ghost names = self.names@;
        let ghost last = self.alpha@;
        match term.0 {
            InputTermRec::TmUnit => MultiResult::ok(Rc::new(TermData::TmUnit), empty()),
            InputTermRec::TmVar(name) => rename_var(
                stack,
                Kind::Term,
                name,
                term_var,
                crate::syntax::de::error,
            ),
            InputTermRec::TmAbs(param, ty, body) => {
                let var = self.names.push(param.clone());
                let inner = stack.push(Kind::Term, param, var);
                proof {
                    lemma_type_holes_drawn(inner.env(), ty@, self.names@, last);
                }
                let left = self.rename_type(&inner, ty);
                let right = self.rename_term(&inner, *body);
                let MultiResult { result, state, errors } = left + right;
                MultiResult { result: Rc::new(TermData::TmAbs(var, result.0, result.1)), state, errors }
            },
            InputTermRec::TmApp(f, x) => {
                proof {
                    lemma_holes_drawn(env, f@, names, last);
                }
                let left = self.rename_term(stack, *f);
                let right = self.rename_term(stack, *x);
                let MultiResult { result, state, errors } = left + right;
                MultiResult { result: Rc::new(TermData::TmApp(result.0, result.1)), state, errors }
            },
            InputTermRec::TmTyAbs(param, body) => {
                let var = self.names.push(param.clone());
                let inner = stack.push(Kind::Type, param, var);
                let MultiResult { result, state, errors } = self.rename_term(&inner, *body);
                MultiResult { result: Rc::new(TermData::TmTyAbs(var, result)), state, errors }
            },
            InputTermRec::TmTyApp(f, ty) => {
                proof {
                    lemma_holes_drawn(env, f@, names, last);
                }
                let left = self.rename_term(stack, *f);
                let right = self.rename_type(stack, ty);
                let MultiResult { result, state, errors } = left + right;
                MultiResult { result: Rc::new(TermData::TmTyApp(result.0, result.1)), state, errors }
            },
            InputTermRec::TmError => MultiResult::ok(Rc::new(TermData::TmError), empty()),
        }
    }

    /// Renames a type under the scopes of `stack`, as `rename_term` does a
    /// term.
    pub fn rename_type(&mut self, stack: &Stack, ty: InputType) -> (r: CtxResult<Type>)
        requires
            ty@.well_formed(),
            old(self).alpha@ + ty@.holes() <= usize::MAX,
        ensures
            r.result == renamed_type(stack.env(), ty@, old(self).names@, old(self).alpha@).out,
            r.errors@ == renamed_type(stack.env(), ty@, old(self).names@, old(self).alpha@).unbound,
            final(self).names@ == renamed_type(
                stack.env(),
                ty@,
                old(self).names@,
                old(self).alpha@,
            ).names,
            final(self).alpha@ == renamed_type(
                stack.env(),
                ty@,
                old(self).names@,
                old(self).alpha@,
            ).last,
        decreases ty, 0nat,
    {
        let ghost env = stack.env();
        let ghost names = self.names@;
        let ghost last = self.alpha@;
        match ty.0 {
            InputTypeRec::TyUnit => MultiResult::ok(Rc::new(TypeData::TyUnit), empty()),
            InputTypeRec::TyHole => {
                let alpha = self.alpha.next();
                MultiResult::ok(Rc::new(TypeData::TyAlpha(alpha)), empty())
            },
            InputTypeRec::TyVar(name) => rename_var(
                stack,
                Kind::Type,
                name,
                type_var,
                crate::syntax::ty::error,
            ),
            InputTypeRec::TyArrow(from, to) => {
                proof {
                    lemma_type_holes_drawn(env, from@, names, last);
                }
                let left = self.rename_type(stack, *from);
                let right = self.rename_type(stack, *to);
                let MultiResult { result, state, errors } = left + right;
                MultiResult { result: Rc::new(TypeData::TyArrow(result.0, result.1)), state, errors }
            },
            InputTypeRec::TyForall(param, body) => {
                self.rename_arrow(stack, param, *body)
            },
            InputTypeRec::TyError => MultiResult::ok(Rc::new(TypeData::TyError), empty()),
        }
    }

    /// Renames a quantified type: the quantifier gets the next identifier,
    /// and the body is renamed with the quantifier's name bound to it.
    pub fn rename_arrow(&mut self, stack: &Stack, param: String, body: InputType) -> (r: CtxResult<
        Type,
    >)
        requires
            body@.well_formed(),
            old(self).alpha@ + body@.holes() <= usize::MAX,
        ensures
            r.result == Rc::new(
                TypeData::TyForall(
                    next_var(old(self).names@),
                    renamed_type(
                        stack.env().insert((Kind::Type, param@), next_var(old(self).names@)),
                        body@,
                        old(self).names@.push(param@),
                        old(self).alpha@,
                    ).out,
                ),
            ),
            r.errors@ == renamed_type(
                stack.env().insert((Kind::Type, param@), next_var(old(self).names@)),
                body@,
                old(self).names@.push(param@),
                old(self).alpha@,
            ).unbound,
            final(self).names@ == renamed_type(
                stack.env().insert((Kind::Type, param@), next_var(old(self).names@)),
                body@,
                old(self).names@.push(param@),
                old(self).alpha@,
            ).names,
            final(self).alpha@ == renamed_type(
                stack.env().insert((Kind::Type, param@), next_var(old(self).names@)),
                body@,
                old(self).names@.push(param@),
                old(self).alpha@,
            ).last,
        decreases body, 1nat,
    {
        let var = self.names.push(param.clone());
        let inner = stack.push(Kind::Type, param, var);
        let MultiResult { result, state, errors } = self.rename_type(&inner, body);
        MultiResult { result: Rc::new(TypeData::TyForall(var, result)), state, errors }
    }
}

} // verus!
