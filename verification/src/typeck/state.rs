use std::collections::HashMap;
use std::rc::Rc;
use vstd::prelude::*;

use crate::atoms::{AlphaGen, Var};
use crate::syntax::de::{Term, TermData};
use crate::syntax::ty::{same_type, Type, TypeData};
use crate::typeck::error::TypeckError;
use crate::typeck::result::TypeckResult;
use crate::typeck::{applied, fresh, instantiated, lemma_counter_bounds, subst_type, synth};

verus! {

/// The checker's scratch state: the typing context, which grows where a
/// binder is entered and shrinks back where it is left, and the counter of
/// unknowns.
pub struct Typeck(HashMap<usize, Type>, AlphaGen);

impl Typeck {
    /// The type of each identifier in scope, by the identifier's number.
    pub closed spec fn context(&self) -> Map<usize, Type> {
        self.0@
    }

    /// The number of the unknown drawn last.
    pub closed spec fn last(&self) -> nat {
        self.1@
    }

    /// A checker with an empty context that draws its unknowns from `gen`.
    pub fn from(gen: AlphaGen) -> (state: Typeck)
        ensures
            state.context() == Map::<usize, Type>::empty(),
            state.last() == gen@,
    {
        Typeck(HashMap::new(), gen)
    }

    /// Synthesises the type of `term` by the typing rules. The context is
    /// the same after the call as before it.
    pub fn typeck(&mut self, term: Term) -> (r: TypeckResult<Type>)
        requires
            term.sound(),
            synth(old(self).context(), term, old(self).last()).last <= usize::MAX,
        ensures
            r.0 == synth(old(self).context(), term, old(self).last()).ty,
            r.1@ == synth(old(self).context(), term, old(self).last()).errors,
            final(self).last() == synth(old(self).context(), term, old(self).last()).last,
            final(self).context() == old(self).context(),
        decreases *term,
    {
        let ghost ctx = self.context();
        let ghost last = self.last();
        match &*term {
            TermData::TmUnit => TypeckResult::ok(Rc::new(TypeData::TyUnit)),
            TermData::TmVar(var) => {
                match self.get(*var) {
                    Some(ty) => TypeckResult::ok(ty),
                    None => TypeckResult::ok(self.next_hole()),
                }
            },
            TermData::TmAbs(param, ty, body) => {
                let saved = self.insert(*param, ty.clone());
                let TypeckResult(inner, errors) = self.typeck(body.clone());
                self.restore(*param, saved);
                assert(self.context() =~= ctx);
                TypeckResult(Rc::new(TypeData::TyArrow(ty.clone(), inner)), errors)
            },
            TermData::TmApp(f, x) => {
                proof {
                    lemma_counter_bounds(ctx, *f, last);
                    lemma_counter_bounds(ctx, *x, synth(ctx, *f, last).last);
                }
                let fun = self.typeck(f.clone());
                let arg = self.typeck(x.clone());
                let TypeckResult((fun, arg), mut errors) = fun + arg;
                let TypeckResult(out, mut new_errors) = self.assert_app(fun, arg);
                errors.append(&mut new_errors);
                TypeckResult(out, errors)
            },
            TermData::TmTyAbs(param, body) => {
                let TypeckResult(inner, errors) = self.typeck(body.clone());
                TypeckResult(Rc::new(TypeData::TyForall(*param, inner)), errors)
            },
            TermData::TmTyApp(f, ty) => {
                proof {
                    lemma_counter_bounds(ctx, *f, last);
                }
                let TypeckResult(fun, mut errors) = self.typeck(f.clone());
                let TypeckResult(out, mut new_errors) = self.assert_ty_app(fun, ty.clone());
                errors.append(&mut new_errors);
                TypeckResult(out, errors)
            },
            TermData::TmError => TypeckResult::ok(Rc::new(TypeData::TyError)),
        }
    }

    /// The type of `var` in the context, where it has one.
    pub fn get(&self, var: Var) -> (r: Option<Type>)
        ensures
            r == (if self.context().contains_key(var.0) {
                Some(self.context()[var.0])
            } else {
                None::<Type>
            }),
    {
        match self.0.get(&var.0) {
            Some(ty) => Some(ty.clone()),
            None => None,
        }
    }

    /// Binds `var` to `ty` and hands back what it was bound to before.
    pub fn insert(&mut self, var: Var, ty: Type) -> (saved: Option<Type>)
        ensures
            final(self).context() == old(self).context().insert(var.0, ty),
            final(self).last() == old(self).last(),
            saved == (if old(self).context().contains_key(var.0) {
                Some(old(self).context()[var.0])
            } else {
                None::<Type>
            }),
    {
        self.0.insert(var.0, ty)
    }

    /// Undoes an `insert`: `var` is bound to `saved` again, or to nothing.
    pub fn restore(&mut self, var: Var, saved: Option<Type>)
        ensures
            final(self).context() == (match saved {
                Some(ty) => old(self).context().insert(var.0, ty),
                None => old(self).context().remove(var.0),
            }),
            final(self).last() == old(self).last(),
    {
        match saved {
            Some(ty) => {
                self.0.insert(var.0, ty);
            },
            None => {
                self.0.remove(&var.0);
            },
        }
    }

    /// The judgement on an application, by the types of its two sides.
    pub fn assert_app(&mut self, fun: Type, arg: Type) -> (r: TypeckResult<Type>)
        requires
            applied(fun, arg, old(self).last()).last <= usize::MAX,
        ensures
            r.0 == applied(fun, arg, old(self).last()).ty,
            r.1@ == applied(fun, arg, old(self).last()).errors,
            final(self).last() == applied(fun, arg, old(self).last()).last,
            final(self).context() == old(self).context(),
    {
        match &*fun {
            TypeData::TyArrow(from, to) => {
                if same_type(from, &arg) {
                    TypeckResult::ok(to.clone())
                } else {
                    TypeckResult::new(to.clone(), TypeckError::NotEqual(from.clone(), arg))
                }
            },
            _ => {
                let hole = self.next_hole();
                TypeckResult::new(hole, TypeckError::NotAFunction(fun))
            },
        }
    }

    /// The judgement on a type application, by the type of the term and the
    /// type it is applied to.
    pub fn assert_ty_app(&mut self, fun: Type, arg: Type) -> (r: TypeckResult<Type>)
        requires
            instantiated(fun, arg, old(self).last()).last <= usize::MAX,
        ensures
            r.0 == instantiated(fun, arg, old(self).last()).ty,
            r.1@ == instantiated(fun, arg, old(self).last()).errors,
            final(self).last() == instantiated(fun, arg, old(self).last()).last,
            final(self).context() == old(self).context(),
    {
        match &*fun {
            TypeData::TyForall(var, inner) => {
                TypeckResult::ok(subst_type(inner.clone(), arg, *var))
            },
            _ => {
                let hole = self.next_hole();
                TypeckResult::new(hole, TypeckError::NotAForall(fun))
            },
        }
    }

    /// Draws a fresh unknown as a type.
    pub fn next_hole(&mut self) -> (hole: Type)
        requires
            old(self).last() < usize::MAX,
        ensures
            hole == fresh(old(self).last()),
            final(self).last() == old(self).last() + 1,
            final(self).context() == old(self).context(),
    {
        let alpha = self.1.next();
        Rc::new(TypeData::TyAlpha(alpha))
    }
}

} // verus!
