use std::rc::Rc;
use vstd::prelude::*;
use vstd::std_specs::convert::IntoSpec;

use crate::atoms::Var;
use crate::syntax::ty::{same_type, Type};

verus! {

pub type Term = Rc<TermData>;

#[derive(Clone, Debug, PartialEq, Eq)]
pub enum TermData {
    TmUnit,
    TmVar(Var),
    TmAbs(Var, Type, Term),
    TmApp(Term, Term),
    TmTyAbs(Var, Term),
    TmTyApp(Term, Type),
    TmError,
}

impl TermData {
    /// Whether neither the term nor a type in it holds an error node.
    pub open spec fn sound(&self) -> bool
        decreases self,
    {
        match *self {
            TermData::TmAbs(_, ty, body) => ty.sound() && body.sound(),
            TermData::TmApp(f, x) => f.sound() && x.sound(),
            TermData::TmTyAbs(_, body) => body.sound(),
            TermData::TmTyApp(f, ty) => f.sound() && ty.sound(),
            TermData::TmError => false,
            _ => true,
        }
    }

    /// The identifiers at term variables outside the reach of an
    /// abstraction over them.
    pub open spec fn free_vars(&self) -> Set<Var>
        decreases self,
    {
        match *self {
            TermData::TmVar(var) => set![var],
            TermData::TmAbs(param, _, body) => body.free_vars().remove(param),
            TermData::TmApp(f, x) => f.free_vars().union(x.free_vars()),
            TermData::TmTyAbs(_, body) => body.free_vars(),
            TermData::TmTyApp(f, _) => f.free_vars(),
            _ => Set::empty(),
        }
    }

    /// The identifiers at type variables, in the types of the term, outside
    /// the reach of a type abstraction or a quantifier over them.
    pub open spec fn free_type_vars(&self) -> Set<Var>
        decreases self,
    {
        match *self {
            TermData::TmAbs(_, ty, body) => ty.free_vars().union(body.free_type_vars()),
            TermData::TmApp(f, x) => f.free_type_vars().union(x.free_type_vars()),
            TermData::TmTyAbs(param, body) => body.free_type_vars().remove(param),
            TermData::TmTyApp(f, ty) => f.free_type_vars().union(ty.free_vars()),
            _ => Set::empty(),
        }
    }

    /// Whether every variable of the term, and of the types in it, lies in
    /// the reach of a binder for it.
    pub open spec fn closed(&self) -> bool {
        self.free_vars() =~= Set::<Var>::empty() && self.free_type_vars() =~= Set::<Var>::empty()
    }

    /// The identifiers bound in the term and in its types, in the order in
    /// which a reader meets the binders.
    pub open spec fn binders(&self) -> Seq<Var>
        decreases self,
    {
        match *self {
            TermData::TmAbs(param, ty, body) => seq![param] + ty.binders() + body.binders(),
            TermData::TmApp(f, x) => f.binders() + x.binders(),
            TermData::TmTyAbs(param, body) => seq![param] + body.binders(),
            TermData::TmTyApp(f, ty) => f.binders() + ty.binders(),
            _ => Seq::empty(),
        }
    }

    /// The identifiers at the variables of the term and of its types, left
    /// to right.
    pub open spec fn vars(&self) -> Seq<Var>
        decreases self,
    {
        match *self {
            TermData::TmVar(var) => seq![var],
            TermData::TmAbs(_, ty, body) => ty.vars() + body.vars(),
            TermData::TmApp(f, x) => f.vars() + x.vars(),
            TermData::TmTyAbs(_, body) => body.vars(),
            TermData::TmTyApp(f, ty) => f.vars() + ty.vars(),
            _ => Seq::empty(),
        }
    }

    /// The numbers of the unknowns in the types of the term, left to right.
    pub open spec fn alphas(&self) -> Seq<usize>
        decreases self,
    {
        match *self {
            TermData::TmAbs(_, ty, body) => ty.alphas() + body.alphas(),
            TermData::TmApp(f, x) => f.alphas() + x.alphas(),
            TermData::TmTyAbs(_, body) => body.alphas(),
            TermData::TmTyApp(f, ty) => f.alphas() + ty.alphas(),
            _ => Seq::empty(),
        }
    }
}

pub fn unit() -> (r: Term)
    ensures
        *r == TermData::TmUnit,
{
    Rc::new(TermData::TmUnit)
}

pub fn abs<K: Into<Var>>(param: K, ty: Type, body: Term) -> (r: Term)
    ensures
        K::obeys_into_spec() ==> *r == TermData::TmAbs(param.into_spec(), ty, body),
{
    Rc::new(TermData::TmAbs(param.into(), ty, body))
}

pub fn app(f: Term, x: Term) -> (r: Term)
    ensures
        *r == TermData::TmApp(f, x),
{
    Rc::new(TermData::TmApp(f, x))
}

pub fn var<K: Into<Var>>(key: K) -> (r: Term)
    ensures
        K::obeys_into_spec() ==> *r == TermData::TmVar(key.into_spec()),
{
    Rc::new(TermData::TmVar(key.into()))
}

pub fn ty_abs<K: Into<Var>>(param: K, body: Term) -> (r: Term)
    ensures
        K::obeys_into_spec() ==> *r == TermData::TmTyAbs(param.into_spec(), body),
{
    Rc::new(TermData::TmTyAbs(param.into(), body))
}

pub fn ty_app(f: Term, ty: Type) -> (r: Term)
    ensures
        *r == TermData::TmTyApp(f, ty),
{
    Rc::new(TermData::TmTyApp(f, ty))
}

pub fn error() -> (r: Term)
    ensures
        *r == TermData::TmError,
{
    Rc::new(TermData::TmError)
}

/// Whether neither a term nor a type in it holds an error node.
pub fn is_sound(term: &Term) -> (b: bool)
    ensures
        b == term.sound(),
    decreases **term,
{
    match &**term {
        TermData::TmAbs(_, ty, body) => crate::syntax::ty::is_sound(ty) && is_sound(body),
        TermData::TmApp(f, x) => is_sound(f) && is_sound(x),
        TermData::TmTyAbs(_, body) => is_sound(body),
        TermData::TmTyApp(f, ty) => is_sound(f) && crate::syntax::ty::is_sound(ty),
        TermData::TmError => false,
        _ => true,
    }
}

/// Structural equality of two terms, types included.
pub fn same_term(left: &Term, right: &Term) -> (same: bool)
    ensures
        same == (**left == **right),
    decreases **left,
{
    match (&**left, &**right) {
        (TermData::TmUnit, TermData::TmUnit) => true,
        (TermData::TmVar(a), TermData::TmVar(b)) => a.0 == b.0,
        (TermData::TmAbs(param_l, ty_l, body_l), TermData::TmAbs(param_r, ty_r, body_r)) => {
            param_l.0 == param_r.0 && same_type(ty_l, ty_r) && same_term(body_l, body_r)
        },
        (TermData::TmApp(f_l, x_l), TermData::TmApp(f_r, x_r)) => {
            same_term(f_l, f_r) && same_term(x_l, x_r)
        },
        (TermData::TmTyAbs(param_l, body_l), TermData::TmTyAbs(param_r, body_r)) => {
            param_l.0 == param_r.0 && same_term(body_l, body_r)
        },
        (TermData::TmTyApp(f_l, ty_l), TermData::TmTyApp(f_r, ty_r)) => {
            same_term(f_l, f_r) && same_type(ty_l, ty_r)
        },
        (TermData::TmError, TermData::TmError) => true,
        _ => false,
    }
}

} // verus!
