use std::rc::Rc;
use vstd::prelude::*;
use vstd::std_specs::convert::IntoSpec;

use crate::atoms::{Alpha, Var};

verus! {

pub type Type = Rc<TypeData>;

#[derive(Clone, Debug, PartialEq, Eq)]
pub enum TypeData {
    TyUnit,
    TyAlpha(Alpha),
    TyVar(Var),
    TyArrow(Type, Type),
    TyForall(Var, Type),
    TyError,
}

impl TypeData {
    /// Whether the type holds no error node.
    pub open spec fn sound(&self) -> bool
        decreases self,
    {
        match *self {
            TypeData::TyArrow(from, to) => from.sound() && to.sound(),
            TypeData::TyForall(_, body) => body.sound(),
            TypeData::TyError => false,
            _ => true,
        }
    }

    /// The identifiers that occur in the type outside the reach of a binder
    /// for them.
    pub open spec fn free_vars(&self) -> Set<Var>
        decreases self,
    {
        match *self {
            TypeData::TyVar(var) => set![var],
            TypeData::TyArrow(from, to) => from.free_vars().union(to.free_vars()),
            TypeData::TyForall(param, body) => body.free_vars().remove(param),
            _ => Set::empty(),
        }
    }

    /// The identifiers bound in the type, outermost first and left to right.
    pub open spec fn binders(&self) -> Seq<Var>
        decreases self,
    {
        match *self {
            TypeData::TyArrow(from, to) => from.binders() + to.binders(),
            TypeData::TyForall(param, body) => seq![param] + body.binders(),
            _ => Seq::empty(),
        }
    }

    /// The identifiers at the variables of the type, left to right.
    pub open spec fn vars(&self) -> Seq<Var>
        decreases self,
    {
        match *self {
            TypeData::TyVar(var) => seq![var],
            TypeData::TyArrow(from, to) => from.vars() + to.vars(),
            TypeData::TyForall(_, body) => body.vars(),
            _ => Seq::empty(),
        }
    }

    /// The numbers of the unknowns in the type, left to right.
    pub open spec fn alphas(&self) -> Seq<usize>
        decreases self,
    {
        match *self {
            TypeData::TyAlpha(alpha) => seq![alpha.0],
            TypeData::TyArrow(from, to) => from.alphas() + to.alphas(),
            TypeData::TyForall(_, body) => body.alphas(),
            _ => Seq::empty(),
        }
    }
}

pub fn unit() -> (r: Type)
    ensures
        *r == TypeData::TyUnit,
{
    Rc::new(TypeData::TyUnit)
}

pub fn hole<A: Into<Alpha>>(num: A) -> (r: Type)
    ensures
        A::obeys_into_spec() ==> *r == TypeData::TyAlpha(num.into_spec()),
{
    Rc::new(TypeData::TyAlpha(num.into()))
}

pub fn var<K: Into<Var>>(key: K) -> (r: Type)
    ensures
        K::obeys_into_spec() ==> *r == TypeData::TyVar(key.into_spec()),
{
    Rc::new(TypeData::TyVar(key.into()))
}

pub fn arr(from: Type, to: Type) -> (r: Type)
    ensures
        *r == TypeData::TyArrow(from, to),
{
    Rc::new(TypeData::TyArrow(from, to))
}

pub fn for_all<K: Into<Var>>(param: K, of: Type) -> (r: Type)
    ensures
        K::obeys_into_spec() ==> *r == TypeData::TyForall(param.into_spec(), of),
{
    Rc::new(TypeData::TyForall(param.into(), of))
}

pub fn error() -> (r: Type)
    ensures
        *r == TypeData::TyError,
{
    Rc::new(TypeData::TyError)
}

/// Whether a type holds no error node.
pub fn is_sound(ty: &Type) -> (b: bool)
    ensures
        b == ty.sound(),
    decreases **ty,
{
    match &**ty {
        TypeData::TyArrow(from, to) => is_sound(from) && is_sound(to),
        TypeData::TyForall(_, body) => is_sound(body),
        TypeData::TyError => false,
        _ => true,
    }
}

/// Structural equality of two types: the same shape with the same
/// identifiers and unknowns at the same places.
pub fn same_type(left: &Type, right: &Type) -> (same: bool)
    ensures
        same == (**left == **right),
    decreases **left,
{
    match (&**left, &**right) {
        (TypeData::TyUnit, TypeData::TyUnit) => true,
        (TypeData::TyAlpha(a), TypeData::TyAlpha(b)) => a.0 == b.0,
        (TypeData::TyVar(a), TypeData::TyVar(b)) => a.0 == b.0,
        (TypeData::TyArrow(from_l, to_l), TypeData::TyArrow(from_r, to_r)) => {
            same_type(from_l, from_r) && same_type(to_l, to_r)
        },
        (TypeData::TyForall(param_l, body_l), TypeData::TyForall(param_r, body_r)) => {
            param_l.0 == param_r.0 && same_type(body_l, body_r)
        },
        (TypeData::TyError, TypeData::TyError) => true,
        _ => false,
    }
}

} // verus!
