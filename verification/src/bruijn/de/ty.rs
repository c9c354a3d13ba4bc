use std::rc::Rc;
use vstd::prelude::*;
use vstd::std_specs::convert::IntoSpec;

use crate::bruijn::{Type, TypeData, Var};

verus! {

pub fn unit() -> (r: Type)
    ensures
        *r == TypeData::TyUnit,
{
    Rc::new(TypeData::TyUnit)
}

pub fn hole() -> (r: Type)
    ensures
        *r == TypeData::TyHole,
{
    Rc::new(TypeData::TyHole)
}

pub fn var<K: Into<Var>>(key: K) -> (r: Type)
    ensures
        K::obeys_into_spec() ==> *r == TypeData::TyVar(key.into_spec()),
{
    Rc::new(TypeData::TyVar(key.into()))
}

pub fn arr(from: Type, to: Type) -> (r: Type)
    ensures
        *r == TypeData::TyArrow(from, to),
{
    Rc::new(TypeData::TyArrow(from, to))
}

pub fn for_all<N: Into<String>>(param: N, of: Type) -> (r: Type)
    ensures
        N::obeys_into_spec() ==> *r == TypeData::TyForall(param.into_spec(), of),
{
    Rc::new(TypeData::TyForall(param.into(), of))
}

} // verus!
