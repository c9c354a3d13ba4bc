pub mod ty;

use std::rc::Rc;
use vstd::prelude::*;
use vstd::std_specs::convert::IntoSpec;

use crate::bruijn::{Term, TermData, Type, Var};

verus! {

pub fn unit() -> (r: Term)
    ensures
        *r == TermData::TmUnit,
{
    Rc::new(TermData::TmUnit)
}

pub fn abs<N: Into<String>>(param: N, ty: Type, body: Term) -> (r: Term)
    ensures
        N::obeys_into_spec() ==> *r == TermData::TmAbs(param.into_spec(), ty, body),
{
    Rc::new(TermData::TmAbs(param.into(), ty, body))
}

pub fn app(f: Term, x: Term) -> (r: Term)
    ensures
        *r == TermData::TmApp(f, x),
{
    Rc::new(TermData::TmApp(f, x))
}

pub fn var<K: Into<Var>>(key: K) -> (r: Term)
    ensures
        K::obeys_into_spec() ==> *r == TermData::TmVar(key.into_spec()),
{
    Rc::new(TermData::TmVar(key.into()))
}

pub fn ty_abs<N: Into<String>>(param: N, body: Term) -> (r: Term)
    ensures
        N::obeys_into_spec() ==> *r == TermData::TmTyAbs(param.into_spec(), body),
{
    Rc::new(TermData::TmTyAbs(param.into(), body))
}

pub fn ty_app(f: Term, ty: Type) -> (r: Term)
    ensures
        *r == TermData::TmTyApp(f, ty),
{
    Rc::new(TermData::TmTyApp(f, ty))
}

} // verus!
