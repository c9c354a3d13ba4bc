use vstd::prelude::*;
use vstd::std_specs::convert::IntoSpec;

use crate::atoms::Range;
use crate::input::{InputType, InputTypeRec, SurfaceType, SurfaceTypeNode};
use crate::parser::inp::nowhere;

verus! {

pub fn unit() -> (r: InputType)
    ensures
        r@ == (SurfaceType { node: SurfaceTypeNode::Unit, range: nowhere() }),
{
    InputType(InputTypeRec::TyUnit, Range::default())
}

pub fn hole() -> (r: InputType)
    ensures
        r@ == (SurfaceType { node: SurfaceTypeNode::Hole, range: nowhere() }),
{
    InputType(InputTypeRec::TyHole, Range::default())
}

pub fn var<N: Into<String>>(name: N) -> (r: InputType)
    ensures
        N::obeys_into_spec() ==> r@ == (SurfaceType {
            node: SurfaceTypeNode::Var(name.into_spec()@),
            range: nowhere(),
        }),
{
    InputType(InputTypeRec::TyVar(name.into()), Range::default())
}

pub fn arr(from: InputType, to: InputType) -> (r: InputType)
    ensures
        r@ == (SurfaceType {
            node: SurfaceTypeNode::Arrow(Box::new(from@), Box::new(to@)),
            range: nowhere(),
        }),
{
    InputType(InputTypeRec::TyArrow(Box::new(from), Box::new(to)), Range::default())
}

pub fn for_all<N: Into<String>>(par: N, body: InputType) -> (r: InputType)
    ensures
        N::obeys_into_spec() ==> r@ == (SurfaceType {
            node: SurfaceTypeNode::Forall(par.into_spec()@, Box::new(body@)),
            range: nowhere(),
        }),
{
    InputType(InputTypeRec::TyForall(par.into(), Box::new(body)), Range::default())
}

pub fn error() -> (r: InputType)
    ensures
        r@ == (SurfaceType { node: SurfaceTypeNode::Error, range: nowhere() }),
{
    InputType(InputTypeRec::TyError, Range::default())
}

} // verus!
