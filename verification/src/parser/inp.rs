use vstd::prelude::*;
use vstd::std_specs::convert::IntoSpec;

use crate::atoms::Range;
use crate::input::{InputTerm, InputTermRec, InputType, SurfaceTerm, SurfaceTermNode};

verus! {

/// The range of a node that was built by hand, not read from text.
pub open spec fn nowhere() -> Range {
    Range {
        from: crate::atoms::Position { line: 0, column: 0 },
        until: crate::atoms::Delta { lines: 0, columns: 0 },
    }
}

pub fn unit() -> (r: InputTerm)
    ensures
        r@ == (SurfaceTerm { node: SurfaceTermNode::Unit, range: nowhere() }),
{
    InputTerm(InputTermRec::TmUnit, Range::default())
}

pub fn var<N: Into<String>>(name: N) -> (r: InputTerm)
    ensures
        N::obeys_into_spec() ==> r@ == (SurfaceTerm {
            node: SurfaceTermNode::Var(name.into_spec()@),
            range: nowhere(),
        }),
{
    InputTerm(InputTermRec::TmVar(name.into()), Range::default())
}

pub fn abs<N: Into<String>>(par: N, ty: InputType, body: InputTerm) -> (r: InputTerm)
    ensures
        N::obeys_into_spec() ==> r@ == (SurfaceTerm {
            node: SurfaceTermNode::Abs(par.into_spec()@, ty@, Box::new(body@)),
            range: nowhere(),
        }),
{
    InputTerm(InputTermRec::TmAbs(par.into(), ty, Box::new(body)), Range::default())
}

pub fn app(f: InputTerm, x: InputTerm) -> (r: InputTerm)
    ensures
        r@ == (SurfaceTerm {
            node: SurfaceTermNode::App(Box::new(f@), Box::new(x@)),
            range: nowhere(),
        }),
{
    InputTerm(InputTermRec::TmApp(Box::new(f), Box::new(x)), Range::default())
}

pub fn tyabs<N: Into<String>>(par: N, body: InputTerm) -> (r: InputTerm)
    ensures
        N::obeys_into_spec() ==> r@ == (SurfaceTerm {
            node: SurfaceTermNode::TyAbs(par.into_spec()@, Box::new(body@)),
            range: nowhere(),
        }),
{
    InputTerm(InputTermRec::TmTyAbs(par.into(), Box::new(body)), Range::default())
}

pub fn tyapp(f: InputTerm, x: InputType) -> (r: InputTerm)
    ensures
        r@ == (SurfaceTerm {
            node: SurfaceTermNode::TyApp(Box::new(f@), x@),
            range: nowhere(),
        }),
{
    InputTerm(InputTermRec::TmTyApp(Box::new(f), x), Range::default())
}

pub fn err() -> (r: InputTerm)
    ensures
        r@ == (SurfaceTerm { node: SurfaceTermNode::Error, range: nowhere() }),
{
    InputTerm(InputTermRec::TmError, Range::default())
}

} // verus!
