//! The surface syntax tree: what the parser makes of a line. Names are
//! still strings, and every node carries the range of text it was read from.

use vstd::prelude::*;

use crate::atoms::Range;
use crate::ident::stack::Kind;

verus! {

#[derive(Debug, PartialEq, Eq)]
pub enum InputTypeRec {
    TyUnit,
    TyHole,
    TyVar(String),
    TyArrow(Box<InputType>, Box<InputType>),
    TyForall(String, Box<InputType>),
    TyError,
}

#[derive(Debug, PartialEq, Eq)]
pub struct InputType(pub InputTypeRec, pub Range);

#[derive(Debug, PartialEq, Eq)]
pub enum InputTermRec {
    TmUnit,
    TmVar(String),
    TmAbs(String, InputType, Box<InputTerm>),
    TmApp(Box<InputTerm>, Box<InputTerm>),
    TmTyAbs(String, Box<InputTerm>),
    TmTyApp(Box<InputTerm>, InputType),
    TmError,
}

#[derive(Debug, PartialEq, Eq)]
pub struct InputTerm(pub InputTermRec, pub Range);

/// A surface type as a value of mathematics: the names are sequences of
/// characters.
pub struct SurfaceType {
    pub node: SurfaceTypeNode,
    pub range: Range,
}

pub enum SurfaceTypeNode {
    Unit,
    Hole,
    Var(Seq<char>),
    Arrow(Box<SurfaceType>, Box<SurfaceType>),
    Forall(Seq<char>, Box<SurfaceType>),
    Error,
}

/// A surface term as a value of mathematics.
pub struct SurfaceTerm {
    pub node: SurfaceTermNode,
    pub range: Range,
}

pub enum SurfaceTermNode {
    Unit,
    Var(Seq<char>),
    Abs(Seq<char>, SurfaceType, Box<SurfaceTerm>),
    App(Box<SurfaceTerm>, Box<SurfaceTerm>),
    TyAbs(Seq<char>, Box<SurfaceTerm>),
    TyApp(Box<SurfaceTerm>, SurfaceType),
    Error,
}

/// The mathematical value of a surface type.
pub open spec fn surface_type(ty: InputType) -> SurfaceType
    decreases ty,
{
    SurfaceType {
        node: match ty.0 {
            InputTypeRec::TyUnit => SurfaceTypeNode::Unit,
            InputTypeRec::TyHole => SurfaceTypeNode::Hole,
            InputTypeRec::TyVar(name) => SurfaceTypeNode::Var(name@),
            InputTypeRec::TyArrow(from, to) => SurfaceTypeNode::Arrow(
                Box::new(surface_type(*from)),
                Box::new(surface_type(*to)),
            ),
            InputTypeRec::TyForall(param, body) => SurfaceTypeNode::Forall(
                param@,
                Box::new(surface_type(*body)),
            ),
            InputTypeRec::TyError => SurfaceTypeNode::Error,
        },
        range: ty.1,
    }
}

/// The mathematical value of a surface term.
pub open spec fn surface_term(term: InputTerm) -> SurfaceTerm
    decreases term,
{
    SurfaceTerm {
        node: match term.0 {
            InputTermRec::TmUnit => SurfaceTermNode::Unit,
            InputTermRec::TmVar(name) => SurfaceTermNode::Var(name@),
            InputTermRec::TmAbs(param, ty, body) => SurfaceTermNode::Abs(
                param@,
                surface_type(ty),
                Box::new(surface_term(*body)),
            ),
            InputTermRec::TmApp(f, x) => SurfaceTermNode::App(
                Box::new(surface_term(*f)),
                Box::new(surface_term(*x)),
            ),
            InputTermRec::TmTyAbs(param, body) => SurfaceTermNode::TyAbs(
                param@,
                Box::new(surface_term(*body)),
            ),
            InputTermRec::TmTyApp(f, ty) => SurfaceTermNode::TyApp(
                Box::new(surface_term(*f)),
                surface_type(ty),
            ),
            InputTermRec::TmError => SurfaceTermNode::Error,
        },
        range: term.1,
    }
}

impl View for InputType {
    type V = SurfaceType;

    open spec fn view(&self) -> SurfaceType {
        surface_type(*self)
    }
}

impl View for InputTerm {
    type V = SurfaceTerm;

    open spec fn view(&self) -> SurfaceTerm {
        surface_term(*self)
    }
}

impl SurfaceType {
    /// Whether the type holds no error node.
    pub open spec fn well_formed(self) -> bool
        decreases self,
    {
        match self.node {
            SurfaceTypeNode::Arrow(from, to) => from.well_formed() && to.well_formed(),
            SurfaceTypeNode::Forall(_, body) => body.well_formed(),
            SurfaceTypeNode::Error => false,
            _ => true,
        }
    }

    /// The number of holes in the type.
    pub open spec fn holes(self) -> nat
        decreases self,
    {
        match self.node {
            SurfaceTypeNode::Hole => 1,
            SurfaceTypeNode::Arrow(from, to) => from.holes() + to.holes(),
            SurfaceTypeNode::Forall(_, body) => body.holes(),
            _ => 0,
        }
    }

    /// The names at variables that no quantifier around them binds.
    pub open spec fn free_names(self) -> Set<(Kind, Seq<char>)>
        decreases self,
    {
        match self.node {
            SurfaceTypeNode::Var(name) => set![(Kind::Type, name)],
            SurfaceTypeNode::Arrow(from, to) => from.free_names().union(to.free_names()),
            SurfaceTypeNode::Forall(param, body) => body.free_names().remove((Kind::Type, param)),
            _ => Set::empty(),
        }
    }

    /// The names at the binders of the type, outermost first and left to
    /// right.
    pub open spec fn binder_names(self) -> Seq<Seq<char>>
        decreases self,
    {
        match self.node {
            SurfaceTypeNode::Arrow(from, to) => from.binder_names() + to.binder_names(),
            SurfaceTypeNode::Forall(param, body) => seq![param] + body.binder_names(),
            _ => Seq::empty(),
        }
    }
}

impl SurfaceTerm {
    /// Whether neither the term nor a type in it holds an error node.
    pub open spec fn well_formed(self) -> bool
        decreases self,
    {
        match self.node {
            SurfaceTermNode::Abs(_, ty, body) => ty.well_formed() && body.well_formed(),
            SurfaceTermNode::App(f, x) => f.well_formed() && x.well_formed(),
            SurfaceTermNode::TyAbs(_, body) => body.well_formed(),
            SurfaceTermNode::TyApp(f, ty) => f.well_formed() && ty.well_formed(),
            SurfaceTermNode::Error => false,
            _ => true,
        }
    }

    /// The number of holes in the types of the term.
    pub open spec fn holes(self) -> nat
        decreases self,
    {
        match self.node {
            SurfaceTermNode::Abs(_, ty, body) => ty.holes() + body.holes(),
            SurfaceTermNode::App(f, x) => f.holes() + x.holes(),
            SurfaceTermNode::TyAbs(_, body) => body.holes(),
            SurfaceTermNode::TyApp(f, ty) => f.holes() + ty.holes(),
            _ => 0,
        }
    }

    /// The names at variables that no binder of their kind around them
    /// binds: term variables look for an abstraction, type variables for a
    /// type abstraction or a quantifier.
    pub open spec fn free_names(self) -> Set<(Kind, Seq<char>)>
        decreases self,
    {
        match self.node {
            SurfaceTermNode::Var(name) => set![(Kind::Term, name)],
            SurfaceTermNode::Abs(param, ty, body) => ty.free_names().union(
                body.free_names().remove((Kind::Term, param)),
            ),
            SurfaceTermNode::App(f, x) => f.free_names().union(x.free_names()),
            SurfaceTermNode::TyAbs(param, body) => body.free_names().remove((Kind::Type, param)),
            SurfaceTermNode::TyApp(f, ty) => f.free_names().union(ty.free_names()),
            _ => Set::empty(),
        }
    }

    /// The names at the binders of the term and of its types, in the order
    /// in which a reader meets them.
    pub open spec fn binder_names(self) -> Seq<Seq<char>>
        decreases self,
    {
        match self.node {
            SurfaceTermNode::Abs(param, ty, body) => seq![param] + ty.binder_names()
                + body.binder_names(),
            SurfaceTermNode::App(f, x) => f.binder_names() + x.binder_names(),
            SurfaceTermNode::TyAbs(param, body) => seq![param] + body.binder_names(),
            SurfaceTermNode::TyApp(f, ty) => f.binder_names() + ty.binder_names(),
            _ => Seq::empty(),
        }
    }
}

/// Whether a type holds no error node.
pub fn type_error_free(ty: &InputType) -> (b: bool)
    ensures
        b == ty@.well_formed(),
    decreases *ty,
{
    match &ty.0 {
        InputTypeRec::TyArrow(from, to) => type_error_free(from) && type_error_free(to),
        InputTypeRec::TyForall(_, body) => type_error_free(body),
        InputTypeRec::TyError => false,
        _ => true,
    }
}

/// Whether neither a term nor a type in it holds an error node.
pub fn error_free(term: &InputTerm) -> (b: bool)
    ensures
        b == term@.well_formed(),
    decreases *term,
{
    match &term.0 {
        InputTermRec::TmAbs(_, ty, body) => type_error_free(ty) && error_free(body),
        InputTermRec::TmApp(f, x) => error_free(f) && error_free(x),
        InputTermRec::TmTyAbs(_, body) => error_free(body),
        InputTermRec::TmTyApp(f, ty) => error_free(f) && type_error_free(ty),
        InputTermRec::TmError => false,
        _ => true,
    }
}

/// The number of holes in a type, where it fits the machine's numbers.
pub fn count_type_holes(ty: &InputType) -> (n: Option<usize>)
    ensures
        n == (if ty@.holes() <= usize::MAX { Some(ty@.holes() as usize) } else { None }),
    decreases *ty,
{
    match &ty.0 {
        InputTypeRec::TyHole => Some(1),
        InputTypeRec::TyArrow(from, to) => match (count_type_holes(from), count_type_holes(to)) {
            (Some(left), Some(right)) => left.checked_add(right),
            _ => None,
        },
        InputTypeRec::TyForall(_, body) => count_type_holes(body),
        _ => Some(0),
    }
}

/// The number of holes in the types of a term, where it fits the machine's
/// numbers.
pub fn count_holes(term: &InputTerm) -> (n: Option<usize>)
    ensures
        n == (if term@.holes() <= usize::MAX { Some(term@.holes() as usize) } else { None }),
    decreases *term,
{
    match &term.0 {
        InputTermRec::TmAbs(_, ty, body) => match (count_type_holes(ty), count_holes(body)) {
            (Some(left), Some(right)) => left.checked_add(right),
            _ => None,
        },
        InputTermRec::TmApp(f, x) => match (count_holes(f), count_holes(x)) {
            (Some(left), Some(right)) => left.checked_add(right),
            _ => None,
        },
        InputTermRec::TmTyAbs(_, body) => count_holes(body),
        InputTermRec::TmTyApp(f, ty) => match (count_holes(f), count_type_holes(ty)) {
            (Some(left), Some(right)) => left.checked_add(right),
            _ => None,
        },
        _ => Some(0),
    }
}

} // verus!
