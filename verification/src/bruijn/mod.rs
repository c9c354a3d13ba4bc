//! A nameless form of the syntax: a bound variable holds the number of
//! binders of its kind between it and its own binder, a free variable holds
//! its name. Binders keep their names for the reader.

pub mod de;

use std::rc::Rc;
use vstd::prelude::*;
use vstd::std_specs::convert::{FromSpecImpl, IntoSpec};

use crate::ident::stack::Kind;
use crate::input::{
    InputTerm, InputTermRec, InputType, InputTypeRec, SurfaceTerm, SurfaceTermNode, SurfaceType,
    SurfaceTypeNode,
};

verus! {

pub type Term = Rc<TermData>;

#[derive(Clone, Debug, PartialEq, Eq)]
pub enum TermData {
    TmUnit,
    TmVar(Var),
    TmAbs(String, Type, Term),
    TmApp(Term, Term),
    TmTyAbs(String, Term),
    TmTyApp(Term, Type),
}

pub type Type = Rc<TypeData>;

#[derive(Clone, Debug, PartialEq, Eq)]
pub enum TypeData {
    TyUnit,
    TyHole,
    TyVar(Var),
    TyArrow(Type, Type),
    TyForall(String, Type),
}

#[derive(Clone, Debug, PartialEq, Eq)]
pub enum Var {
    Free(String),
    Bound(usize, String),
}

/// A variable as a value of mathematics.
pub enum Reference {
    Free(Seq<char>),
    Bound(nat, Seq<char>),
}

/// A nameless type as a value of mathematics.
pub enum NamelessType {
    Unit,
    Hole,
    Var(Reference),
    Arrow(Box<NamelessType>, Box<NamelessType>),
    Forall(Seq<char>, Box<NamelessType>),
}

/// A nameless term as a value of mathematics.
pub enum Nameless {
    Unit,
    Var(Reference),
    Abs(Seq<char>, NamelessType, Box<Nameless>),
    App(Box<Nameless>, Box<Nameless>),
    TyAbs(Seq<char>, Box<Nameless>),
    TyApp(Box<Nameless>, NamelessType),
}

impl View for Var {
    type V = Reference;

    open spec fn view(&self) -> Reference {
        match *self {
            Var::Free(name) => Reference::Free(name@),
            Var::Bound(depth, name) => Reference::Bound(depth as nat, name@),
        }
    }
}

/// The mathematical value of a nameless type.
pub open spec fn type_view(ty: Type) -> NamelessType
    decreases ty,
{
    match *ty {
        TypeData::TyUnit => NamelessType::Unit,
        TypeData::TyHole => NamelessType::Hole,
        TypeData::TyVar(var) => NamelessType::Var(var@),
        TypeData::TyArrow(from, to) => NamelessType::Arrow(
            Box::new(type_view(from)),
            Box::new(type_view(to)),
        ),
        TypeData::TyForall(param, body) => NamelessType::Forall(param@, Box::new(type_view(body))),
    }
}

/// The mathematical value of a nameless term.
pub open spec fn term_view(term: Term) -> Nameless
    decreases term,
{
    match *term {
        TermData::TmUnit => Nameless::Unit,
        TermData::TmVar(var) => Nameless::Var(var@),
        TermData::TmAbs(param, ty, body) => Nameless::Abs(
            param@,
            type_view(ty),
            Box::new(term_view(body)),
        ),
        TermData::TmApp(f, x) => Nameless::App(Box::new(term_view(f)), Box::new(term_view(x))),
        TermData::TmTyAbs(param, body) => Nameless::TyAbs(param@, Box::new(term_view(body))),
        TermData::TmTyApp(f, ty) => Nameless::TyApp(Box::new(term_view(f)), type_view(ty)),
    }
}

/// The binders around a place, as kind and name, the innermost first.
pub type Scope = Seq<(Kind, Seq<char>)>;

/// What a variable of kind `kind` named `name` refers to under `scope`:
/// the number of binders of its kind that lie between it and the innermost
/// binder of its kind with its name, or the name itself where there is no
/// such binder.
pub open spec fn referenced(scope: Scope, kind: Kind, name: Seq<char>) -> Reference
    decreases scope.len(),
{
    if scope.len() == 0 {
        Reference::Free(name)
    } else if scope[0].0 == kind && scope[0].1 == name {
        Reference::Bound(0, name)
    } else if scope[0].0 == kind {
        match referenced(scope.drop_first(), kind, name) {
            Reference::Bound(depth, name) => Reference::Bound(depth + 1, name),
            free => free,
        }
    } else {
        referenced(scope.drop_first(), kind, name)
    }
}

/// The nameless form of a type under `scope`.
pub open spec fn nameless_type(scope: Scope, ty: SurfaceType) -> NamelessType
    decreases ty,
{
    match ty.node {
        SurfaceTypeNode::Unit => NamelessType::Unit,
        SurfaceTypeNode::Hole => NamelessType::Hole,
        SurfaceTypeNode::Var(name) => NamelessType::Var(referenced(scope, Kind::Type, name)),
        SurfaceTypeNode::Arrow(from, to) => NamelessType::Arrow(
            Box::new(nameless_type(scope, *from)),
            Box::new(nameless_type(scope, *to)),
        ),
        SurfaceTypeNode::Forall(param, body) => NamelessType::Forall(
            param,
            Box::new(nameless_type(seq![(Kind::Type, param)] + scope, *body)),
        ),
        SurfaceTypeNode::Error => NamelessType::Unit,
    }
}

/// The nameless form of a term under `scope`. The type of a parameter lies
/// outside the reach of the parameter.
pub open spec fn nameless(scope: Scope, term: SurfaceTerm) -> Nameless
    decreases term,
{
    match term.node {
        SurfaceTermNode::Unit => Nameless::Unit,
        SurfaceTermNode::Var(name) => Nameless::Var(referenced(scope, Kind::Term, name)),
        SurfaceTermNode::Abs(param, ty, body) => Nameless::Abs(
            param,
            nameless_type(scope, ty),
            Box::new(nameless(seq![(Kind::Term, param)] + scope, *body)),
        ),
        SurfaceTermNode::App(f, x) => Nameless::App(
            Box::new(nameless(scope, *f)),
            Box::new(nameless(scope, *x)),
        ),
        SurfaceTermNode::TyAbs(param, body) => Nameless::TyAbs(
            param,
            Box::new(nameless(seq![(Kind::Type, param)] + scope, *body)),
        ),
        SurfaceTermNode::TyApp(f, ty) => Nameless::TyApp(
            Box::new(nameless(scope, *f)),
            nameless_type(scope, ty),
        ),
        SurfaceTermNode::Error => Nameless::Unit,
    }
}

/// How deep the binders of a type nest.
pub open spec fn type_depth(ty: SurfaceType) -> nat
    decreases ty,
{
    match ty.node {
        SurfaceTypeNode::Arrow(from, to) => if type_depth(*from) >= type_depth(*to) {
            type_depth(*from)
        } else {
            type_depth(*to)
        },
        SurfaceTypeNode::Forall(_, body) => 1 + type_depth(*body),
        _ => 0,
    }
}

/// How deep the binders of a term nest.
pub open spec fn depth(term: SurfaceTerm) -> nat
    decreases term,
{
    match term.node {
        SurfaceTermNode::Abs(_, ty, body) => if type_depth(ty) >= 1 + depth(*body) {
            type_depth(ty)
        } else {
            1 + depth(*body)
        },
        SurfaceTermNode::App(f, x) => if depth(*f) >= depth(*x) {
            depth(*f)
        } else {
            depth(*x)
        },
        SurfaceTermNode::TyAbs(_, body) => 1 + depth(*body),
        SurfaceTermNode::TyApp(f, ty) => if depth(*f) >= type_depth(ty) {
            depth(*f)
        } else {
            type_depth(ty)
        },
        _ => 0,
    }
}

/// The chain of binders around the place that is being read, the innermost
/// first. A frame borrows the chain it extends.
pub struct Context<'a>(pub Option<(&'a Context<'a>, Kind, String)>);

impl<'a> Context<'a> {
    /// The binders of the chain, the innermost first.
    pub open spec fn scope(&self) -> Scope
        decreases self,
    {
        match self.0 {
            None => Seq::empty(),
            Some((prev, kind, name)) => seq![(kind, name@)] + prev.scope(),
        }
    }

    /// Numbers the variables of a term by the binders around them.
    pub fn rename_term(&self, term: InputTerm) -> (r: Term)
        requires
            term@.well_formed(),
            self.scope().len() + depth(term@) <= usize::MAX,
        ensures
            term_view(r) == nameless(self.scope(), term@),
        decreases term,
    {
        match term.0 {
            InputTermRec::TmUnit => Rc::new(TermData::TmUnit),
            InputTermRec::TmVar(name) => Rc::new(TermData::TmVar(self.find(Kind::Term, name))),
            InputTermRec::TmAbs(param, ty, body) => {
                let ty = self.rename_type(ty);
                let inner = self.with(Kind::Term, param.clone());
                let body = inner.rename_term(*body);
                Rc::new(TermData::TmAbs(param, ty, body))
            },
            InputTermRec::TmApp(f, x) => {
                let f = self.rename_term(*f);
                let x = self.rename_term(*x);
                Rc::new(TermData::TmApp(f, x))
            },
            InputTermRec::TmTyAbs(param, body) => {
                let inner = self.with(Kind::Type, param.clone());
                let body = inner.rename_term(*body);
                Rc::new(TermData::TmTyAbs(param, body))
            },
            InputTermRec::TmTyApp(f, ty) => {
                let f = self.rename_term(*f);
                let ty = self.rename_type(ty);
                Rc::new(TermData::TmTyApp(f, ty))
            },
            InputTermRec::TmError => Rc::new(TermData::TmUnit),
        }
    }

    /// Numbers the variables of a type by the binders around them.
    pub fn rename_type(&self, ty: InputType) -> (r: Type)
        requires
            ty@.well_formed(),
            self.scope().len() + type_depth(ty@) <= usize::MAX,
        ensures
            type_view(r) == nameless_type(self.scope(), ty@),
        decreases ty,
    {
        match ty.0 {
            InputTypeRec::TyUnit => Rc::new(TypeData::TyUnit),
            InputTypeRec::TyHole => Rc::new(TypeData::TyHole),
            InputTypeRec::TyVar(name) => Rc::new(TypeData::TyVar(self.find(Kind::Type, name))),
            InputTypeRec::TyArrow(from, to) => {
                let from = self.rename_type(*from);
                let to = self.rename_type(*to);
                Rc::new(TypeData::TyArrow(from, to))
            },
            InputTypeRec::TyForall(param, body) => {
                let inner = self.with(Kind::Type, param.clone());
                let body = inner.rename_type(*body);
                Rc::new(TypeData::TyForall(param, body))
            },
            InputTypeRec::TyError => Rc::new(TypeData::TyUnit),
        }
    }

    /// What a variable of kind `kind` named `name` refers to here.
    pub fn find(&self, kind: Kind, name: String) -> (var: Var)
        requires
            self.scope().len() <= usize::MAX,
        ensures
            var@ == referenced(self.scope(), kind, name@),
            var@ matches Reference::Bound(depth, _) ==> depth < self.scope().len(),
        decreases self,
    {
        match &self.0 {
            None => Var::Free(name),
            Some((prev, frame_kind, frame_name)) => {
                assert(self.scope().drop_first() =~= prev.scope());
                if *frame_kind == kind && *frame_name == name {
                    Var::Bound(0, name)
                } else if *frame_kind == kind {
                    match prev.find(kind, name) {
                        Var::Bound(depth, name) => Var::Bound(depth + 1, name),
                        free => free,
                    }
                } else {
                    prev.find(kind, name)
                }
            },
        }
    }

    /// The chain extended by a binder of kind `kind` named `name`.
    pub fn with(&'a self, kind: Kind, name: String) -> (inner: Context<'a>)
        ensures
            inner.scope() == seq![(kind, name@)] + self.scope(),
    {
        Context(Some((self, kind, name)))
    }
}

fn larger(left: Option<usize>, right: Option<usize>) -> (r: Option<usize>)
    ensures
        r == (match (left, right) {
            (Some(a), Some(b)) => Some(if a >= b { a } else { b }),
            _ => None,
        }),
{
    match (left, right) {
        (Some(a), Some(b)) => Some(if a >= b { a } else { b }),
        _ => None,
    }
}

fn deeper(inner: Option<usize>) -> (r: Option<usize>)
    ensures
        r == (match inner {
            Some(a) => if a < usize::MAX { Some((a + 1) as usize) } else { None },
            None => None,
        }),
{
    match inner {
        Some(a) => a.checked_add(1),
        None => None,
    }
}

/// How deep the binders of a type nest, where that fits the machine's
/// numbers.
pub fn type_nesting(ty: &InputType) -> (r: Option<usize>)
    ensures
        r == (if type_depth(ty@) <= usize::MAX { Some(type_depth(ty@) as usize) } else { None }),
    decreases *ty,
{
    match &ty.0 {
        InputTypeRec::TyArrow(from, to) => larger(type_nesting(from), type_nesting(to)),
        InputTypeRec::TyForall(_, body) => deeper(type_nesting(body)),
        _ => Some(0),
    }
}

/// How deep the binders of a term nest, where that fits the machine's
/// numbers.
pub fn nesting(term: &InputTerm) -> (r: Option<usize>)
    ensures
        r == (if depth(term@) <= usize::MAX { Some(depth(term@) as usize) } else { None }),
    decreases *term,
{
    match &term.0 {
        InputTermRec::TmAbs(_, ty, body) => larger(type_nesting(ty), deeper(nesting(body))),
        InputTermRec::TmApp(f, x) => larger(nesting(f), nesting(x)),
        InputTermRec::TmTyAbs(_, body) => deeper(nesting(body)),
        InputTermRec::TmTyApp(f, ty) => larger(nesting(f), type_nesting(ty)),
        _ => Some(0),
    }
}

/// The nameless form of a whole term, with no binder around it.
pub fn de_bruijn(term: InputTerm) -> (r: Term)
    requires
        term@.well_formed(),
        depth(term@) <= usize::MAX,
    ensures
        term_view(r) == nameless(Seq::empty(), term@),
{
    Context(None).rename_term(term)
}

impl From<String> for Var {
    fn from(name: String) -> (var: Self) {
        Var::Free(name)
    }
}

impl FromSpecImpl<String> for Var {
    open spec fn obeys_from_spec() -> bool {
        true
    }

    open spec fn from_spec(name: String) -> Self {
        Var::Free(name)
    }
}

impl<S: Into<String>> From<(usize, S)> for Var {
    fn from(bound: (usize, S)) -> (var: Self) {
        Var::Bound(bound.0, bound.1.into())
    }
}

impl<S: Into<String>> FromSpecImpl<(usize, S)> for Var {
    open spec fn obeys_from_spec() -> bool {
        S::obeys_into_spec()
    }

    open spec fn from_spec(bound: (usize, S)) -> Self {
        Var::Bound(bound.0, bound.1.into_spec())
    }
}


} // verus!
