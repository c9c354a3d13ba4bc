//! Identification over one mutable table: binders are pushed where they are
//! entered and popped where they are left, and a name that is bound nowhere
//! gets an identifier of its own, which all its later uses share.

use std::rc::Rc;
use vstd::prelude::*;

use crate::atoms::{Alpha, AlphaGen, Var};
use crate::ident::stack::Kind;
use crate::ident::unbound::Unbound;
use crate::input::{
    InputTerm, InputTermRec, InputType, InputTypeRec, SurfaceTerm, SurfaceTermNode, SurfaceType,
    SurfaceTypeNode,
};
use crate::syntax::de::{Term, TermData};
use crate::syntax::ty::{Type, TypeData};

verus! {

/// A name of some kind and the identifier it stands for.
pub struct Frame {
    pub kind: Kind,
    pub name: String,
    pub var: Var,
}

/// A frame as a value of mathematics.
pub struct Entry {
    pub kind: Kind,
    pub name: Seq<char>,
    pub var: Var,
}

impl View for Frame {
    type V = Entry;

    open spec fn view(&self) -> Entry {
        Entry { kind: self.kind, name: self.name@, var: self.var }
    }
}

/// The frames as values of mathematics.
pub open spec fn entries(frames: Seq<Frame>) -> Seq<Entry> {
    Seq::new(frames.len(), |i: int| frames[i]@)
}

/// What the pass has made so far: the source name of every identifier, the
/// identifiers given to unbound names in the order in which the names were
/// first met, and the number of the unknown drawn last.
pub struct Store {
    pub index: Seq<Seq<char>>,
    pub free: Seq<Entry>,
    pub last: nat,
}

/// The identifier of the last frame of `frames` with this kind and name.
pub open spec fn lookup(frames: Seq<Entry>, kind: Kind, name: Seq<char>) -> Option<Var>
    decreases frames.len(),
{
    if frames.len() == 0 {
        None
    } else if frames.last().kind == kind && frames.last().name == name {
        Some(frames.last().var)
    } else {
        lookup(frames.drop_last(), kind, name)
    }
}

/// The identifier of a variable and the store after it was resolved: the
/// innermost binder of its kind with its name; else the identifier given
/// to the name when it was first found unbound; else a new identifier,
/// which the store then holds for the name.
pub open spec fn found(bound: Seq<Entry>, kind: Kind, name: Seq<char>, store: Store) -> (Var, Store) {
    match lookup(bound, kind, name) {
        Some(var) => (var, store),
        None => match lookup(store.free, kind, name) {
            Some(var) => (var, store),
            None => {
                let var = Var(store.index.len() as usize);
                (
                    var,
                    Store {
                        index: store.index.push(name),
                        free: store.free.push(Entry { kind, name, var }),
                        last: store.last,
                    },
                )
            },
        },
    }
}

/// The store after a binder named `name` was entered.
pub open spec fn entered(store: Store, name: Seq<char>) -> Store {
    Store { index: store.index.push(name), free: store.free, last: store.last }
}

/// The renaming of a type under the binders `bound`, and the store after
/// it.
pub open spec fn interned_type(bound: Seq<Entry>, ty: SurfaceType, store: Store) -> (Type, Store)
    decreases ty,
{
    match ty.node {
        SurfaceTypeNode::Unit => (Rc::new(TypeData::TyUnit), store),
        SurfaceTypeNode::Hole => (
            Rc::new(TypeData::TyAlpha(Alpha((store.last + 1) as usize))),
            Store { index: store.index, free: store.free, last: store.last + 1 },
        ),
        SurfaceTypeNode::Var(name) => {
            let (var, store) = found(bound, Kind::Type, name, store);
            (Rc::new(TypeData::TyVar(var)), store)
        },
        SurfaceTypeNode::Arrow(from, to) => {
            let (from, store) = interned_type(bound, *from, store);
            let (to, store) = interned_type(bound, *to, store);
            (Rc::new(TypeData::TyArrow(from, to)), store)
        },
        SurfaceTypeNode::Forall(param, body) => {
            let var = Var(store.index.len() as usize);
            let (body, store) = interned_type(
                bound.push(Entry { kind: Kind::Type, name: param, var }),
                *body,
                entered(store, param),
            );
            (Rc::new(TypeData::TyForall(var, body)), store)
        },
        SurfaceTypeNode::Error => (Rc::new(TypeData::TyError), store),
    }
}

/// The renaming of a term under the binders `bound`, and the store after
/// it.
pub open spec fn interned_term(bound: Seq<Entry>, term: SurfaceTerm, store: Store) -> (Term, Store)
    decreases term,
{
    match term.node {
        SurfaceTermNode::Unit => (Rc::new(TermData::TmUnit), store),
        SurfaceTermNode::Var(name) => {
            let (var, store) = found(bound, Kind::Term, name, store);
            (Rc::new(TermData::TmVar(var)), store)
        },
        SurfaceTermNode::Abs(param, ty, body) => {
            let var = Var(store.index.len() as usize);
            let inner = bound.push(Entry { kind: Kind::Term, name: param, var });
            let (ty, store) = interned_type(inner, ty, entered(store, param));
            let (body, store) = interned_term(inner, *body, store);
            (Rc::new(TermData::TmAbs(var, ty, body)), store)
        },
        SurfaceTermNode::App(f, x) => {
            let (f, store) = interned_term(bound, *f, store);
            let (x, store) = interned_term(bound, *x, store);
            (Rc::new(TermData::TmApp(f, x)), store)
        },
        SurfaceTermNode::TyAbs(param, body) => {
            let var = Var(store.index.len() as usize);
            let (body, store) = interned_term(
                bound.push(Entry { kind: Kind::Type, name: param, var }),
                *body,
                entered(store, param),
            );
            (Rc::new(TermData::TmTyAbs(var, body)), store)
        },
        SurfaceTermNode::TyApp(f, ty) => {
            let (f, store) = interned_term(bound, *f, store);
            let (ty, store) = interned_type(bound, ty, store);
            (Rc::new(TermData::TmTyApp(f, ty)), store)
        },
        SurfaceTermNode::Error => (Rc::new(TermData::TmError), store),
    }
}

/// The pass draws one unknown for each hole of a type and no other.
pub proof fn lemma_type_holes_drawn(bound: Seq<Entry>, ty: SurfaceType, store: Store)
    ensures
        interned_type(bound, ty, store).1.last == store.last + ty.holes(),
    decreases ty,
{
    match ty.node {
        SurfaceTypeNode::Arrow(from, to) => {
            lemma_type_holes_drawn(bound, *from, store);
            lemma_type_holes_drawn(bound, *to, interned_type(bound, *from, store).1);
        },
        SurfaceTypeNode::Forall(param, body) => {
            let var = Var(store.index.len() as usize);
            lemma_type_holes_drawn(
                bound.push(Entry { kind: Kind::Type, name: param, var }),
                *body,
                entered(store, param),
            );
        },
        _ => {},
    }
}

/// The pass draws one unknown for each hole of a term and no other.
pub proof fn lemma_holes_drawn(bound: Seq<Entry>, term: SurfaceTerm, store: Store)
    ensures
        interned_term(bound, term, store).1.last == store.last + term.holes(),
    decreases term,
{
    match term.node {
        SurfaceTermNode::Abs(param, ty, body) => {
            let var = Var(store.index.len() as usize);
            let inner = bound.push(Entry { kind: Kind::Term, name: param, var });
            lemma_type_holes_drawn(inner, ty, entered(store, param));
            lemma_holes_drawn(inner, *body, interned_type(inner, ty, entered(store, param)).1);
        },
        SurfaceTermNode::App(f, x) => {
            lemma_holes_drawn(bound, *f, store);
            lemma_holes_drawn(bound, *x, interned_term(bound, *f, store).1);
        },
        SurfaceTermNode::TyAbs(param, body) => {
            let var = Var(store.index.len() as usize);
            lemma_holes_drawn(
                bound.push(Entry { kind: Kind::Type, name: param, var }),
                *body,
                entered(store, param),
            );
        },
        SurfaceTermNode::TyApp(f, ty) => {
            lemma_holes_drawn(bound, *f, store);
            lemma_type_holes_drawn(bound, ty, interned_term(bound, *f, store).1);
        },
        _ => {},
    }
}

/// The table of the pass.
pub struct Context {
    index: Vec<String>,
    bound: Vec<Frame>,
    free: Vec<Frame>,
    alpha: AlphaGen,
}

/// Makes the next identifier and records `name` as its source name.
pub fn intern(index: &mut Vec<String>, name: String) -> (var: Var)
    ensures
        final(index)@ == old(index)@.push(name),
        var.0 == old(index)@.len(),
{
    index.push(name);
    Var(index.len() - 1)
}

fn search(frames: &Vec<Frame>, kind: Kind, name: &String) -> (r: Option<Var>)
    ensures
        r == lookup(entries(frames@), kind, name@),
{
    let mut i: usize = frames.len();
    assert(entries(frames@).take(i as int) =~= entries(frames@));
    while i > 0
        invariant
            i <= frames.len(),
            lookup(entries(frames@), kind, name@) == lookup(
                entries(frames@).take(i as int),
                kind,
                name@,
            ),
        decreases i,
    {
        i = i - 1;
        assert(entries(frames@).take(i + 1).drop_last() =~= entries(frames@).take(i as int));
        if frames[i].kind == kind && frames[i].name == *name {
            return Some(frames[i].var);
        }
    }
    None
}

impl Default for Context {
    fn default() -> (ctx: Context)
        ensures
            ctx.bound() == Seq::<Entry>::empty(),
            ctx.store() == (Store { index: Seq::empty(), free: Seq::empty(), last: 0 }),
    {
        let ctx = Context {
            index: Vec::new(),
            bound: Vec::new(),
            free: Vec::new(),
            alpha: AlphaGen::default(),
        };
        assert(ctx.bound() =~= Seq::<Entry>::empty());
        assert(ctx.store().index =~= Seq::<Seq<char>>::empty());
        assert(ctx.store().free =~= Seq::<Entry>::empty());
        ctx
    }
}

impl Context {
    /// The binders around the place that is being read, the innermost last.
    pub closed spec fn bound(&self) -> Seq<Entry> {
        entries(self.bound@)
    }

    /// What the pass has made so far.
    pub closed spec fn store(&self) -> Store {
        Store {
            index: Seq::new(self.index@.len(), |i: int| self.index@[i]@),
            free: entries(self.free@),
            last: self.alpha@,
        }
    }

    /// Renames a term. Every binder gets the next identifier; every
    /// variable gets the identifier of the innermost binder of its kind
    /// with its name, or the one identifier that its name has as an unbound
    /// name. The binders around the place are the same after the call as
    /// before it.
    pub fn rename_term(&mut self, term: InputTerm) -> (r: Term)
        requires
            term@.well_formed(),
            old(self).store().last + term@.holes() <= usize::MAX,
        ensures
            r == interned_term(old(self).bound(), term@, old(self).store()).0,
            final(self).store() == interned_term(old(self).bound(), term@, old(self).store()).1,
            final(self).bound() == old(self).bound(),
        decreases term,
    {
        let ghost bound = self.bound();
        let ghost store = self.store();
        match term.0 {
            InputTermRec::TmUnit => Rc::new(TermData::TmUnit),
            InputTermRec::TmVar(name) => {
                let var = self.find(Kind::Term, name);
                Rc::new(TermData::TmVar(var))
            },
            InputTermRec::TmAbs(param, ty, body) => {
                let var = self.push(Kind::Term, param);
                proof {
                    lemma_type_holes_drawn(self.bound(), ty@, self.store());
                }
                let ty = self.rename_type(ty);
                let body = self.rename_term(*body);
                self.pop();
                Rc::new(TermData::TmAbs(var, ty, body))
            },
            InputTermRec::TmApp(f, x) => {
                proof {
                    lemma_holes_drawn(bound, f@, store);
                }
                let f = self.rename_term(*f);
                let x = self.rename_term(*x);
                Rc::new(TermData::TmApp(f, x))
            },
            InputTermRec::TmTyAbs(param, body) => {
                let var = self.push(Kind::Type, param);
                let body = self.rename_term(*body);
                self.pop();
                Rc::new(TermData::TmTyAbs(var, body))
            },
            InputTermRec::TmTyApp(f, ty) => {
                proof {
                    lemma_holes_drawn(bound, f@, store);
                }
                let f = self.rename_term(*f);
                let ty = self.rename_type(ty);
                Rc::new(TermData::TmTyApp(f, ty))
            },
            InputTermRec::TmError => Rc::new(TermData::TmError),
        }
    }

    /// Renames a type, as `rename_term` does a term.
    pub fn rename_type(&mut self, ty: InputType) -> (r: Type)
        requires
            ty@.well_formed(),
            old(self).store().last + ty@.holes() <= usize::MAX,
        ensures
            r == interned_type(old(self).bound(), ty@, old(self).store()).0,
            final(self).store() == interned_type(old(self).bound(), ty@, old(self).store()).1,
            final(self).bound() == old(self).bound(),
        decreases ty,
    {
        let ghost bound = self.bound();
        let ghost store = self.store();
        match ty.0 {
            InputTypeRec::TyUnit => Rc::new(TypeData::TyUnit),
            InputTypeRec::TyHole => {
                let alpha = self.alpha.next();
                assert(self.store().index =~= store.index);
                Rc::new(TypeData::TyAlpha(alpha))
            },
            InputTypeRec::TyVar(name) => {
                let var = self.find(Kind::Type, name);
                Rc::new(TypeData::TyVar(var))
            },
            InputTypeRec::TyArrow(from, to) => {
                proof {
                    lemma_type_holes_drawn(bound, from@, store);
                }
                let from = self.rename_type(*from);
                let to = self.rename_type(*to);
                Rc::new(TypeData::TyArrow(from, to))
            },
            InputTypeRec::TyForall(param, body) => {
                let var = self.push(Kind::Type, param);
                let body = self.rename_type(*body);
                self.pop();
                Rc::new(TypeData::TyForall(var, body))
            },
            InputTypeRec::TyError => Rc::new(TypeData::TyError),
        }
    }

    /// The source name of `var`.
    pub fn name(&self, var: Var) -> (name: String)
        requires
            var.0 < self.store().index.len(),
        ensures
            name@ == self.store().index[var.0 as int],
    {
        self.index[var.0].clone()
    }

    /// The names that were found unbound so far.
    pub fn unbound(&self) -> (names: Unbound)
        ensures
            names@ == Set::new(
                |name: Seq<char>|
                    exists|i: int|
                        0 <= i < self.store().free.len() && #[trigger] self.store().free[i].name
                            == name,
            ),
    {
        let mut names = Unbound::new();
        let mut i: usize = 0;
        while i < self.free.len()
            invariant
                i <= self.free.len(),
                forall|name: Seq<char>|
                    names@.contains(name) <==> exists|j: int|
                        0 <= j < i && #[trigger] self.store().free[j].name == name,
            decreases self.free.len() - i,
        {
            let ghost before = names@;
            names = names.insert(self.free[i].name.clone());
            assert forall|name: Seq<char>| names@.contains(name) <==> exists|j: int|
                0 <= j < i + 1 && #[trigger] self.store().free[j].name == name by {
                if before.contains(name) {
                    let j = choose|j: int| 0 <= j < i && #[trigger] self.store().free[j].name == name;
                    assert(0 <= j < i + 1 && self.store().free[j].name == name);
                }
                if name == self.store().free[i as int].name {
                    assert(0 <= i < i + 1 && self.store().free[i as int].name == name);
                }
            }
            i = i + 1;
        }
        assert(names@ =~= Set::new(
            |name: Seq<char>|
                exists|i: int|
                    0 <= i < self.store().free.len() && #[trigger] self.store().free[i].name
                        == name,
        ));
        names
    }

    /// Resolves a variable of kind `kind`.
    fn find(&mut self, kind: Kind, name: String) -> (var: Var)
        ensures
            var == found(old(self).bound(), kind, name@, old(self).store()).0,
            final(self).store() == found(old(self).bound(), kind, name@, old(self).store()).1,
            final(self).bound() == old(self).bound(),
    {
        match search(&self.bound, kind, &name) {
            Some(var) => var,
            None => match search(&self.free, kind, &name) {
                Some(var) => var,
                None => {
                    let var = intern(&mut self.index, name.clone());
                    self.free.push(Frame { kind, name, var });
                    assert(self.store().index =~= old(self).store().index.push(name@));
                    assert(self.store().free =~= old(self).store().free.push(
                        Entry { kind, name: name@, var },
                    ));
                    var
                },
            },
        }
    }

    /// Enters a binder of kind `kind` named `name`.
    fn push(&mut self, kind: Kind, name: String) -> (var: Var)
        ensures
            var == Var(old(self).store().index.len() as usize),
            final(self).store() == entered(old(self).store(), name@),
            final(self).bound() == old(self).bound().push(Entry { kind, name: name@, var }),
    {
        let var = intern(&mut self.index, name.clone());
        self.bound.push(Frame { kind, name, var });
        assert(self.store().index =~= old(self).store().index.push(name@));
        assert(self.bound() =~= old(self).bound().push(Entry { kind, name: name@, var }));
        var
    }

    /// Leaves the innermost binder.
    fn pop(&mut self)
        requires
            old(self).bound().len() > 0,
        ensures
            final(self).store() == old(self).store(),
            final(self).bound() == old(self).bound().drop_last(),
    {
        self.bound.pop();
        assert(self.bound() =~= old(self).bound().drop_last());
    }
}

} // verus!
