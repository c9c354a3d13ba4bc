//! What holds of every renaming: binders get distinct identifiers in
//! reading order, variables point at the binders around them, and the names
//! reported unbound are those that no binder binds.

use vstd::prelude::*;

use crate::atoms::Var;
use crate::ident::context::{next_var, renamed_term, renamed_type, Env};
use crate::ident::stack::Kind;
use crate::input::{SurfaceTerm, SurfaceTermNode, SurfaceType, SurfaceTypeNode};

verus! {

/// The identifiers `count` binders get, one after the other, when the name
/// table holds `start` names.
pub open spec fn numbered(start: nat, count: nat) -> Seq<Var> {
    Seq::new(count, |i: int| Var((start + i) as usize))
}

/// The identifiers that the scopes resolve names of kind `kind` to.
pub open spec fn resolved(env: Env, kind: Kind) -> Set<Var> {
    Set::new(|var: Var| exists|name: Seq<char>| #[trigger]
        env.contains_key((kind, name)) && env[(kind, name)] == var)
}

proof fn lemma_numbered_split(start: nat, first: nat, second: nat)
    ensures
        numbered(start, first) + numbered(start + first, second) =~= numbered(
            start,
            first + second,
        ),
{
}

/// In a renamed type every binder of the source has its own identifier:
/// the binders, in reading order, are numbered on from the length of the
/// name table, and the table grows by their names in that order.
pub proof fn lemma_type_binders_numbered(
    env: Env,
    ty: SurfaceType,
    names: Seq<Seq<char>>,
    last: nat,
)
    ensures
        renamed_type(env, ty, names, last).names =~= names + ty.binder_names(),
        renamed_type(env, ty, names, last).out.binders() =~= numbered(
            names.len(),
            ty.binder_names().len(),
        ),
    decreases ty,
{
    match ty.node {
        SurfaceTypeNode::Arrow(from, to) => {
            lemma_type_binders_numbered(env, *from, names, last);
            let left = renamed_type(env, *from, names, last);
            lemma_type_binders_numbered(env, *to, left.names, left.last);
            lemma_numbered_split(
                names.len(),
                from.binder_names().len(),
                to.binder_names().len(),
            );
        },
        SurfaceTypeNode::Forall(param, body) => {
            lemma_type_binders_numbered(
                env.insert((Kind::Type, param), next_var(names)),
                *body,
                names.push(param),
                last,
            );
            lemma_numbered_split(names.len(), 1, body.binder_names().len());
            assert(seq![next_var(names)] =~= numbered(names.len(), 1));
        },
        _ => {},
    }
}

/// In a renamed term every binder of the source has its own identifier:
/// the binders, in reading order, are numbered on from the length of the
/// name table, and the table grows by their names in that order.
pub proof fn lemma_binders_numbered(env: Env, term: SurfaceTerm, names: Seq<Seq<char>>, last: nat)
    ensures
        renamed_term(env, term, names, last).names =~= names + term.binder_names(),
        renamed_term(env, term, names, last).out.binders() =~= numbered(
            names.len(),
            term.binder_names().len(),
        ),
    decreases term,
{
    match term.node {
        SurfaceTermNode::Abs(param, ty, body) => {
            let inner_env = env.insert((Kind::Term, param), next_var(names));
            lemma_type_binders_numbered(inner_env, ty, names.push(param), last);
            let left = renamed_type(inner_env, ty, names.push(param), last);
            lemma_binders_numbered(inner_env, *body, left.names, left.last);
            assert(seq![next_var(names)] =~= numbered(names.len(), 1));
            lemma_numbered_split(names.len(), 1, ty.binder_names().len());
            lemma_numbered_split(
                names.len(),
                1 + ty.binder_names().len(),
                body.binder_names().len(),
            );
        },
        SurfaceTermNode::App(f, x) => {
            lemma_binders_numbered(env, *f, names, last);
            let left = renamed_term(env, *f, names, last);
            lemma_binders_numbered(env, *x, left.names, left.last);
            lemma_numbered_split(names.len(), f.binder_names().len(), x.binder_names().len());
        },
        SurfaceTermNode::TyAbs(param, body) => {
            lemma_binders_numbered(
                env.insert((Kind::Type, param), next_var(names)),
                *body,
                names.push(param),
                last,
            );
            lemma_numbered_split(names.len(), 1, body.binder_names().len());
            assert(seq![next_var(names)] =~= numbered(names.len(), 1));
        },
        SurfaceTermNode::TyApp(f, ty) => {
            lemma_binders_numbered(env, *f, names, last);
            let left = renamed_term(env, *f, names, last);
            lemma_type_binders_numbered(env, ty, left.names, left.last);
            lemma_numbered_split(names.len(), f.binder_names().len(), ty.binder_names().len());
        },
        _ => {},
    }
}

/// Name uniqueness: no two binders of a renamed term share an identifier,
/// as long as the name table stays within the machine's numbers.
pub proof fn lemma_binders_distinct(env: Env, term: SurfaceTerm, names: Seq<Seq<char>>, last: nat)
    requires
        renamed_term(env, term, names, last).names.len() <= usize::MAX,
    ensures
        renamed_term(env, term, names, last).out.binders().no_duplicates(),
{
    lemma_binders_numbered(env, term, names, last);
}

/// The names a renamed type reports unbound are the names at its free
/// variables that the scopes do not resolve.
pub proof fn lemma_type_unbound_free(
    env: Env,
    ty: SurfaceType,
    names: Seq<Seq<char>>,
    last: nat,
    name: Seq<char>,
)
    requires
        ty.well_formed(),
    ensures
        renamed_type(env, ty, names, last).unbound.contains(name) <==> ty.free_names().contains(
            (Kind::Type, name),
        ) && !env.contains_key((Kind::Type, name)),
        !ty.free_names().contains((Kind::Term, name)),
    decreases ty,
{
    match ty.node {
        SurfaceTypeNode::Arrow(from, to) => {
            lemma_type_unbound_free(env, *from, names, last, name);
            let left = renamed_type(env, *from, names, last);
            lemma_type_unbound_free(env, *to, left.names, left.last, name);
        },
        SurfaceTypeNode::Forall(param, body) => {
            lemma_type_unbound_free(
                env.insert((Kind::Type, param), next_var(names)),
                *body,
                names.push(param),
                last,
                name,
            );
        },
        _ => {},
    }
}

/// Unbound completeness: a name is reported unbound exactly when the term
/// has a free variable of that name, of either kind, that the scopes do not
/// resolve.
pub proof fn lemma_unbound_free(
    env: Env,
    term: SurfaceTerm,
    names: Seq<Seq<char>>,
    last: nat,
    name: Seq<char>,
)
    requires
        term.well_formed(),
    ensures
        renamed_term(env, term, names, last).unbound.contains(name) <==> (
        term.free_names().contains((Kind::Term, name)) && !env.contains_key((Kind::Term, name)))
            || (term.free_names().contains((Kind::Type, name)) && !env.contains_key(
            (Kind::Type, name),
        )),
    decreases term,
{
    match term.node {
        SurfaceTermNode::Abs(param, ty, body) => {
            let inner_env = env.insert((Kind::Term, param), next_var(names));
            lemma_type_unbound_free(inner_env, ty, names.push(param), last, name);
            let left = renamed_type(inner_env, ty, names.push(param), last);
            lemma_unbound_free(inner_env, *body, left.names, left.last, name);
        },
        SurfaceTermNode::App(f, x) => {
            lemma_unbound_free(env, *f, names, last, name);
            let left = renamed_term(env, *f, names, last);
            lemma_unbound_free(env, *x, left.names, left.last, name);
        },
        SurfaceTermNode::TyAbs(param, body) => {
            lemma_unbound_free(
                env.insert((Kind::Type, param), next_var(names)),
                *body,
                names.push(param),
                last,
                name,
            );
        },
        SurfaceTermNode::TyApp(f, ty) => {
            lemma_unbound_free(env, *f, names, last, name);
            let left = renamed_term(env, *f, names, last);
            lemma_type_unbound_free(env, ty, left.names, left.last, name);
        },
        _ => {},
    }
}

/// Every free variable of a renamed type is an identifier that the scopes
/// resolve a type name to, and the type holds an error node only where a
/// name was unbound.
pub proof fn lemma_type_scoped(env: Env, ty: SurfaceType, names: Seq<Seq<char>>, last: nat)
    requires
        ty.well_formed(),
    ensures
        renamed_type(env, ty, names, last).out.free_vars().subset_of(resolved(env, Kind::Type)),
        renamed_type(env, ty, names, last).unbound =~= Set::<Seq<char>>::empty() ==> renamed_type(
            env,
            ty,
            names,
            last,
        ).out.sound(),
    decreases ty,
{
    match ty.node {
        SurfaceTypeNode::Var(name) => {
            if env.contains_key((Kind::Type, name)) {
                assert(resolved(env, Kind::Type).contains(env[(Kind::Type, name)]));
            } else {
                assert(set![name].contains(name));
            }
        },
        SurfaceTypeNode::Arrow(from, to) => {
            lemma_type_scoped(env, *from, names, last);
            let left = renamed_type(env, *from, names, last);
            lemma_type_scoped(env, *to, left.names, left.last);
            let right = renamed_type(env, *to, left.names, left.last);
            if left.unbound.union(right.unbound) =~= Set::<Seq<char>>::empty() {
                assert(left.unbound =~= Set::<Seq<char>>::empty());
                assert(right.unbound =~= Set::<Seq<char>>::empty());
            }
        },
        SurfaceTypeNode::Forall(param, body) => {
            let var = next_var(names);
            let inner_env = env.insert((Kind::Type, param), var);
            lemma_type_scoped(inner_env, *body, names.push(param), last);
            let inner = renamed_type(inner_env, *body, names.push(param), last);
            assert forall|v: Var| inner.out.free_vars().remove(var).contains(v) implies resolved(
                env,
                Kind::Type,
            ).contains(v) by {
                assert(resolved(inner_env, Kind::Type).contains(v));
                let name = choose|name: Seq<char>| #[trigger]
                    inner_env.contains_key((Kind::Type, name)) && inner_env[(Kind::Type, name)]
                        == v;
                assert(env.contains_key((Kind::Type, name)));
            }
        },
        _ => {},
    }
}

/// Every free variable of a renamed term is an identifier that the scopes
/// resolve a name of its kind to, and the term holds an error node only
/// where a name was unbound.
pub proof fn lemma_scoped(env: Env, term: SurfaceTerm, names: Seq<Seq<char>>, last: nat)
    requires
        term.well_formed(),
    ensures
        renamed_term(env, term, names, last).out.free_vars().subset_of(resolved(env, Kind::Term)),
        renamed_term(env, term, names, last).out.free_type_vars().subset_of(
            resolved(env, Kind::Type),
        ),
        renamed_term(env, term, names, last).unbound =~= Set::<Seq<char>>::empty() ==> renamed_term(
            env,
            term,
            names,
            last,
        ).out.sound(),
    decreases term,
{
    match term.node {
        SurfaceTermNode::Var(name) => {
            if env.contains_key((Kind::Term, name)) {
                assert(resolved(env, Kind::Term).contains(env[(Kind::Term, name)]));
            } else {
                assert(set![name].contains(name));
            }
        },
        SurfaceTermNode::Abs(param, ty, body) => {
            let var = next_var(names);
            let inner_env = env.insert((Kind::Term, param), var);
            lemma_type_scoped(inner_env, ty, names.push(param), last);
            let left = renamed_type(inner_env, ty, names.push(param), last);
            lemma_scoped(inner_env, *body, left.names, left.last);
            let right = renamed_term(inner_env, *body, left.names, left.last);
            if left.unbound.union(right.unbound) =~= Set::<Seq<char>>::empty() {
                assert(left.unbound =~= Set::<Seq<char>>::empty());
                assert(right.unbound =~= Set::<Seq<char>>::empty());
            }
            assert forall|v: Var| right.out.free_vars().remove(var).contains(v) implies resolved(
                env,
                Kind::Term,
            ).contains(v) by {
                assert(resolved(inner_env, Kind::Term).contains(v));
                let name = choose|name: Seq<char>| #[trigger]
                    inner_env.contains_key((Kind::Term, name)) && inner_env[(Kind::Term, name)]
                        == v;
                assert(env.contains_key((Kind::Term, name)));
            }
            assert forall|v: Var| resolved(inner_env, Kind::Type).contains(v) implies resolved(
                env,
                Kind::Type,
            ).contains(v) by {
                let name = choose|name: Seq<char>| #[trigger]
                    inner_env.contains_key((Kind::Type, name)) && inner_env[(Kind::Type, name)]
                        == v;
                assert(env.contains_key((Kind::Type, name)));
            }
        },
        SurfaceTermNode::App(f, x) => {
            lemma_scoped(env, *f, names, last);
            let left = renamed_term(env, *f, names, last);
            lemma_scoped(env, *x, left.names, left.last);
            let right = renamed_term(env, *x, left.names, left.last);
            if left.unbound.union(right.unbound) =~= Set::<Seq<char>>::empty() {
                assert(left.unbound =~= Set::<Seq<char>>::empty());
                assert(right.unbound =~= Set::<Seq<char>>::empty());
            }
        },
        SurfaceTermNode::TyAbs(param, body) => {
            let var = next_var(names);
            let inner_env = env.insert((Kind::Type, param), var);
            lemma_scoped(inner_env, *body, names.push(param), last);
            let inner = renamed_term(inner_env, *body, names.push(param), last);
            assert forall|v: Var| inner.out.free_type_vars().remove(var).contains(
                v,
            ) implies resolved(env, Kind::Type).contains(v) by {
                assert(resolved(inner_env, Kind::Type).contains(v));
                let name = choose|name: Seq<char>| #[trigger]
                    inner_env.contains_key((Kind::Type, name)) && inner_env[(Kind::Type, name)]
                        == v;
                assert(env.contains_key((Kind::Type, name)));
            }
            assert forall|v: Var| resolved(inner_env, Kind::Term).contains(v) implies resolved(
                env,
                Kind::Term,
            ).contains(v) by {
                let name = choose|name: Seq<char>| #[trigger]
                    inner_env.contains_key((Kind::Term, name)) && inner_env[(Kind::Term, name)]
                        == v;
                assert(env.contains_key((Kind::Term, name)));
            }
        },
        SurfaceTermNode::TyApp(f, ty) => {
            lemma_scoped(env, *f, names, last);
            let left = renamed_term(env, *f, names, last);
            lemma_type_scoped(env, ty, left.names, left.last);
            let right = renamed_type(env, ty, left.names, left.last);
            if left.unbound.union(right.unbound) =~= Set::<Seq<char>>::empty() {
                assert(left.unbound =~= Set::<Seq<char>>::empty());
                assert(right.unbound =~= Set::<Seq<char>>::empty());
            }
        },
        _ => {},
    }
}

/// A term renamed under no scopes is closed: every variable in it points
/// at a binder around it.
pub proof fn lemma_identified_closed(term: SurfaceTerm, names: Seq<Seq<char>>, last: nat)
    requires
        term.well_formed(),
    ensures
        renamed_term(Map::empty(), term, names, last).out.closed(),
{
    lemma_scoped(Map::empty(), term, names, last);
    assert(resolved(Map::empty(), Kind::Term) =~= Set::<Var>::empty());
    assert(resolved(Map::empty(), Kind::Type) =~= Set::<Var>::empty());
}

/// Renaming is one-to-one on binders. In the renaming of a whole term, the
/// binders of the outcome are as many as those of the source and hold
/// distinct identifiers; the name table gives each its source name, in
/// reading order; and every variable of the outcome holds the identifier of
/// one of these binders.
pub proof fn lemma_renaming_one_to_one(term: SurfaceTerm, names: Seq<Seq<char>>, last: nat)
    requires
        term.well_formed(),
        renamed_term(Map::empty(), term, names, last).names.len() <= usize::MAX,
    ensures
        renamed_term(Map::empty(), term, names, last).out.binders().len()
            == term.binder_names().len(),
        renamed_term(Map::empty(), term, names, last).out.binders().no_duplicates(),
        forall|i: int|
            0 <= i < term.binder_names().len() ==> renamed_term(
                Map::empty(),
                term,
                names,
                last,
            ).names[#[trigger] renamed_term(Map::empty(), term, names, last).out.binders()[i].0 as int]
                == term.binder_names()[i],
        forall|var: Var| #[trigger]
            renamed_term(Map::empty(), term, names, last).out.vars().contains(var)
                ==> renamed_term(Map::empty(), term, names, last).out.binders().contains(var),
{
    let renamed = renamed_term(Map::empty(), term, names, last);
    lemma_binders_numbered(Map::empty(), term, names, last);
    lemma_identified_closed(term, names, last);
    assert forall|var: Var| #[trigger] renamed.out.vars().contains(var) implies renamed.out.binders().contains(
        var,
    ) by {
        crate::syntax::scope::lemma_closed_vars_bound(renamed.out, var);
    }
}

/// The unknowns `count` holes get, one after the other, when `last` is the
/// number of the unknown drawn last.
pub open spec fn drawn(last: nat, count: nat) -> Seq<usize> {
    Seq::new(count, |i: int| (last + 1 + i) as usize)
}

proof fn lemma_drawn_split(last: nat, first: nat, second: nat)
    ensures
        drawn(last, first) + drawn(last + first, second) =~= drawn(last, first + second),
{
}

/// The unknowns of a renamed type are those of its holes, in reading order:
/// one for each hole and none from elsewhere.
pub proof fn lemma_type_alphas_drawn(env: Env, ty: SurfaceType, names: Seq<Seq<char>>, last: nat)
    ensures
        renamed_type(env, ty, names, last).last == last + ty.holes(),
        renamed_type(env, ty, names, last).out.alphas() =~= drawn(last, ty.holes()),
    decreases ty,
{
    match ty.node {
        SurfaceTypeNode::Arrow(from, to) => {
            lemma_type_alphas_drawn(env, *from, names, last);
            let left = renamed_type(env, *from, names, last);
            lemma_type_alphas_drawn(env, *to, left.names, left.last);
            lemma_drawn_split(last, from.holes(), to.holes());
        },
        SurfaceTypeNode::Forall(param, body) => {
            lemma_type_alphas_drawn(
                env.insert((Kind::Type, param), next_var(names)),
                *body,
                names.push(param),
                last,
            );
        },
        _ => {},
    }
}

/// The unknowns of a renamed term are those of its holes, in reading order:
/// one for each hole and none from elsewhere.
pub proof fn lemma_alphas_drawn(env: Env, term: SurfaceTerm, names: Seq<Seq<char>>, last: nat)
    ensures
        renamed_term(env, term, names, last).last == last + term.holes(),
        renamed_term(env, term, names, last).out.alphas() =~= drawn(last, term.holes()),
    decreases term,
{
    match term.node {
        SurfaceTermNode::Abs(param, ty, body) => {
            let inner_env = env.insert((Kind::Term, param), next_var(names));
            lemma_type_alphas_drawn(inner_env, ty, names.push(param), last);
            let left = renamed_type(inner_env, ty, names.push(param), last);
            lemma_alphas_drawn(inner_env, *body, left.names, left.last);
            lemma_drawn_split(last, ty.holes(), body.holes());
        },
        SurfaceTermNode::App(f, x) => {
            lemma_alphas_drawn(env, *f, names, last);
            let left = renamed_term(env, *f, names, last);
            lemma_alphas_drawn(env, *x, left.names, left.last);
            lemma_drawn_split(last, f.holes(), x.holes());
        },
        SurfaceTermNode::TyAbs(param, body) => {
            lemma_alphas_drawn(
                env.insert((Kind::Type, param), next_var(names)),
                *body,
                names.push(param),
                last,
            );
        },
        SurfaceTermNode::TyApp(f, ty) => {
            lemma_alphas_drawn(env, *f, names, last);
            let left = renamed_term(env, *f, names, last);
            lemma_type_alphas_drawn(env, ty, left.names, left.last);
            lemma_drawn_split(last, f.holes(), ty.holes());
        },
        _ => {},
    }
}

} // verus!
