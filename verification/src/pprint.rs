//! The pretty printer: internal terms, types and typing errors as text.
//! Binders are written with their source names wherever that leaves no
//! doubt. A binder whose name is that of a binder of its kind around it, to
//! which a variable in its reach refers, gets primes until the names
//! differ, and the variables it binds follow it.

use vstd::prelude::*;

use crate::atoms::{Named, Names, Var};
use crate::ident::stack::Kind;
use crate::named::{error_named, term_named, type_named};
use crate::syntax::de::{Term, TermData};
use crate::syntax::ty::{Type, TypeData};
use crate::text::{digits, join, joined, views};
use crate::typeck::error::TypeckError;

verus! {

/// A binder around the place that is being written, and the name it was
/// written with.
pub struct Binding {
    pub kind: Kind,
    pub var: Var,
    pub name: String,
}

/// A binder and its written name, as a value of mathematics.
pub struct Shown {
    pub kind: Kind,
    pub var: Var,
    pub name: Seq<char>,
}

impl View for Binding {
    type V = Shown;

    open spec fn view(&self) -> Shown {
        Shown { kind: self.kind, var: self.var, name: self.name@ }
    }
}

/// The binders around a place, outermost first.
pub open spec fn scope_view(scope: Seq<Binding>) -> Seq<Shown> {
    Seq::new(scope.len(), |i: int| scope[i]@)
}

/// Which binders of `scope` a binder that enters it must not be mistaken
/// for: those of kind `kind` whose identifiers are in `used`, the
/// identifiers that variables in its reach refer to.
pub open spec fn marked(scope: Seq<Shown>, kind: Kind, used: Set<Var>) -> Seq<bool> {
    Seq::new(scope.len(), |i: int| scope[i].kind == kind && used.contains(scope[i].var))
}

/// Whether a marked binder of `scope` was written as `name`.
pub open spec fn clashes(scope: Seq<Shown>, marks: Seq<bool>, name: Seq<char>) -> bool {
    exists|i: int|
        0 <= i < scope.len() && i < marks.len() && marks[i] && #[trigger] scope[i].name == name
}

/// The name a binder is written with: `base`, with a prime added as long as
/// the name clashes, at most `tries` times.
pub open spec fn written_name(
    scope: Seq<Shown>,
    marks: Seq<bool>,
    base: Seq<char>,
    tries: nat,
) -> Seq<char>
    decreases tries,
{
    if tries == 0 || !clashes(scope, marks, base) {
        base
    } else {
        written_name(scope, marks, base.push('\''), (tries - 1) as nat)
    }
}

/// The number of marked binders among the first `upto` of `scope` whose
/// written names have `len` characters or more.
pub open spec fn long_names(scope: Seq<Shown>, marks: Seq<bool>, len: nat, upto: nat) -> nat
    decreases upto,
{
    if upto == 0 {
        0
    } else {
        long_names(scope, marks, len, (upto - 1) as nat) + if upto <= scope.len() && upto
            <= marks.len() && marks[upto - 1] && scope[upto - 1].name.len() >= len {
            1nat
        } else {
            0nat
        }
    }
}

proof fn lemma_long_names_bounds(scope: Seq<Shown>, marks: Seq<bool>, len: nat, upto: nat)
    ensures
        long_names(scope, marks, len + 1, upto) <= long_names(scope, marks, len, upto) <= upto,
    decreases upto,
{
    if upto > 0 {
        lemma_long_names_bounds(scope, marks, len, (upto - 1) as nat);
    }
}

proof fn lemma_clash_is_counted(scope: Seq<Shown>, marks: Seq<bool>, name: Seq<char>, upto: nat)
    requires
        exists|i: int|
            0 <= i < scope.len() && i < marks.len() && i < upto && marks[i] && #[trigger] scope[i].name
                == name,
    ensures
        long_names(scope, marks, name.len() + 1, upto) < long_names(scope, marks, name.len(), upto),
    decreases upto,
{
    let i = choose|i: int|
        0 <= i < scope.len() && i < marks.len() && i < upto && marks[i] && #[trigger] scope[i].name
            == name;
    lemma_long_names_bounds(scope, marks, name.len(), (upto - 1) as nat);
    if i < upto - 1 {
        lemma_clash_is_counted(scope, marks, name, (upto - 1) as nat);
    }
}

proof fn lemma_none_long_no_clash(scope: Seq<Shown>, marks: Seq<bool>, name: Seq<char>, upto: nat)
    requires
        long_names(scope, marks, name.len(), upto) == 0,
    ensures
        forall|i: int|
            0 <= i < scope.len() && i < marks.len() && i < upto && marks[i] ==> #[trigger] scope[i].name
                != name,
    decreases upto,
{
    if upto > 0 {
        lemma_none_long_no_clash(scope, marks, name, (upto - 1) as nat);
    }
}

/// With as many tries as there are marked binders, the name that a binder
/// is written with is that of no marked binder.
pub proof fn lemma_written_name_free(
    scope: Seq<Shown>,
    marks: Seq<bool>,
    base: Seq<char>,
    tries: nat,
)
    requires
        long_names(scope, marks, base.len(), scope.len()) <= tries,
    ensures
        !clashes(scope, marks, written_name(scope, marks, base, tries)),
    decreases tries,
{
    if tries == 0 {
        lemma_none_long_no_clash(scope, marks, base, scope.len());
    } else if clashes(scope, marks, base) {
        lemma_clash_is_counted(scope, marks, base, scope.len());
        lemma_written_name_free(scope, marks, base.push('\''), (tries - 1) as nat);
    }
}

/// The name a variable is written with: that of the innermost binder for it
/// in `scope`, or its source name where no binder around it binds it.
pub open spec fn shown_as(scope: Seq<Shown>, kind: Kind, var: Var, names: Seq<Seq<char>>) -> Seq<
    char,
>
    decreases scope.len(),
{
    if scope.len() == 0 {
        names[var.0 as int]
    } else if scope.last().kind == kind && scope.last().var == var {
        scope.last().name
    } else {
        shown_as(scope.drop_last(), kind, var, names)
    }
}

/// The identifier that a written name of kind `kind` stands for: that of
/// the innermost binder in `scope` written with it.
pub open spec fn read_back(scope: Seq<Shown>, kind: Kind, name: Seq<char>) -> Option<Var>
    decreases scope.len(),
{
    if scope.len() == 0 {
        None
    } else if scope.last().kind == kind && scope.last().name == name {
        Some(scope.last().var)
    } else {
        read_back(scope.drop_last(), kind, name)
    }
}

/// Whether a binder of kind `kind` in `scope` binds `var`.
pub open spec fn bound_in(scope: Seq<Shown>, kind: Kind, var: Var) -> bool {
    exists|i: int| 0 <= i < scope.len() && scope[i].kind == kind && #[trigger] scope[i].var == var
}

/// Whether the written names of `scope` leave no doubt about the variables
/// in `used`: a binder of kind `kind` whose written name a binder further
/// in bears too binds none of them.
pub open spec fn unambiguous(scope: Seq<Shown>, kind: Kind, used: Set<Var>) -> bool {
    forall|i: int, j: int|
        0 <= i < j < scope.len() && scope[i].kind == kind && scope[j].kind == kind
            && #[trigger] scope[i].name == #[trigger] scope[j].name ==> !used.contains(
            scope[i].var,
        )
}

/// A scope stays unambiguous where a binder enters it under the name that
/// it is written with: `outer` holds the identifiers used around the
/// binder, `inner` those used in its reach, which are the same but for the
/// binder's own.
pub proof fn lemma_scope_stays_unambiguous(
    scope: Seq<Shown>,
    kind: Kind,
    param: Var,
    base: Seq<char>,
    outer: Set<Var>,
    inner: Set<Var>,
)
    requires
        unambiguous(scope, kind, outer),
        !bound_in(scope, kind, param),
        forall|var: Var| #[trigger] inner.contains(var) ==> outer.contains(var) || var == param,
    ensures
        unambiguous(
            scope.push(
                Shown {
                    kind,
                    var: param,
                    name: written_name(
                        scope,
                        marked(scope, kind, inner.remove(param)),
                        base,
                        scope.len(),
                    ),
                },
            ),
            kind,
            inner,
        ),
{
    let marks = marked(scope, kind, inner.remove(param));
    let name = written_name(scope, marks, base, scope.len());
    lemma_long_names_bounds(scope, marks, base.len(), scope.len());
    lemma_written_name_free(scope, marks, base, scope.len());
    let grown = scope.push(Shown { kind, var: param, name });
    assert forall|i: int, j: int|
        0 <= i < j < grown.len() && grown[i].kind == kind && grown[j].kind == kind
            && #[trigger] grown[i].name == #[trigger] grown[j].name implies !inner.contains(
        grown[i].var,
    ) by {
        assert(grown[i] == scope[i]);
        assert(scope[i].var != param) by {
            if scope[i].var == param {
                assert(bound_in(scope, kind, param));
            }
        }
        if j == scope.len() {
            if inner.contains(scope[i].var) {
                assert(marks[i]);
                assert(scope[i].name == name);
                assert(clashes(scope, marks, name));
            }
        } else {
            assert(grown[j] == scope[j]);
        }
    }
}

/// A scope stays unambiguous about the variables of one kind where a
/// binder of the other kind enters it.
pub proof fn lemma_scope_stays_unambiguous_beside(
    scope: Seq<Shown>,
    kind: Kind,
    entering: Shown,
    outer: Set<Var>,
    inner: Set<Var>,
)
    requires
        unambiguous(scope, kind, outer),
        entering.kind != kind,
        inner.subset_of(outer),
    ensures
        unambiguous(scope.push(entering), kind, inner),
{
    let grown = scope.push(entering);
    assert forall|i: int, j: int|
        0 <= i < j < grown.len() && grown[i].kind == kind && grown[j].kind == kind
            && #[trigger] grown[i].name == #[trigger] grown[j].name implies !inner.contains(
        grown[i].var,
    ) by {
        assert(grown[i] == scope[i]);
        assert(grown[j] == scope[j]);
    }
}

/// A bound variable is written with the written name of a binder of its
/// kind, and no binder further in than its own binds it.
proof fn lemma_shown_name_is_written(scope: Seq<Shown>, kind: Kind, var: Var, names: Seq<Seq<char>>)
    requires
        bound_in(scope, kind, var),
    ensures
        exists|k: int|
            0 <= k < scope.len() && scope[k].kind == kind && scope[k].var == var
                && #[trigger] scope[k].name == shown_as(scope, kind, var, names),
    decreases scope.len(),
{
    let last = scope.last();
    let rest = scope.drop_last();
    if last.kind == kind && last.var == var {
        assert(scope[scope.len() - 1].name == last.name);
    } else {
        let i = choose|i: int|
            0 <= i < scope.len() && scope[i].kind == kind && #[trigger] scope[i].var == var;
        assert(rest[i].var == var);
        lemma_shown_name_is_written(rest, kind, var, names);
        let k = choose|k: int|
            0 <= k < rest.len() && rest[k].kind == kind && rest[k].var == var
                && #[trigger] rest[k].name == shown_as(rest, kind, var, names);
        assert(scope[k].name == shown_as(scope, kind, var, names));
    }
}

/// The name that a bound variable is written with reads back as the
/// variable: no binder between it and its own binder bears the name.
pub proof fn lemma_written_var_reads_back(
    scope: Seq<Shown>,
    kind: Kind,
    var: Var,
    names: Seq<Seq<char>>,
    used: Set<Var>,
)
    requires
        unambiguous(scope, kind, used),
        used.contains(var),
        bound_in(scope, kind, var),
    ensures
        read_back(scope, kind, shown_as(scope, kind, var, names)) == Some(var),
    decreases scope.len(),
{
    let last = scope.last();
    let rest = scope.drop_last();
    if last.kind == kind && last.var == var {
    } else {
        let i = choose|i: int|
            0 <= i < scope.len() && scope[i].kind == kind && #[trigger] scope[i].var == var;
        assert(rest[i].var == var);
        assert forall|a: int, b: int|
            0 <= a < b < rest.len() && rest[a].kind == kind && rest[b].kind == kind
                && #[trigger] rest[a].name == #[trigger] rest[b].name implies !used.contains(
            rest[a].var,
        ) by {
            assert(scope[a] == rest[a] && scope[b] == rest[b]);
        }
        lemma_written_var_reads_back(rest, kind, var, names, used);
        lemma_shown_name_is_written(rest, kind, var, names);
        let k = choose|k: int|
            0 <= k < rest.len() && rest[k].kind == kind && rest[k].var == var
                && #[trigger] rest[k].name == shown_as(rest, kind, var, names);
        assert(scope[k] == rest[k]);
        assert(scope[scope.len() - 1] == last);
        if last.kind == kind && last.name == shown_as(scope, kind, var, names) {
            assert(scope[k].name == scope[scope.len() - 1].name);
        }
    }
}

/// Whether a type can stand to the left of an arrow as it is.
pub open spec fn type_is_atom(ty: Type) -> bool {
    !(*ty is TyArrow) && !(*ty is TyForall)
}

/// Whether a term reaches as far to the right as it can, so that it needs
/// parentheses wherever something follows it.
pub open spec fn term_is_open(term: Term) -> bool {
    *term is TmAbs || *term is TmTyAbs
}

/// Whether a term can stand as an argument as it is.
pub open spec fn term_is_atom(term: Term) -> bool {
    *term is TmUnit || *term is TmVar || *term is TmError
}

/// `text` in parentheses where `bare` does not hold.
pub open spec fn wrapped(text: Seq<char>, bare: bool) -> Seq<char> {
    if bare {
        text
    } else {
        seq!['('] + text + seq![')']
    }
}

/// A type as text.
pub open spec fn type_text(names: Seq<Seq<char>>, scope: Seq<Shown>, ty: Type) -> Seq<char>
    decreases ty,
{
    match *ty {
        TypeData::TyUnit => "()"@,
        TypeData::TyAlpha(alpha) => seq!['_'] + digits(alpha.0 as nat),
        TypeData::TyVar(var) => shown_as(scope, Kind::Type, var, names),
        TypeData::TyArrow(from, to) => wrapped(type_text(names, scope, from), type_is_atom(from))
            + " -> "@ + type_text(names, scope, to),
        TypeData::TyForall(param, body) => {
            let name = written_name(
                scope,
                marked(scope, Kind::Type, body.free_vars().remove(param)),
                names[param.0 as int],
                scope.len(),
            );
            "/\\ "@ + name + " => "@ + type_text(
                names,
                scope.push(Shown { kind: Kind::Type, var: param, name }),
                body,
            )
        },
        TypeData::TyError => "ERROR"@,
    }
}

/// A term as text. The left side of an application stands in parentheses
/// where it is an abstraction, the right side where it is not an atom.
pub open spec fn term_text(names: Seq<Seq<char>>, scope: Seq<Shown>, term: Term) -> Seq<char>
    decreases term,
{
    match *term {
        TermData::TmUnit => "()"@,
        TermData::TmVar(var) => shown_as(scope, Kind::Term, var, names),
        TermData::TmAbs(param, ty, body) => {
            let name = written_name(
                scope,
                marked(scope, Kind::Term, body.free_vars().remove(param)),
                names[param.0 as int],
                scope.len(),
            );
            seq!['\\'] + name + ": "@ + type_text(names, scope, ty) + ". "@ + term_text(
                names,
                scope.push(Shown { kind: Kind::Term, var: param, name }),
                body,
            )
        },
        TermData::TmApp(f, x) => wrapped(term_text(names, scope, f), !term_is_open(f)) + seq![' ']
            + wrapped(term_text(names, scope, x), term_is_atom(x)),
        TermData::TmTyAbs(param, body) => {
            let name = written_name(
                scope,
                marked(scope, Kind::Type, body.free_type_vars().remove(param)),
                names[param.0 as int],
                scope.len(),
            );
            "/\\ "@ + name + ". "@ + term_text(
                names,
                scope.push(Shown { kind: Kind::Type, var: param, name }),
                body,
            )
        },
        TermData::TmTyApp(f, ty) => wrapped(term_text(names, scope, f), !term_is_open(f)) + " ["@
            + type_text(names, scope, ty) + seq![']'],
        TermData::TmError => "ERROR"@,
    }
}

/// A typing error as text.
pub open spec fn error_text(names: Seq<Seq<char>>, error: TypeckError) -> Seq<char> {
    match error {
        TypeckError::NotEqual(expected, actual) => "Types should be equal: '"@ + type_text(
            names,
            Seq::empty(),
            expected,
        ) + "', '"@ + type_text(names, Seq::empty(), actual) + seq!['\''],
        TypeckError::NotAFunction(found) => "Must be a function: "@ + type_text(
            names,
            Seq::empty(),
            found,
        ),
        TypeckError::NotAForall(found) => "Must be a forall: '"@ + type_text(
            names,
            Seq::empty(),
            found,
        ) + seq!['\''],
    }
}

/// Whether `var` occurs free in a type.
pub fn occurs_in_type(ty: &Type, var: Var) -> (b: bool)
    ensures
        b == ty.free_vars().contains(var),
    decreases **ty,
{
    match &**ty {
        TypeData::TyVar(found) => found.0 == var.0,
        TypeData::TyArrow(from, to) => occurs_in_type(from, var) || occurs_in_type(to, var),
        TypeData::TyForall(param, body) => param.0 != var.0 && occurs_in_type(body, var),
        _ => false,
    }
}

/// Whether `var` occurs free in a term as a term variable.
pub fn occurs_in_term(term: &Term, var: Var) -> (b: bool)
    ensures
        b == term.free_vars().contains(var),
    decreases **term,
{
    match &**term {
        TermData::TmVar(found) => found.0 == var.0,
        TermData::TmAbs(param, _, body) => param.0 != var.0 && occurs_in_term(body, var),
        TermData::TmApp(f, x) => occurs_in_term(f, var) || occurs_in_term(x, var),
        TermData::TmTyAbs(_, body) => occurs_in_term(body, var),
        TermData::TmTyApp(f, _) => occurs_in_term(f, var),
        _ => false,
    }
}

/// Whether `var` occurs free in the types of a term.
pub fn occurs_in_types_of(term: &Term, var: Var) -> (b: bool)
    ensures
        b == term.free_type_vars().contains(var),
    decreases **term,
{
    match &**term {
        TermData::TmAbs(_, ty, body) => occurs_in_type(ty, var) || occurs_in_types_of(body, var),
        TermData::TmApp(f, x) => occurs_in_types_of(f, var) || occurs_in_types_of(x, var),
        TermData::TmTyAbs(param, body) => param.0 != var.0 && occurs_in_types_of(body, var),
        TermData::TmTyApp(f, ty) => occurs_in_types_of(f, var) || occurs_in_type(ty, var),
        _ => false,
    }
}

/// What stands in the reach of a binder.
enum Reach<'a> {
    /// The body of an abstraction, for its term variables.
    Body(&'a Term),
    /// The body of a type abstraction, for its type variables.
    TypesOf(&'a Term),
    /// The body of a quantifier.
    Type(&'a Type),
}

impl<'a> Reach<'a> {
    /// The kind of variable that the binder binds.
    spec fn kind(&self) -> Kind {
        match *self {
            Reach::Body(_) => Kind::Term,
            _ => Kind::Type,
        }
    }

    /// The identifiers of that kind which occur free in the reach.
    spec fn free(&self) -> Set<Var> {
        match *self {
            Reach::Body(body) => body.free_vars(),
            Reach::TypesOf(body) => body.free_type_vars(),
            Reach::Type(body) => body.free_vars(),
        }
    }

    fn binds(&self) -> (kind: Kind)
        ensures
            kind == self.kind(),
    {
        match self {
            Reach::Body(_) => Kind::Term,
            _ => Kind::Type,
        }
    }

    fn uses(&self, var: Var) -> (b: bool)
        ensures
            b == self.free().contains(var),
    {
        match self {
            Reach::Body(body) => occurs_in_term(body, var),
            Reach::TypesOf(body) => occurs_in_types_of(body, var),
            Reach::Type(body) => occurs_in_type(body, var),
        }
    }
}

/// Marks the binders of `scope` that a binder of `param` must not be
/// mistaken for.
fn mark(scope: &Vec<Binding>, param: Var, reach: &Reach) -> (marks: Vec<bool>)
    ensures
        marks@ == marked(scope_view(scope@), reach.kind(), reach.free().remove(param)),
{
    let kind = reach.binds();
    let mut marks: Vec<bool> = Vec::new();
    let mut i: usize = 0;
    while i < scope.len()
        invariant
            i <= scope.len(),
            kind == reach.kind(),
            marks@ =~= marked(scope_view(scope@), reach.kind(), reach.free().remove(param)).take(
                i as int,
            ),
        decreases scope.len() - i,
    {
        let used = scope[i].kind == kind && scope[i].var.0 != param.0 && reach.uses(scope[i].var);
        marks.push(used);
        i = i + 1;
    }
    marks
}

fn is_clash(scope: &Vec<Binding>, marks: &Vec<bool>, name: &String) -> (b: bool)
    requires
        marks@.len() == scope@.len(),
    ensures
        b == clashes(scope_view(scope@), marks@, name@),
{
    let mut i: usize = 0;
    while i < scope.len()
        invariant
            i <= scope.len(),
            marks@.len() == scope@.len(),
            forall|j: int| 0 <= j < i && marks@[j] ==> #[trigger] scope_view(scope@)[j].name != name@,
        decreases scope.len() - i,
    {
        if marks[i] && scope[i].name == *name {
            assert(scope_view(scope@)[i as int].name == name@);
            return true;
        }
        i = i + 1;
    }
    false
}

/// The name to write a binder with: no marked binder around it is written
/// with the same.
fn write_name(scope: &Vec<Binding>, marks: &Vec<bool>, base: &String) -> (name: String)
    requires
        marks@.len() == scope@.len(),
    ensures
        name@ == written_name(scope_view(scope@), marks@, base@, scope@.len()),
        !clashes(scope_view(scope@), marks@, name@),
{
    proof {
        lemma_long_names_bounds(scope_view(scope@), marks@, base@.len(), scope@.len());
        lemma_written_name_free(scope_view(scope@), marks@, base@, scope@.len());
    }
    let mut name = base.clone();
    let mut tries: usize = scope.len();
    while tries > 0 && is_clash(scope, marks, &name)
        invariant
            marks@.len() == scope@.len(),
            written_name(scope_view(scope@), marks@, base@, scope@.len()) == written_name(
                scope_view(scope@),
                marks@,
                name@,
                tries as nat,
            ),
        decreases tries,
    {
        name.push('\'');
        tries = tries - 1;
    }
    name
}

/// The name to write a variable with.
fn show_var(names: &Names, scope: &Vec<Binding>, kind: Kind, var: Var) -> (name: String)
    requires
        var.0 < names@.len(),
    ensures
        name@ == shown_as(scope_view(scope@), kind, var, names@),
{
    let mut i: usize = scope.len();
    assert(scope_view(scope@).take(i as int) =~= scope_view(scope@));
    while i > 0
        invariant
            i <= scope.len(),
            shown_as(scope_view(scope@), kind, var, names@) == shown_as(
                scope_view(scope@).take(i as int),
                kind,
                var,
                names@,
            ),
        decreases i,
    {
        i = i - 1;
        assert(scope_view(scope@).take(i + 1).drop_last() =~= scope_view(scope@).take(i as int));
        if scope[i].kind == kind && scope[i].var.0 == var.0 {
            return scope[i].name.clone();
        }
    }
    names.name(var).clone()
}

fn wrap(text: String, bare: bool) -> (out: String)
    ensures
        out@ == wrapped(text@, bare),
{
    if bare {
        text
    } else {
        let mut out = String::new();
        out.push('(');
        out.append(text.as_str());
        out.push(')');
        assert(out@ =~= wrapped(text@, bare));
        out
    }
}

fn atomic_type(ty: &Type) -> (b: bool)
    ensures
        b == type_is_atom(*ty),
{
    match &**ty {
        TypeData::TyArrow(_, _) => false,
        TypeData::TyForall(_, _) => false,
        _ => true,
    }
}

fn open_term(term: &Term) -> (b: bool)
    ensures
        b == term_is_open(*term),
{
    match &**term {
        TermData::TmAbs(_, _, _) => true,
        TermData::TmTyAbs(_, _) => true,
        _ => false,
    }
}

fn atomic_term(term: &Term) -> (b: bool)
    ensures
        b == term_is_atom(*term),
{
    match &**term {
        TermData::TmUnit => true,
        TermData::TmVar(_) => true,
        TermData::TmError => true,
        _ => false,
    }
}

/// Writes a type under the binders of `scope`, which is the same after the
/// call as before it.
fn write_type(names: &Names, scope: &mut Vec<Binding>, ty: &Type) -> (text: String)
    requires
        type_named(*ty, names@.len()),
    ensures
        text@ == type_text(names@, scope_view(old(scope)@), *ty),
        scope_view(final(scope)@) == scope_view(old(scope)@),
    decreases *ty,
{
    match &**ty {
        TypeData::TyUnit => String::from_str("()"),
        TypeData::TyAlpha(alpha) => alpha.to_string(),
        TypeData::TyVar(var) => show_var(names, scope, Kind::Type, *var),
        TypeData::TyArrow(from, to) => {
            let left = write_type(names, scope, from);
            let mut text = wrap(left, atomic_type(from));
            text.append(" -> ");
            let right = write_type(names, scope, to);
            text.append(right.as_str());
            text
        },
        TypeData::TyForall(param, body) => {
            let ghost before = scope_view(scope@);
            let marks = mark(scope, *param, &Reach::Type(body));
            let name = write_name(scope, &marks, names.name(*param));
            let mut text = String::from_str("/\\ ");
            text.append(name.as_str());
            text.append(" => ");
            scope.push(Binding { kind: Kind::Type, var: *param, name });
            assert(scope_view(scope@) =~= before.push(
                Shown { kind: Kind::Type, var: *param, name: name@ },
            ));
            let inner = write_type(names, scope, body);
            let ghost grown = scope@;
            scope.pop();
            assert(scope_view(scope@) =~= scope_view(grown).drop_last());
            assert(scope_view(scope@) =~= before);
            text.append(inner.as_str());
            text
        },
        TypeData::TyError => String::from_str("ERROR"),
    }
}

/// Writes a term under the binders of `scope`, which is the same after the
/// call as before it.
fn write_term(names: &Names, scope: &mut Vec<Binding>, term: &Term) -> (text: String)
    requires
        term_named(*term, names@.len()),
    ensures
        text@ == term_text(names@, scope_view(old(scope)@), *term),
        scope_view(final(scope)@) == scope_view(old(scope)@),
    decreases *term,
{
    match &**term {
        TermData::TmUnit => String::from_str("()"),
        TermData::TmVar(var) => show_var(names, scope, Kind::Term, *var),
        TermData::TmAbs(param, ty, body) => {
            let ghost before = scope_view(scope@);
            let marks = mark(scope, *param, &Reach::Body(body));
            let name = write_name(scope, &marks, names.name(*param));
            let mut text = String::new();
            text.push('\\');
            text.append(name.as_str());
            text.append(": ");
            let ty_text = write_type(names, scope, ty);
            text.append(ty_text.as_str());
            text.append(". ");
            scope.push(Binding { kind: Kind::Term, var: *param, name });
            assert(scope_view(scope@) =~= before.push(
                Shown { kind: Kind::Term, var: *param, name: name@ },
            ));
            let inner = write_term(names, scope, body);
            let ghost grown = scope@;
            scope.pop();
            assert(scope_view(scope@) =~= scope_view(grown).drop_last());
            assert(scope_view(scope@) =~= before);
            text.append(inner.as_str());
            assert(text@ =~= term_text(names@, before, *term));
            text
        },
        TermData::TmApp(f, x) => {
            let left = write_term(names, scope, f);
            let mut text = wrap(left, !open_term(f));
            text.push(' ');
            let right = write_term(names, scope, x);
            let right = wrap(right, atomic_term(x));
            text.append(right.as_str());
            text
        },
        TermData::TmTyAbs(param, body) => {
            let ghost before = scope_view(scope@);
            let marks = mark(scope, *param, &Reach::TypesOf(body));
            let name = write_name(scope, &marks, names.name(*param));
            let mut text = String::from_str("/\\ ");
            text.append(name.as_str());
            text.append(". ");
            scope.push(Binding { kind: Kind::Type, var: *param, name });
            assert(scope_view(scope@) =~= before.push(
                Shown { kind: Kind::Type, var: *param, name: name@ },
            ));
            let inner = write_term(names, scope, body);
            let ghost grown = scope@;
            scope.pop();
            assert(scope_view(scope@) =~= scope_view(grown).drop_last());
            assert(scope_view(scope@) =~= before);
            text.append(inner.as_str());
            text
        },
        TermData::TmTyApp(f, ty) => {
            let left = write_term(names, scope, f);
            let mut text = wrap(left, !open_term(f));
            text.append(" [");
            let inner = write_type(names, scope, ty);
            text.append(inner.as_str());
            text.push(']');
            text
        },
        TermData::TmError => String::from_str("ERROR"),
    }
}

/// Writes a closed term, or one whose free variables are to be written
/// with their source names.
pub fn pprint(names: &Names, term: Term) -> (text: String)
    requires
        term_named(term, names@.len()),
    ensures
        text@ == term_text(names@, Seq::empty(), term),
{
    let mut scope: Vec<Binding> = Vec::new();
    assert(scope_view(scope@) =~= Seq::<Shown>::empty());
    write_term(names, &mut scope, &term)
}

/// Writes a type.
pub fn pprint_type(names: &Names, ty: Type) -> (text: String)
    requires
        type_named(ty, names@.len()),
    ensures
        text@ == type_text(names@, Seq::empty(), ty),
{
    let mut scope: Vec<Binding> = Vec::new();
    assert(scope_view(scope@) =~= Seq::<Shown>::empty());
    write_type(names, &mut scope, &ty)
}

/// Writes a typing error.
pub fn pprint_error(names: &Names, err: &TypeckError) -> (text: String)
    requires
        error_named(*err, names@.len()),
    ensures
        text@ == error_text(names@, *err),
{
    match err {
        TypeckError::NotEqual(expected, actual) => {
            let mut text = String::from_str("Types should be equal: '");
            let left = pprint_type(names, expected.clone());
            text.append(left.as_str());
            text.append("', '");
            let right = pprint_type(names, actual.clone());
            text.append(right.as_str());
            text.push('\'');
            text
        },
        TypeckError::NotAFunction(found) => {
            let mut text = String::from_str("Must be a function: ");
            let inner = pprint_type(names, found.clone());
            text.append(inner.as_str());
            text
        },
        TypeckError::NotAForall(found) => {
            let mut text = String::from_str("Must be a forall: '");
            let inner = pprint_type(names, found.clone());
            text.append(inner.as_str());
            text.push('\'');
            text
        },
    }
}

/// The texts of a list of typing errors.
pub open spec fn error_texts(names: Seq<Seq<char>>, errs: Seq<TypeckError>) -> Seq<Seq<char>> {
    Seq::new(errs.len(), |i: int| error_text(names, errs[i]))
}

/// Writes a list of typing errors, one to a line, in the order of the list.
pub fn pprint_errors(names: &Names, errs: Vec<TypeckError>) -> (text: String)
    requires
        forall|i: int| 0 <= i < errs@.len() ==> error_named(#[trigger] errs@[i], names@.len()),
    ensures
        text@ == joined(error_texts(names@, errs@), seq!['\n'], 0),
{
    let mut lines: Vec<String> = Vec::new();
    let mut i: usize = 0;
    while i < errs.len()
        invariant
            i <= errs.len(),
            forall|j: int| 0 <= j < errs@.len() ==> error_named(#[trigger] errs@[j], names@.len()),
            views(lines@) =~= error_texts(names@, errs@).take(i as int),
        decreases errs.len() - i,
    {
        let line = pprint_error(names, &errs[i]);
        assert(views(lines@.push(line)) =~= views(lines@).push(line@));
        assert(error_texts(names@, errs@).take(i + 1) =~= error_texts(names@, errs@).take(
            i as int,
        ).push(line@));
        lines.push(line);
        i = i + 1;
    }
    proof {
        reveal_strlit("\n");
        assert("\n"@ =~= seq!['\n']);
        assert(error_texts(names@, errs@).take(i as int) =~= error_texts(names@, errs@));
    }
    join(&lines, "\n")
}

impl Named for Term {
    open spec fn named_by(&self, names: &Names) -> bool {
        term_named(*self, names@.len())
    }

    open spec fn rendering(&self, names: &Names) -> Seq<char> {
        term_text(names@, Seq::empty(), *self)
    }

    fn pprint(&self, names: &Names) -> (text: String) {
        pprint(names, self.clone())
    }
}

impl Named for Type {
    open spec fn named_by(&self, names: &Names) -> bool {
        type_named(*self, names@.len())
    }

    open spec fn rendering(&self, names: &Names) -> Seq<char> {
        type_text(names@, Seq::empty(), *self)
    }

    fn pprint(&self, names: &Names) -> (text: String) {
        pprint_type(names, self.clone())
    }
}

impl Named for TypeckError {
    open spec fn named_by(&self, names: &Names) -> bool {
        error_named(*self, names@.len())
    }

    open spec fn rendering(&self, names: &Names) -> Seq<char> {
        error_text(names@, *self)
    }

    fn pprint(&self, names: &Names) -> (text: String) {
        pprint_error(names, self)
    }
}

} // verus!
