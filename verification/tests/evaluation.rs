use odlang::atoms::{AlphaGen, Var};
use odlang::eval::{eval, step, subst, subst_type};
use odlang::syntax::{de, ty};
use odlang::typeck::{subst_type as subst_in_type, typeck};

#[test]
fn step_applies_an_abstraction() {
    let term = de::app(de::abs(0, ty::unit(), de::var(0)), de::unit());
    assert_eq!(step(&term), Some(de::unit()));
    assert_eq!(step(&de::unit()), None);
    assert_eq!(step(&de::abs(0, ty::unit(), term.clone())), None);
}

#[test]
fn step_reduces_the_function_before_the_argument() {
    let redex = de::app(de::abs(0, ty::unit(), de::var(0)), de::unit());
    let term = de::app(redex.clone(), redex.clone());
    assert_eq!(step(&term), Some(de::app(de::unit(), redex.clone())));
    let next = de::app(de::unit(), redex);
    assert_eq!(step(&next), Some(de::app(de::unit(), de::unit())));
}

#[test]
fn step_keeps_the_type() {
    let identity = de::ty_abs(0, de::abs(1, ty::var(0), de::var(1)));
    let term = de::app(de::ty_app(identity, ty::unit()), de::unit());
    let before = typeck(AlphaGen::default(), term.clone());
    assert_eq!(before, Ok(ty::unit()));
    let next = step(&term).unwrap();
    assert_eq!(
        next,
        de::app(de::abs(1, ty::unit(), de::var(1)), de::unit())
    );
    assert_eq!(typeck(AlphaGen::default(), next.clone()), before);
    let last = step(&next).unwrap();
    assert_eq!(last, de::unit());
    assert_eq!(typeck(AlphaGen::default(), last), before);
}

#[test]
fn eval_reaches_what_steps_reach() {
    let identity = de::ty_abs(0, de::abs(1, ty::var(0), de::var(1)));
    let term = de::app(de::ty_app(identity, ty::unit()), de::unit());
    assert_eq!(eval(term.clone(), 1), Some(de::unit()));
    assert_eq!(eval(term.clone(), 5), Some(de::unit()));
    assert_eq!(eval(term, 0), None);
    let nested = de::app(
        de::abs(0, ty::unit(), de::app(de::abs(1, ty::unit(), de::var(1)), de::var(0))),
        de::unit(),
    );
    assert_eq!(eval(nested.clone(), 1), None);
    assert_eq!(eval(nested, 2), Some(de::unit()));
}

#[test]
fn substitution_leaves_terms_without_the_variable() {
    let term = de::abs(1, ty::unit(), de::app(de::var(1), de::var(2)));
    assert_eq!(
        subst(de::unit(), term.clone(), Var(0)),
        term
    );
}

#[test]
fn substitution_stops_at_a_binder_for_the_variable() {
    let term = de::app(de::var(0), de::abs(0, ty::unit(), de::var(0)));
    assert_eq!(
        subst(de::unit(), term, Var(0)),
        de::app(de::unit(), de::abs(0, ty::unit(), de::var(0)))
    );
}

#[test]
fn substitution_of_a_closed_term_frees_nothing() {
    let closed = de::abs(5, ty::unit(), de::var(5));
    let term = de::abs(1, ty::unit(), de::app(de::var(0), de::var(1)));
    assert_eq!(
        subst(closed.clone(), term, Var(0)),
        de::abs(1, ty::unit(), de::app(closed, de::var(1)))
    );
}

#[test]
fn type_substitution_reaches_every_type_of_a_term() {
    let term = de::abs(
        1,
        ty::var(0),
        de::ty_app(de::abs(2, ty::arr(ty::var(0), ty::var(3)), de::var(2)), ty::var(0)),
    );
    assert_eq!(
        subst_type(ty::unit(), term, Var(0)),
        de::abs(
            1,
            ty::unit(),
            de::ty_app(
                de::abs(2, ty::arr(ty::unit(), ty::var(3)), de::var(2)),
                ty::unit()
            ),
        )
    );
}

#[test]
fn type_substitution_stops_at_a_binder_for_the_variable() {
    let term = de::ty_abs(0, de::abs(1, ty::var(0), de::var(1)));
    assert_eq!(subst_type(ty::unit(), term.clone(), Var(0)), term);
    let quantified = ty::arr(ty::var(0), ty::for_all(0, ty::var(0)));
    assert_eq!(
        subst_in_type(quantified, ty::unit(), Var(0)),
        ty::arr(ty::unit(), ty::for_all(0, ty::var(0)))
    );
}

#[test]
fn instantiation_substitutes_in_the_quantified_type() {
    let term = de::ty_app(
        de::ty_abs(0, de::abs(1, ty::var(0), de::var(1))),
        ty::arr(ty::unit(), ty::unit()),
    );
    assert_eq!(
        typeck(AlphaGen::default(), term),
        Ok(ty::arr(
            ty::arr(ty::unit(), ty::unit()),
            ty::arr(ty::unit(), ty::unit())
        ))
    );
}

#[test]
fn variable_out_of_scope_gets_a_fresh_unknown() {
    assert_eq!(typeck(AlphaGen::default(), de::var(9)), Ok(ty::hole(1)));
    let pair = de::abs(0, ty::unit(), de::var(9));
    assert_eq!(
        typeck(AlphaGen::starting_after(4), pair),
        Ok(ty::arr(ty::unit(), ty::hole(5)))
    );
}

#[test]
fn step_may_change_the_type_where_a_binder_repeats() {
    let inner = ty::for_all(2, ty::for_all(0, ty::arr(ty::var(2), ty::var(0))));
    let term = de::ty_app(
        de::ty_abs(0, de::abs(1, inner.clone(), de::ty_app(de::var(1), ty::var(0)))),
        ty::unit(),
    );
    assert_eq!(
        typeck(AlphaGen::default(), term.clone()),
        Ok(ty::arr(
            inner.clone(),
            ty::for_all(0, ty::arr(ty::var(0), ty::var(0)))
        ))
    );
    let next = step(&term).unwrap();
    assert_eq!(
        next,
        de::abs(1, inner.clone(), de::ty_app(de::var(1), ty::unit()))
    );
    assert_eq!(
        typeck(AlphaGen::default(), next),
        Ok(ty::arr(inner, ty::for_all(0, ty::arr(ty::unit(), ty::var(0)))))
    );
}
