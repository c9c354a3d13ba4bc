use odlang::atoms::{Alpha, Names};
use odlang::bruijn::{nesting, type_nesting};
use odlang::input::{count_holes, count_type_holes, error_free, type_error_free};
use odlang::named::{names_cover, names_cover_error, names_cover_type};
use odlang::parser::inp;
use odlang::parser::parse;
use odlang::parser::ty as input_ty;
use odlang::syntax::{de, ty};
use odlang::syntax::de::same_term;
use odlang::syntax::ty::same_type;
use odlang::typeck::{alpha_demand, TypeckError};

#[test]
fn holes_are_counted() {
    assert_eq!(count_holes(&parse(r"\x:_ -> (). x [_] (\y:(_). y)").unwrap()), Some(3));
    assert_eq!(count_holes(&parse("()").unwrap()), Some(0));
    assert_eq!(
        count_type_holes(&input_ty::arr(input_ty::hole(), input_ty::for_all("a", input_ty::hole()))),
        Some(2)
    );
}

#[test]
fn binder_nesting_is_measured() {
    assert_eq!(nesting(&parse(r"\x:(). (/\a. \y: /\b => /\c => (). x) x").unwrap()), Some(4));
    assert_eq!(nesting(&parse("f x").unwrap()), Some(0));
    assert_eq!(
        type_nesting(&input_ty::arr(input_ty::for_all("a", input_ty::unit()), input_ty::unit())),
        Some(1)
    );
}

#[test]
fn demand_bounds_the_unknowns_of_a_check() {
    let term = de::app(de::var(3), de::ty_app(de::abs(0, ty::unit(), de::var(0)), ty::unit()));
    assert_eq!(alpha_demand(&term), Some(4));
    assert_eq!(alpha_demand(&de::unit()), Some(0));
}

#[test]
fn name_tables_cover_the_identifiers_they_hold() {
    let mut names = Names::default();
    names.push("a".to_string());
    names.push("b".to_string());
    assert!(names_cover(&names, &de::abs(0, ty::var(1), de::var(1))));
    assert!(!names_cover(&names, &de::abs(0, ty::var(1), de::var(2))));
    assert!(!names_cover(&names, &de::ty_abs(2, de::unit())));
    assert!(names_cover_type(&names, &ty::for_all(1, ty::hole(9))));
    assert!(!names_cover_type(&names, &ty::arr(ty::unit(), ty::var(2))));
    assert!(names_cover_error(&names, &TypeckError::NotEqual(ty::var(0), ty::var(1))));
    assert!(!names_cover_error(&names, &TypeckError::NotAFunction(ty::var(5))));
}

#[test]
fn structural_equality_compares_every_node() {
    let left = de::abs(0, ty::arr(ty::unit(), ty::hole(1)), de::ty_app(de::var(0), ty::var(2)));
    let right = de::abs(0, ty::arr(ty::unit(), ty::hole(1)), de::ty_app(de::var(0), ty::var(2)));
    let other = de::abs(0, ty::arr(ty::unit(), ty::hole(2)), de::ty_app(de::var(0), ty::var(2)));
    assert!(same_term(&left, &right));
    assert!(!same_term(&left, &other));
    assert!(same_type(&ty::for_all(1, ty::var(1)), &ty::for_all(1, ty::var(1))));
    assert!(!same_type(&ty::for_all(1, ty::var(1)), &ty::for_all(2, ty::var(1))));
    assert!(!same_type(&ty::error(), &ty::unit()));
}

#[test]
fn unknowns_write_themselves_with_an_underscore() {
    assert_eq!(Alpha(12).to_string(), "_12");
    assert_eq!(Alpha(0).to_string(), "_0");
}

#[test]
fn error_nodes_are_found() {
    assert!(error_free(&parse(r"\x:_. x [()]").unwrap()));
    assert!(!error_free(&inp::app(inp::unit(), inp::err())));
    assert!(!error_free(&inp::abs("x", input_ty::error(), inp::unit())));
    assert!(!type_error_free(&input_ty::arr(input_ty::unit(), input_ty::error())));
    assert!(de::is_sound(&de::abs(0, ty::unit(), de::var(0))));
    assert!(!de::is_sound(&de::abs(0, ty::unit(), de::error())));
    assert!(!de::is_sound(&de::ty_app(de::unit(), ty::error())));
    assert!(!ty::is_sound(&ty::for_all(0, ty::error())));
}
