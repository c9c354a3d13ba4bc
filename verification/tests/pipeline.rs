use odlang::atoms::{AlphaGen, Names};
use odlang::eval::eval;
use odlang::ident::identify;
use odlang::parser::parse;
use odlang::pprint::{pprint, pprint_errors, pprint_type};
use odlang::repl::{process_line, LineError};
use odlang::syntax::{de, ty, Term};
use odlang::typeck::{typeck, TypeckError};

fn value_of(line: &str) -> String {
    match process_line(line, 1000) {
        Ok((term, names)) => pprint(&names, term),
        Err(error) => panic!("no value: {:?}", error),
    }
}

fn type_of(line: &str) -> String {
    let (term, names, alpha) = identify(parse(line).unwrap()).unwrap();
    let found = typeck(alpha, term).unwrap();
    pprint_type(&names, found)
}

fn typing_errors(line: &str) -> String {
    match process_line(line, 1000) {
        Err(LineError::Typeck(errors, names)) => pprint_errors(&names, errors),
        other => panic!("no typing error: {:?}", other.map(|found| found.0)),
    }
}

#[test]
fn identity_prints_as_written() {
    assert_eq!(value_of(r"\x:().x"), r"\x: (). x");
    assert_eq!(type_of(r"\x:().x"), "() -> ()");
}

#[test]
fn identity_applied_to_unit_is_unit() {
    assert_eq!(value_of(r"(\x:().x) ()"), "()");
}

#[test]
fn abstraction_is_its_own_value() {
    assert_eq!(
        value_of(r"\y:(). (\x:(). \y:(). x) y"),
        r"\y: (). (\x: (). \y: (). x) y"
    );
}

#[test]
fn shadowed_binder_is_primed() {
    let mut names = Names::default();
    names.push("y".to_string());
    names.push("x".to_string());
    names.push("y".to_string());
    let term = de::abs(0, ty::unit(), de::abs(2, ty::unit(), de::var(0)));
    assert_eq!(pprint(&names, term), r"\y: (). \y': (). y");
    let inner = de::abs(0, ty::unit(), de::abs(2, ty::unit(), de::var(2)));
    assert_eq!(pprint(&names, inner), r"\y: (). \y: (). y");
    let both = de::abs(
        0,
        ty::unit(),
        de::abs(2, ty::unit(), de::app(de::var(2), de::var(0))),
    );
    assert_eq!(pprint(&names, both), r"\y: (). \y': (). y' y");
}

#[test]
fn primes_add_up_where_primed_names_clash() {
    let mut names = Names::default();
    names.push("a".to_string());
    names.push("a".to_string());
    names.push("a".to_string());
    names.push("a".to_string());
    let quantified = ty::for_all(
        0,
        ty::for_all(
            1,
            ty::for_all(2, ty::arr(ty::var(0), ty::arr(ty::var(1), ty::var(2)))),
        ),
    );
    assert_eq!(
        pprint_type(&names, quantified),
        r"/\ a => /\ a' => /\ a'' => a -> a' -> a''"
    );
    let kinds = de::ty_abs(0, de::abs(1, ty::var(0), de::ty_abs(2, de::abs(3, ty::var(2), de::var(3)))));
    assert_eq!(
        pprint(&names, kinds),
        r"/\ a. \a: a. /\ a. \a: a. a"
    );
    let term_only = de::ty_abs(0, de::abs(1, ty::var(0), de::ty_abs(2, de::abs(3, ty::var(2), de::var(1)))));
    assert_eq!(
        pprint(&names, term_only),
        r"/\ a. \a: a. /\ a. \a': a. a"
    );
    let needed = de::ty_abs(0, de::abs(1, ty::var(0), de::ty_abs(2, de::abs(3, ty::var(0), de::var(1)))));
    assert_eq!(
        pprint(&names, needed),
        r"/\ a. \a: a. /\ a'. \a': a. a"
    );
}

#[test]
fn polymorphic_identity_prints_with_its_type() {
    assert_eq!(value_of(r"/\a. \x:a. x"), r"/\ a. \x: a. x");
    assert_eq!(type_of(r"/\a. \x:a. x"), r"/\ a => a -> a");
}

#[test]
fn polymorphic_identity_at_unit_applied_to_unit() {
    assert_eq!(value_of(r"(/\a. \x:a. x) [()] ()"), "()");
}

#[test]
fn unbound_name_is_reported() {
    match process_line("z", 1000) {
        Err(LineError::Unbound(unbound)) => {
            assert_eq!(unbound.to_string(), "Unbound name: z\n");
        }
        other => panic!("expected an unbound name: {:?}", other.map(|found| found.0)),
    }
}

#[test]
fn unit_applied_is_no_function() {
    assert_eq!(typing_errors("() ()"), "Must be a function: ()");
}

#[test]
fn variable_of_unit_type_applied_is_no_function() {
    assert_eq!(typing_errors(r"\x:().\y:(). x x"), "Must be a function: ()");
}

#[test]
fn errors_of_both_sides_come_in_reading_order() {
    assert_eq!(
        typing_errors(r"(() ()) ((\x:(). x) [()])"),
        "Must be a function: ()\nMust be a forall: '() -> ()'\nMust be a function: _1"
    );
}

#[test]
fn mismatched_argument_keeps_the_result_type() {
    let term = de::app(
        de::abs(0, ty::arr(ty::unit(), ty::unit()), de::unit()),
        de::unit(),
    );
    assert_eq!(
        typeck(AlphaGen::default(), term),
        Err(vec![TypeckError::NotEqual(
            ty::arr(ty::unit(), ty::unit()),
            ty::unit()
        )])
    );
    let mut names = Names::default();
    names.push("f".to_string());
    assert_eq!(
        pprint_errors(
            &names,
            vec![TypeckError::NotEqual(
                ty::arr(ty::unit(), ty::unit()),
                ty::unit()
            )]
        ),
        "Types should be equal: '() -> ()', '()'"
    );
}

#[test]
fn parse_errors_stop_the_pipeline() {
    match process_line("(x", 1000) {
        Err(LineError::Parse(errors)) => {
            assert_eq!(errors.to_string(), "[0:2]: Unexpected end of input\n");
        }
        other => panic!("expected a parse error: {:?}", other.map(|found| found.0)),
    }
}

#[test]
fn evaluation_without_fuel_gives_up() {
    match process_line(r"(\x:().x) ()", 0) {
        Err(LineError::OutOfFuel) => {}
        other => panic!("expected exhaustion: {:?}", other.map(|found| found.0)),
    }
    let stuck: Term = de::app(de::unit(), de::unit());
    assert_eq!(eval(stuck.clone(), 0), Some(stuck));
}

#[test]
fn type_checking_is_repeatable() {
    let make = || {
        de::app(
            de::app(de::unit(), de::var(7)),
            de::ty_app(de::unit(), ty::unit()),
        )
    };
    let first = typeck(AlphaGen::starting_after(3), make());
    let second = typeck(AlphaGen::starting_after(3), make());
    assert_eq!(first, second);
    assert_eq!(
        first,
        Err(vec![
            TypeckError::NotAFunction(ty::unit()),
            TypeckError::NotAForall(ty::unit()),
            TypeckError::NotAFunction(ty::hole(5)),
        ])
    );
}
