use odlang::intern::Context;
use odlang::parser::parse;
use odlang::syntax::{de, ty, Term};

fn parsed(input: &str) -> Term {
    Context::default().rename_term(parse(input).unwrap())
}

#[test]
fn intern_triv() {
    assert_eq!(parsed(r"\x:().x"), de::abs(0, ty::unit(), de::var(0)));
}

#[test]
fn intern_breaks_rosser() {
    assert_eq!(
        parsed(r"\y:(). (\x:(). \y:(). x) y"),
        de::abs(
            0,
            ty::unit(),
            de::app(
                de::abs(1, ty::unit(), de::abs(2, ty::unit(), de::var(1))),
                de::var(0)
            )
        )
    );
}
