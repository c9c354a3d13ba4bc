use odlang::ident::{identify, IdResult};
use odlang::parser::parse;
use odlang::syntax::{de, ty};

fn parsed(input: &str) -> IdResult {
    identify(parse(input).unwrap())
}

#[test]
fn ident_triv() {
    assert_eq!(
        parsed(r"\x:().x").unwrap().0,
        de::abs(0, ty::unit(), de::var(0))
    );
}

#[test]
fn ident_breaks_rosser() {
    assert_eq!(
        parsed(r"\y:(). (\x:(). \y:(). x) y").unwrap().0,
        de::abs(
            0,
            ty::unit(),
            de::app(
                de::abs(1, ty::unit(), de::abs(2, ty::unit(), de::var(1))),
                de::var(0)
            )
        )
    );
}

#[test]
fn mod_triv() {
    assert_eq!(
        parsed(r"\x:().x").unwrap().0,
        de::abs(0, ty::unit(), de::var(0))
    );
}

#[test]
fn mod_breaks_rosser() {
    assert_eq!(
        parsed(r"\y:(). (\x:(). \y:(). x) y").unwrap().0,
        de::abs(
            0,
            ty::unit(),
            de::app(
                de::abs(1, ty::unit(), de::abs(2, ty::unit(), de::var(1))),
                de::var(0)
            )
        )
    );
}
