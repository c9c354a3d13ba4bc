use odlang::bruijn::de::{self, ty};
use odlang::bruijn::{de_bruijn, Term};
use odlang::parser::parse;

fn de_parsed(input: &str) -> Term {
    de_bruijn(parse(input).unwrap())
}

#[test]
fn bruijn_triv() {
    assert_eq!(
        de_parsed(r"\x:().x"),
        de::abs("x", ty::unit(), de::var((0, "x")))
    );
}

#[test]
fn bruijn_breaks_rosser() {
    assert_eq!(
        de_parsed(r"\y:(). (\x:(). \y:(). x) y"),
        de::abs(
            "y",
            ty::unit(),
            de::app(
                de::abs(
                    "x",
                    ty::unit(),
                    de::abs("y", ty::unit(), de::var((1, "x")))
                ),
                de::var((0, "y"))
            )
        )
    );
}
