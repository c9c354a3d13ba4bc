use odlang::atoms::AlphaGen;
use odlang::syntax::{de, ty, Term, Type};
use odlang::typeck::TypeckError;

fn typeck(term: Term) -> Result<Type, Vec<TypeckError>> {
    odlang::typeck::typeck(AlphaGen::default(), term)
}

#[test]
fn typeck_simple_typeck() {
    assert_eq!(
        typeck(de::abs(0, ty::unit(), de::var(0))).map(|_| ()),
        Ok(())
    );
}

#[test]
fn mod_simple_typeck() {
    assert_eq!(
        typeck(de::abs(0, ty::unit(), de::var(0))),
        Ok(ty::arr(ty::unit(), ty::unit()))
    );
}
