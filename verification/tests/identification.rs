use odlang::atoms::{Alpha, Var};
use odlang::bruijn::{self, de_bruijn};
use odlang::ident::{identify, Context, Kind, Stack, Unbound};
use odlang::intern;
use odlang::multi_result::{Neutral, Semigroup, Singleton};
use odlang::parser::parse;
use odlang::syntax::{de, ty};

fn unbound_of(line: &str) -> Unbound {
    match identify(parse(line).unwrap()) {
        Err(unbound) => unbound,
        Ok(_) => panic!("every name is bound"),
    }
}

#[test]
fn binders_get_distinct_identifiers_in_reading_order() {
    let (term, names, _) = identify(parse(r"\y:(). (\x:(). \y:(). x) y").unwrap()).unwrap();
    assert_eq!(
        term,
        de::abs(
            0,
            ty::unit(),
            de::app(
                de::abs(1, ty::unit(), de::abs(2, ty::unit(), de::var(1))),
                de::var(0)
            )
        )
    );
    assert_eq!(names.len(), 3);
    assert_eq!(names.name(Var(0)), "y");
    assert_eq!(names.name(Var(1)), "x");
    assert_eq!(names.name(Var(2)), "y");
}

#[test]
fn innermost_binder_wins() {
    let (term, _, _) = identify(parse(r"\x:(). \x:(). x").unwrap()).unwrap();
    assert_eq!(
        term,
        de::abs(0, ty::unit(), de::abs(1, ty::unit(), de::var(1)))
    );
}

#[test]
fn type_binders_in_annotations_are_numbered_too() {
    let (term, names, _) = identify(parse(r"/\a. \f: /\b => b -> a. f").unwrap()).unwrap();
    assert_eq!(
        term,
        de::ty_abs(
            0,
            de::abs(
                1,
                ty::for_all(2, ty::arr(ty::var(2), ty::var(0))),
                de::var(1)
            )
        )
    );
    assert_eq!(names.len(), 3);
    assert_eq!(names.name(Var(2)), "b");
}

#[test]
fn holes_get_fresh_unknowns() {
    let (term, _, alpha) = identify(parse(r"\x:_. \y:_ -> _. x").unwrap()).unwrap();
    assert_eq!(
        term,
        de::abs(
            0,
            ty::hole(Alpha(1)),
            de::abs(1, ty::arr(ty::hole(2), ty::hole(3)), de::var(0))
        )
    );
    assert_eq!(alpha.last(), 3);
}

#[test]
fn unbound_names_are_collected_once() {
    let unbound = unbound_of(r"\x:(). y z y x");
    assert_eq!(unbound.len(), 2);
    assert!(unbound.contains(&"y".to_string()));
    assert!(unbound.contains(&"z".to_string()));
    assert!(!unbound.contains(&"x".to_string()));
    assert_eq!(unbound.to_string(), "Unbound name: y\nUnbound name: z\n");
}

#[test]
fn term_variables_do_not_bind_to_type_binders() {
    let unbound = unbound_of(r"\x:(). x [x]");
    assert_eq!(unbound.len(), 1);
    assert!(unbound.contains(&"x".to_string()));
    let other = unbound_of(r"/\a. a");
    assert!(other.contains(&"a".to_string()));
}

#[test]
fn renaming_puts_an_error_node_for_an_unbound_name() {
    let mut ctx = Context::default();
    let renamed = ctx.rename_term(&Stack::empty(), parse(r"\x:(). y x").unwrap());
    assert_eq!(
        renamed.result,
        de::abs(0, ty::unit(), de::app(de::error(), de::var(0)))
    );
    assert!(renamed.errors.contains(&"y".to_string()));
    assert_eq!(renamed.errors.len(), 1);
    assert_eq!(ctx.names.len(), 1);
}

#[test]
fn scope_chain_resolves_by_kind_and_name() {
    let empty = Stack::empty();
    let outer = empty.push(Kind::Term, "x".to_string(), Var(0));
    let inner = outer.push(Kind::Type, "x".to_string(), Var(1));
    let last = inner.push(Kind::Term, "y".to_string(), Var(2));
    assert_eq!(last.map(Kind::Term, "x".to_string()), Ok(Var(0)));
    assert_eq!(last.map(Kind::Type, "x".to_string()), Ok(Var(1)));
    assert_eq!(last.map(Kind::Term, "y".to_string()), Ok(Var(2)));
    assert_eq!(last.map(Kind::Type, "y".to_string()), Err("y".to_string()));
    assert_eq!(empty.map(Kind::Term, "x".to_string()), Err("x".to_string()));
}

#[test]
fn unbound_sets_join_to_their_union() {
    let left = Unbound::single("a".to_string()).insert("b".to_string());
    let right = Unbound::single("b".to_string()).insert("c".to_string());
    let both = left.app(right);
    assert_eq!(both.len(), 3);
    assert_eq!(
        both.to_string(),
        "Unbound name: a\nUnbound name: b\nUnbound name: c\n"
    );
    assert!(!both.is_neutral());
    assert!(Unbound::new().is_neutral());
}

#[test]
fn nameless_indices_count_binders_of_the_same_kind() {
    let term = de_bruijn(parse(r"\x:(). /\x. \y: x. x").unwrap());
    assert_eq!(
        term,
        bruijn::de::abs(
            "x",
            bruijn::de::ty::unit(),
            bruijn::de::ty_abs(
                "x",
                bruijn::de::abs(
                    "y",
                    bruijn::de::ty::var((0, "x")),
                    bruijn::de::var((1, "x"))
                )
            )
        )
    );
}

#[test]
fn nameless_free_variables_keep_their_names() {
    let term = de_bruijn(parse(r"\x: a. y").unwrap());
    assert_eq!(
        term,
        bruijn::de::abs(
            "x",
            bruijn::de::ty::var("a".to_string()),
            bruijn::de::var("y".to_string())
        )
    );
}

#[test]
fn interning_gives_an_unbound_name_one_identifier() {
    let mut ctx = intern::Context::default();
    let term = ctx.rename_term(parse(r"y (\x:(). y x) y").unwrap());
    assert_eq!(
        term,
        de::app(
            de::app(
                de::var(0),
                de::abs(1, ty::unit(), de::app(de::var(0), de::var(1)))
            ),
            de::var(0)
        )
    );
    assert_eq!(ctx.name(Var(0)), "y");
    assert_eq!(ctx.name(Var(1)), "x");
    let unbound = ctx.unbound();
    assert_eq!(unbound.len(), 1);
    assert!(unbound.contains(&"y".to_string()));
}

#[test]
fn interning_pops_a_binder_where_it_is_left() {
    let mut ctx = intern::Context::default();
    let term = ctx.rename_term(parse(r"(\x:(). x) x").unwrap());
    assert_eq!(
        term,
        de::app(de::abs(0, ty::unit(), de::var(0)), de::var(1))
    );
    assert!(ctx.unbound().contains(&"x".to_string()));
}
