use odlang::atoms::{Alpha, AlphaGen, Delta, Named, Names, Position, Range, Var};
use odlang::multi_result::{empty, MultiResult, Neutral, Semigroup, Singleton};
use odlang::parser::inp;
use odlang::parser::ty as input_ty;
use odlang::prelude::Pair;
use odlang::input::{InputTermRec, InputTypeRec};
use odlang::syntax::{de, ty};
use odlang::text::{chars_of, decimal};
use odlang::typeck::{TypeckError, TypeckResult};

#[test]
fn counter_hands_out_rising_unknowns() {
    let mut gen = AlphaGen::default();
    assert!(gen.has_next());
    assert_eq!(gen.next(), Alpha(1));
    assert_eq!(gen.next(), Alpha(2));
    assert_eq!(gen.last(), 2);
    assert_eq!(Alpha::from(7), Alpha(7));
    assert!(!AlphaGen::starting_after(usize::MAX).has_next());
}

#[test]
fn name_table_numbers_names_in_order() {
    let mut names = Names::default();
    assert_eq!(names.push("a".to_string()), Var(0));
    assert_eq!(names.push("b".to_string()), Var(1));
    assert_eq!(names.push("a".to_string()), Var(2));
    assert_eq!(names.len(), 3);
    assert_eq!(names.name(Var(1)), "b");
    assert_eq!(Var::from(4), Var(4));
}

#[test]
fn position_moves_along_the_line_or_to_a_later_line() {
    let start = Position { line: 2, column: 5 };
    assert_eq!(
        start + Delta { lines: 0, columns: 3 },
        Position { line: 2, column: 8 }
    );
    assert_eq!(
        start + Delta { lines: 2, columns: 3 },
        Position { line: 4, column: 3 }
    );
    assert_eq!(
        Position { line: 2, column: usize::MAX }.advance(Delta { lines: 0, columns: 1 }),
        Position { line: 2, column: usize::MAX }
    );
}

#[test]
fn extent_between_two_positions() {
    let start = Position { line: 2, column: 5 };
    assert_eq!(
        Position { line: 2, column: 9 } - start,
        Delta { lines: 0, columns: 4 }
    );
    assert_eq!(
        Position { line: 4, column: 1 } - start,
        Delta { lines: 2, columns: 1 }
    );
    assert_eq!(
        Position { line: 1, column: 9 }.since(start),
        Delta { lines: 0, columns: 4 }
    );
    assert_eq!(
        Position { line: 2, column: 1 }.since(start),
        Delta { lines: 0, columns: 0 }
    );
}

#[test]
fn ranges_compose_by_concatenation() {
    let left = Range {
        from: Position { line: 0, column: 2 },
        until: Delta { lines: 0, columns: 3 },
    };
    let right = Range {
        from: Position { line: 0, column: 8 },
        until: Delta { lines: 1, columns: 4 },
    };
    let both = left + right;
    assert_eq!(both.from, Position { line: 0, column: 2 });
    assert_eq!(both.until, Delta { lines: 1, columns: 4 });
    assert_eq!(both.to(), Position { line: 1, column: 4 });
    assert_eq!(left.join(left).until, Delta { lines: 0, columns: 3 });
    assert_eq!(Range::from(Position { line: 3, column: 1 }).to(), Position { line: 3, column: 1 });
    assert_eq!(both.to_string(), "0:2-1:4");
}

#[test]
fn extent_of_a_text_counts_breaks_and_the_last_line() {
    assert_eq!(Delta::from("ab\ncd\nefg"), Delta { lines: 2, columns: 3 });
    assert_eq!(Delta::from("abc"), Delta { lines: 0, columns: 3 });
    assert_eq!(Delta::from("abc\n"), Delta { lines: 1, columns: 0 });
    assert_eq!(Delta::from(""), Delta { lines: 0, columns: 0 });
    assert!(!Delta::from("").nonzero());
    assert!(Delta::from("\n").nonzero());
    assert!(Delta::from("a").nonzero());
    assert_eq!(Delta::of(&chars_of("a\nb")), Delta { lines: 1, columns: 1 });
}

#[test]
fn numbers_are_written_in_decimal() {
    assert_eq!(decimal(0), "0");
    assert_eq!(decimal(9), "9");
    assert_eq!(decimal(10), "10");
    assert_eq!(decimal(4096), "4096");
    assert_eq!(Position { line: 12, column: 305 }.to_string(), "12:305");
}

#[test]
fn accumulator_keeps_the_errors_of_both_sides() {
    let left: MultiResult<u8, (), Vec<u8>> = MultiResult::err(1, 10);
    let right: MultiResult<u8, (), Vec<u8>> = MultiResult::err(2, 20);
    let both = left + right;
    assert_eq!(both.result, (1, 2));
    assert_eq!(both.errors, vec![10, 20]);
    let fine: MultiResult<u8, (), Vec<u8>> = MultiResult::ok(3, empty());
    assert!(fine.errors.is_empty());
    assert_eq!(fine.into_result(), Ok(3));
    assert_eq!(both.into_result(), Err(vec![10, 20]));
}

#[test]
fn accumulator_maps_and_binds() {
    let start: MultiResult<u8, (), Vec<u8>> = MultiResult::err(1, 10);
    let mapped = start.map(|value| value + 1);
    assert_eq!(mapped.result, 2);
    assert_eq!(mapped.errors, vec![10]);
    let bound = mapped.then(|value| MultiResult::<u16, (), Vec<u8>>::err(value as u16 * 100, 20));
    assert_eq!(bound.result, 200);
    assert_eq!(bound.errors, vec![10, 20]);
    let made: MultiResult<u8, Vec<u8>, Vec<u8>> = MultiResult::new(1, 5, 6);
    assert_eq!(made.state, vec![5]);
    assert_eq!(made.errors, vec![6]);
    let item: MultiResult<u8, (), Vec<u8>> = MultiResult::item(9);
    assert_eq!(item.result, 0);
    assert_eq!(item.errors, vec![9]);
}

#[test]
fn collections_join_and_know_when_they_are_empty() {
    assert_eq!(vec![1, 2].app(vec![3]), vec![1, 2, 3]);
    assert_eq!((vec![1], ()).app((vec![2], ())), (vec![1, 2], ()));
    assert_eq!(<Vec<u8> as Singleton<u8>>::single(4), vec![4]);
    assert_eq!(<(Vec<u8>, Vec<u8>) as Singleton<(u8, u8)>>::single((1, 2)), (vec![1], vec![2]));
    assert!(Vec::<u8>::new().is_neutral());
    assert!(!vec![1].is_neutral());
    assert!(().is_neutral());
    assert!(!(vec![1], ()).is_neutral());
}

#[test]
fn results_pair_and_keep_every_error() {
    let left: Result<u8, Vec<u8>> = Err(vec![1]);
    let right: Result<u8, Vec<u8>> = Err(vec![2]);
    assert_eq!(left.pair(right), Err(vec![1, 2]));
    let fine: Result<u8, Vec<u8>> = Ok(1);
    let other: Result<u8, Vec<u8>> = Ok(2);
    assert_eq!(fine.pair(other), Ok((1, 2)));
    let good: Result<u8, Vec<u8>> = Ok(1);
    let bad: Result<u8, Vec<u8>> = Err(vec![3]);
    assert_eq!(good.pair(bad), Err(vec![3]));
}

#[test]
fn checker_results_keep_errors_in_order() {
    let first = TypeckResult::new(1, TypeckError::NotAFunction(ty::unit()));
    let second = TypeckResult::new(2, TypeckError::NotAForall(ty::unit()));
    let both = first + second;
    assert_eq!(both.0, (1, 2));
    assert_eq!(
        both.1,
        vec![
            TypeckError::NotAFunction(ty::unit()),
            TypeckError::NotAForall(ty::unit())
        ]
    );
    let bound = TypeckResult::ok(5).then(|value| TypeckResult::new(value + 1, TypeckError::NotAFunction(ty::unit())));
    assert_eq!(bound.0, 6);
    assert_eq!(bound.1.len(), 1);
    assert_eq!(TypeckResult::ok(1).map(|value| value + 1).into_result(), Ok(2));
    assert_eq!(bound.into_result(), Err(vec![TypeckError::NotAFunction(ty::unit())]));
}

#[test]
fn values_write_themselves_with_a_name_table() {
    let mut names = Names::default();
    names.push("f".to_string());
    names.push("a".to_string());
    let term = de::abs(0, ty::for_all(1, ty::arr(ty::arr(ty::var(1), ty::hole(3)), ty::unit())), de::ty_app(de::app(de::var(0), de::app(de::var(0), de::unit())), ty::unit()));
    assert_eq!(
        term.pprint(&names),
        r"\f: /\ a => (a -> _3) -> (). f (f ()) [()]"
    );
    assert_eq!(ty::arr(ty::var(1), ty::var(0)).pprint(&names), "a -> f");
    assert_eq!(
        TypeckError::NotAForall(ty::var(1)).pprint(&names),
        "Must be a forall: 'a'"
    );
    assert_eq!(de::error().pprint(&names), "ERROR");
    assert_eq!(
        de::app(de::abs(0, ty::unit(), de::var(0)), de::ty_abs(1, de::unit())).pprint(&names),
        r"(\f: (). f) (/\ a. ())"
    );
}

#[test]
fn surface_builders_make_the_nodes_they_name() {
    assert_eq!(inp::unit().0, InputTermRec::TmUnit);
    assert_eq!(inp::var("x").0, InputTermRec::TmVar("x".to_string()));
    assert_eq!(inp::err().0, InputTermRec::TmError);
    match inp::abs("x", input_ty::hole(), inp::app(inp::var("x"), inp::unit())).0 {
        InputTermRec::TmAbs(name, found, body) => {
            assert_eq!(name, "x");
            assert_eq!(found.0, InputTypeRec::TyHole);
            assert_eq!(body.0, inp::app(inp::var("x"), inp::unit()).0);
        }
        other => panic!("expected an abstraction: {:?}", other),
    }
    assert_eq!(
        inp::tyabs("a", inp::tyapp(inp::unit(), input_ty::var("a"))).0,
        InputTermRec::TmTyAbs(
            "a".to_string(),
            Box::new(inp::tyapp(inp::unit(), input_ty::var("a")))
        )
    );
    assert_eq!(
        input_ty::arr(input_ty::unit(), input_ty::for_all("a", input_ty::error())).0,
        InputTypeRec::TyArrow(
            Box::new(input_ty::unit()),
            Box::new(input_ty::for_all("a", input_ty::error()))
        )
    );
}
