use odlang::atoms::{AlphaGen, Delta, Position, Range, Var};
use odlang::ident::context::rename_var;
use odlang::ident::{Context, Kind, Stack};
use odlang::input::{InputTermRec, InputTypeRec};
use odlang::parser::tokens::{member, CharClass};
use odlang::parser::ty as input_ty;
use odlang::parser::{tokenize, ParseError, Parser, Tokenizer};
use odlang::syntax::{de, ty};
use odlang::typeck::{Typeck, TypeckError, TypeckResult};

#[test]
fn checker_context_grows_and_shrinks() {
    let mut state = Typeck::from(AlphaGen::default());
    assert_eq!(state.get(Var(0)), None);
    assert_eq!(state.insert(Var(0), ty::unit()), None);
    assert_eq!(state.get(Var(0)), Some(ty::unit()));
    let saved = state.insert(Var(0), ty::arr(ty::unit(), ty::unit()));
    assert_eq!(saved, Some(ty::unit()));
    let TypeckResult(found, errors) = state.typeck(de::app(de::var(0), de::unit()));
    assert_eq!(found, ty::unit());
    assert!(errors.is_empty());
    state.restore(Var(0), saved);
    assert_eq!(state.get(Var(0)), Some(ty::unit()));
    state.restore(Var(0), None);
    assert_eq!(state.get(Var(0)), None);
}

#[test]
fn checker_leaves_the_context_as_it_found_it() {
    let mut state = Typeck::from(AlphaGen::default());
    state.insert(Var(0), ty::unit());
    let inner = de::abs(0, ty::arr(ty::unit(), ty::unit()), de::var(0));
    let TypeckResult(found, errors) = state.typeck(de::app(inner, de::abs(1, ty::unit(), de::var(1))));
    assert_eq!(found, ty::arr(ty::unit(), ty::unit()));
    assert!(errors.is_empty());
    assert_eq!(state.get(Var(0)), Some(ty::unit()));
    assert_eq!(state.get(Var(1)), None);
}

#[test]
fn application_judgements_recover_with_surrogates() {
    let mut state = Typeck::from(AlphaGen::starting_after(7));
    let arrow = ty::arr(ty::unit(), ty::var(3));
    assert_eq!(
        state.assert_app(arrow.clone(), ty::unit()),
        TypeckResult(ty::var(3), vec![])
    );
    assert_eq!(
        state.assert_app(arrow.clone(), ty::var(3)),
        TypeckResult(ty::var(3), vec![TypeckError::NotEqual(ty::unit(), ty::var(3))])
    );
    assert_eq!(
        state.assert_app(ty::unit(), ty::unit()),
        TypeckResult(ty::hole(8), vec![TypeckError::NotAFunction(ty::unit())])
    );
    assert_eq!(
        state.assert_ty_app(ty::for_all(3, arrow.clone()), ty::hole(1)),
        TypeckResult(ty::arr(ty::unit(), ty::hole(1)), vec![])
    );
    assert_eq!(
        state.assert_ty_app(arrow.clone(), ty::unit()),
        TypeckResult(ty::hole(9), vec![TypeckError::NotAForall(arrow)])
    );
    assert_eq!(state.next_hole(), ty::hole(10));
}

#[test]
fn variables_resolve_through_the_makers_given() {
    let empty = Stack::empty();
    let stack = empty.push(Kind::Term, "x".to_string(), Var(4));
    let found = rename_var(&stack, Kind::Term, "x".to_string(), |var: Var| var.0 + 1, || 0);
    assert_eq!(found.result, 5);
    assert!(found.errors.len() == 0);
    let missed = rename_var(&stack, Kind::Type, "x".to_string(), |var: Var| var.0 + 1, || 0);
    assert_eq!(missed.result, 0);
    assert!(missed.errors.contains(&"x".to_string()));
}

#[test]
fn quantifier_binds_its_name_in_its_body() {
    let mut ctx = Context::default();
    ctx.names.push("outer".to_string());
    let body = input_ty::arr(input_ty::var("a"), input_ty::var("b"));
    let renamed = ctx.rename_arrow(&Stack::empty(), "a".to_string(), body);
    assert_eq!(
        renamed.result,
        ty::for_all(1, ty::arr(ty::var(1), ty::error()))
    );
    assert!(renamed.errors.contains(&"b".to_string()));
    assert_eq!(ctx.names.len(), 2);
}

#[test]
fn characters_fall_into_classes() {
    assert!(member(' ', CharClass::Blank));
    assert!(member('\n', CharClass::Blank));
    assert!(!member('\t', CharClass::Blank));
    assert!(member('a', CharClass::Name));
    assert!(member('Z', CharClass::Name));
    assert!(member('_', CharClass::Name));
    assert!(member('7', CharClass::Name));
    assert!(!member('-', CharClass::Name));
}

#[test]
fn tokenizer_reads_runs_and_counts_lines() {
    let mut tokenizer = Tokenizer::from("ab1 \n\n  c");
    let (len, range) = tokenizer.take_while(CharClass::Name);
    assert_eq!(len, 3);
    assert_eq!(
        range,
        Range { from: Position { line: 0, column: 0 }, until: Delta { lines: 0, columns: 3 } }
    );
    let (blank, skipped) = tokenizer.take_while(CharClass::Blank);
    assert_eq!(blank, 5);
    assert_eq!(skipped.until, Delta { lines: 2, columns: 2 });
    assert_eq!(tokenizer.place(), Position { line: 2, column: 2 });
    let last = tokenizer.commit(1);
    assert_eq!(last.from, Position { line: 2, column: 2 });
    assert_eq!(tokenizer.place(), Position { line: 2, column: 3 });
    assert_eq!(tokenizer.take_while(CharClass::Name).0, 0);
}

#[test]
fn parser_reads_parts_of_a_line() {
    let (tokens, _, end) = tokenize(r"(a -> _) -> b x [c] )");
    let mut parser = Parser::from(&tokens, end);
    let found = parser.parse_type().unwrap();
    match found.0 {
        InputTypeRec::TyArrow(from, to) => {
            assert_eq!(to.0, InputTypeRec::TyVar("b".to_string()));
            match from.0 {
                InputTypeRec::TyArrow(_, hole) => assert_eq!(hole.0, InputTypeRec::TyHole),
                other => panic!("expected an arrow: {:?}", other),
            }
        }
        other => panic!("expected an arrow: {:?}", other),
    }
    let head = parser.parse_atom().unwrap();
    assert_eq!(head.0, InputTermRec::TmVar("x".to_string()));
    let applied = parser.parse_app(6, head).unwrap();
    match applied.0 {
        InputTermRec::TmTyApp(_, arg) => assert_eq!(arg.0, InputTypeRec::TyVar("c".to_string())),
        other => panic!("expected a type application: {:?}", other),
    }
    assert_eq!(
        parser.finish(),
        Err(ParseError::Unexpected(Range {
            from: Position { line: 0, column: 20 },
            until: Delta { lines: 0, columns: 1 }
        }))
    );
    assert_eq!(
        parser.parse_type_atom(),
        Err(ParseError::Unexpected(Range {
            from: Position { line: 0, column: 20 },
            until: Delta { lines: 0, columns: 1 }
        }))
    );
}
