use odlang::atoms::{Delta, Position, Range};
use odlang::input::{InputTerm, InputTermRec, InputType, InputTypeRec};
use odlang::parser::{parse, tokenize, ArrowKind, ParenKind, ParseError, TokenData, Tokenizer};

fn range(line: usize, column: usize, columns: usize) -> Range {
    Range {
        from: Position { line, column },
        until: Delta { lines: 0, columns },
    }
}

#[test]
fn tokens_carry_their_ranges() {
    let (tokens, errors, end) = tokenize("(\\x1 ->\n  /\\_a => .:]");
    assert!(errors.is_empty());
    let found: Vec<(TokenData, Range)> = tokens
        .into_iter()
        .map(|token| (token.data, token.range))
        .collect();
    assert_eq!(
        found,
        vec![
            (TokenData::OpenParen(ParenKind::Round), range(0, 0, 1)),
            (TokenData::Lambda, range(0, 1, 1)),
            (TokenData::Ident("x1".to_string()), range(0, 2, 2)),
            (TokenData::Arrow(ArrowKind::Thin), range(0, 5, 2)),
            (TokenData::TypeLambda, range(1, 2, 2)),
            (TokenData::Ident("_a".to_string()), range(1, 4, 2)),
            (TokenData::Arrow(ArrowKind::Fat), range(1, 7, 2)),
            (TokenData::Dot, range(1, 10, 1)),
            (TokenData::Colon, range(1, 11, 1)),
            (TokenData::CloseParen(ParenKind::Square), range(1, 12, 1)),
        ]
    );
    assert_eq!(end, Position { line: 1, column: 13 });
}

#[test]
fn unknown_symbols_are_parted_from_the_tokens() {
    let (tokens, errors, _) = tokenize("x # y\n? -");
    let names: Vec<TokenData> = tokens.into_iter().map(|token| token.data).collect();
    assert_eq!(
        names,
        vec![
            TokenData::Ident("x".to_string()),
            TokenData::Ident("y".to_string())
        ]
    );
    assert_eq!(
        errors,
        vec![
            ParseError::UnknownSymbol('#', Position { line: 0, column: 2 }),
            ParseError::UnknownSymbol('?', Position { line: 1, column: 0 }),
            ParseError::UnknownSymbol('-', Position { line: 1, column: 2 }),
        ]
    );
}

#[test]
fn tokenizer_hands_out_one_item_at_a_time() {
    let mut tokenizer = Tokenizer::from("  a $");
    let first = tokenizer.next().unwrap().unwrap();
    assert_eq!(first.data, TokenData::Ident("a".to_string()));
    assert_eq!(first.range, range(0, 2, 1));
    assert_eq!(
        tokenizer.next(),
        Some(Err(ParseError::UnknownSymbol(
            '$',
            Position { line: 0, column: 4 }
        )))
    );
    assert_eq!(tokenizer.next(), None);
    assert_eq!(tokenizer.place(), Position { line: 0, column: 5 });
}

#[test]
fn application_associates_to_the_left() {
    let term = parse("f x [()] y").unwrap();
    let InputTerm(outer, whole) = term;
    assert_eq!(whole, range(0, 0, 10));
    match outer {
        InputTermRec::TmApp(left, right) => {
            assert_eq!(*right, InputTerm(InputTermRec::TmVar("y".to_string()), range(0, 9, 1)));
            match left.0 {
                InputTermRec::TmTyApp(inner, arg) => {
                    assert_eq!(arg, InputType(InputTypeRec::TyUnit, range(0, 5, 2)));
                    assert_eq!(inner.1, range(0, 0, 3));
                    match inner.0 {
                        InputTermRec::TmApp(f, x) => {
                            assert_eq!(f.0, InputTermRec::TmVar("f".to_string()));
                            assert_eq!(x.0, InputTermRec::TmVar("x".to_string()));
                        }
                        other => panic!("expected an application: {:?}", other),
                    }
                }
                other => panic!("expected a type application: {:?}", other),
            }
        }
        other => panic!("expected an application: {:?}", other),
    }
}

#[test]
fn arrow_associates_to_the_right() {
    let term = parse(r"\f: a -> _ -> (/\b => b). f").unwrap();
    match term.0 {
        InputTermRec::TmAbs(name, found, body) => {
            assert_eq!(name, "f");
            assert_eq!(body.0, InputTermRec::TmVar("f".to_string()));
            match found.0 {
                InputTypeRec::TyArrow(from, to) => {
                    assert_eq!(from.0, InputTypeRec::TyVar("a".to_string()));
                    match to.0 {
                        InputTypeRec::TyArrow(hole, last) => {
                            assert_eq!(hole.0, InputTypeRec::TyHole);
                            match last.0 {
                                InputTypeRec::TyForall(param, inner) => {
                                    assert_eq!(param, "b");
                                    assert_eq!(inner.0, InputTypeRec::TyVar("b".to_string()));
                                }
                                other => panic!("expected a quantifier: {:?}", other),
                            }
                        }
                        other => panic!("expected an arrow: {:?}", other),
                    }
                }
                other => panic!("expected an arrow: {:?}", other),
            }
        }
        other => panic!("expected an abstraction: {:?}", other),
    }
}

#[test]
fn body_of_an_abstraction_reaches_to_the_end() {
    let term = parse(r"\x:(). x x").unwrap();
    match term.0 {
        InputTermRec::TmAbs(_, _, body) => match body.0 {
            InputTermRec::TmApp(_, _) => {}
            other => panic!("expected an application: {:?}", other),
        },
        other => panic!("expected an abstraction: {:?}", other),
    }
}

#[test]
fn parentheses_widen_the_range() {
    let term = parse("( x )").unwrap();
    assert_eq!(term, InputTerm(InputTermRec::TmVar("x".to_string()), range(0, 0, 5)));
    let unit = parse("()").unwrap();
    assert_eq!(unit, InputTerm(InputTermRec::TmUnit, range(0, 0, 2)));
}

#[test]
fn empty_line_ends_too_early() {
    let errors = parse("  \n ").unwrap_err();
    assert_eq!(
        errors.0,
        vec![ParseError::UnexpectedEnd(Position { line: 1, column: 1 })]
    );
}

#[test]
fn tokens_left_over_are_unexpected() {
    let errors = parse("x )").unwrap_err();
    assert_eq!(errors.0, vec![ParseError::Unexpected(range(0, 2, 1))]);
    assert_eq!(errors.to_string(), "[0:2-0:3]: Unexpected token\n");
}

#[test]
fn lexical_errors_come_before_the_syntax_error() {
    let errors = parse(r"\x # . x").unwrap_err();
    assert_eq!(
        errors.0,
        vec![
            ParseError::UnknownSymbol('#', Position { line: 0, column: 3 }),
            ParseError::Unexpected(range(0, 5, 1)),
        ]
    );
    assert_eq!(
        errors.to_string(),
        "[0:3]: Unknown symbol '#'\n[0:5-0:6]: Unexpected token\n"
    );
}

#[test]
fn lexical_error_alone_fails_a_line_that_parses() {
    let errors = parse("x #").unwrap_err();
    assert_eq!(
        errors.0,
        vec![ParseError::UnknownSymbol('#', Position { line: 0, column: 2 })]
    );
}

#[test]
fn missing_parts_of_an_abstraction_are_reported() {
    assert_eq!(
        parse(r"\x. x").unwrap_err().0,
        vec![ParseError::Unexpected(range(0, 2, 1))]
    );
    assert_eq!(
        parse(r"\x:()").unwrap_err().0,
        vec![ParseError::UnexpectedEnd(Position { line: 0, column: 5 })]
    );
    assert_eq!(
        parse(r"/\ => x").unwrap_err().0,
        vec![ParseError::Unexpected(range(0, 3, 2))]
    );
    assert_eq!(
        parse(r"f [x").unwrap_err().0,
        vec![ParseError::UnexpectedEnd(Position { line: 0, column: 4 })]
    );
}
