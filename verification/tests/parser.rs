use odlang::parser::{parse, tokenize, Parser};

#[test]
fn id() {
    let src = "/\\a. \\x: a. x\n";
    let (tokens, errors, end) = tokenize(src);
    assert!(errors.is_empty());
    let mut parser = Parser::from(&tokens, end);
    let _ = parser.parse().unwrap();
    parser.finish().unwrap();
    let _ = parse(src).unwrap();
}
