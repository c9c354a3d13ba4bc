//! The parser: from a line of text to the surface syntax tree, or to the
//! errors found in the line.

pub mod error;
pub mod grammar;
pub mod inp;
pub mod state;
pub mod tokens;
pub mod ty;

use itertools::Itertools;
use vstd::prelude::*;

use crate::atoms::Position;
use crate::input::{InputTerm, SurfaceTerm};

pub use error::{ParseError, ParseErrors};
pub use state::Parser;
pub use tokens::{ArrowKind, ParenKind, Token, TokenData, Tokenizer};

use grammar::parsed;
use state::token_views;
use tokens::{item_view, lexeme_at, lexemes, position_at, Lexeme};

verus! {

/// The values of the successes among `items`, in their order.
pub open spec fn successes<T, E>(items: Seq<Result<T, E>>) -> Seq<T>
    decreases items.len(),
{
    if items.len() == 0 {
        Seq::empty()
    } else {
        match items.last() {
            Ok(value) => successes(items.drop_last()).push(value),
            Err(_) => successes(items.drop_last()),
        }
    }
}

/// The errors of the failures among `items`, in their order.
pub open spec fn failures<T, E>(items: Seq<Result<T, E>>) -> Seq<E>
    decreases items.len(),
{
    if items.len() == 0 {
        Seq::empty()
    } else {
        match items.last() {
            Ok(_) => failures(items.drop_last()),
            Err(error) => failures(items.drop_last()).push(error),
        }
    }
}

/// `Itertools::partition_result` on a list of results: one list of the
/// values of all that are `Ok` and one of the errors of all that are `Err`,
/// each in the order of the list.
#[verifier::external_body]
fn partition(items: Vec<Result<Token, ParseError>>) -> (parts: (Vec<Token>, Vec<ParseError>))
    ensures
        parts.0@ == successes(items@),
        parts.1@ == failures(items@),
{
    items.into_iter().partition_result()
}

/// What was read, as values of mathematics.
pub open spec fn item_views(items: Seq<Result<Token, ParseError>>) -> Seq<
    Result<Lexeme, ParseError>,
> {
    Seq::new(items.len(), |i: int| item_view(items[i]))
}

proof fn lemma_partition_views(items: Seq<Result<Token, ParseError>>)
    ensures
        token_views(successes(items)) =~= successes(item_views(items)),
        failures(items) =~= failures(item_views(items)),
    decreases items.len(),
{
    if items.len() > 0 {
        lemma_partition_views(items.drop_last());
        assert(item_views(items).drop_last() =~= item_views(items.drop_last()));
    }
}

/// The place where a text ends.
pub open spec fn end_of(text: Seq<char>) -> Position {
    position_at(text, text.len() as int)
}

/// Reads all tokens of a text. The first list holds the tokens, the second
/// the errors for the characters that begin no token, both in reading
/// order; the place is where the text ends.
pub fn tokenize(text: &str) -> (r: (Vec<Token>, Vec<ParseError>, Position))
    ensures
        token_views(r.0@) == successes(lexemes(text@, 0)),
        r.1@ == failures(lexemes(text@, 0)),
        r.2 == end_of(text@),
{
    let mut tokenizer = Tokenizer::from(text);
    let mut items: Vec<Result<Token, ParseError>> = Vec::new();
    let mut done = false;
    while !done
        invariant
            tokenizer.valid(),
            tokenizer.text() == text@,
            0 <= tokenizer.offset() <= text@.len(),
            item_views(items@) + lexemes(text@, tokenizer.offset()) =~= lexemes(text@, 0),
            done ==> tokenizer.offset() == text@.len() && lexeme_at(
                text@,
                tokenizer.offset(),
            ).is_none(),
        decreases text@.len() - tokenizer.offset() + if done { 0int } else { 1int },
    {
        match tokenizer.next() {
            Some(item) => {
                assert(item_views(items@.push(item)) =~= item_views(items@).push(item_view(item)));
                items.push(item);
            },
            None => {
                done = true;
            },
        }
    }
    proof {
        assert(item_views(items@) =~= lexemes(text@, 0));
        lemma_partition_views(items@);
    }
    let end = tokenizer.place();
    let (tokens, errors) = partition(items);
    (tokens, errors, end)
}

/// Everything that is wrong with a line: the characters that begin no
/// token, and then the first place where the tokens do not follow the
/// grammar.
pub open spec fn line_errors(text: Seq<char>) -> Seq<ParseError> {
    failures(lexemes(text, 0)) + match parsed(successes(lexemes(text, 0)), end_of(text)) {
        Ok(_) => Seq::empty(),
        Err(error) => seq![error],
    }
}

/// The term that a line stands for by the grammar, where nothing is wrong
/// with the line.
pub open spec fn line_term(text: Seq<char>) -> Result<SurfaceTerm, ParseError> {
    parsed(successes(lexemes(text, 0)), end_of(text))
}

/// Parses a line. The answer is the term that the line stands for, where
/// nothing is wrong with it, and everything that is wrong otherwise. A term
/// that comes out holds no error node.
pub fn parse(text: &str) -> (r: Result<InputTerm, ParseErrors>)
    ensures
        match r {
            Ok(term) => {
                &&& line_errors(text@).len() == 0
                &&& line_term(text@) == Ok::<_, ParseError>(term@)
                &&& term@.well_formed()
                &&& term@.holes() <= usize::MAX
            },
            Err(errors) => errors.0@ == line_errors(text@) && errors.0@.len() > 0,
        },
{
    let (tokens, mut errors, end) = tokenize(text);
    let count = tokens.len();
    let mut parser = Parser::from(&tokens, end);
    let outcome = match parser.parse() {
        Ok(term) => match parser.finish() {
            Ok(_) => Ok(term),
            Err(error) => Err(error),
        },
        Err(error) => Err(error),
    };
    match outcome {
        Ok(term) => {
            if errors.len() == 0 {
                assert(line_errors(text@) =~= Seq::<ParseError>::empty());
                Ok(term)
            } else {
                assert(line_errors(text@) =~= errors@);
                Err(ParseErrors(errors))
            }
        },
        Err(error) => {
            errors.push(error);
            assert(line_errors(text@) =~= errors@);
            Err(ParseErrors(errors))
        },
    }
}

} // verus!
