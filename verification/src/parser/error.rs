use vstd::prelude::*;

use crate::atoms::{Position, Range};
use crate::text::digits;

verus! {

/// What can be wrong with a line of text.
#[derive(Clone, Copy, Debug, PartialEq, Eq, Structural)]
pub enum ParseError {
    /// A character at this place begins no token.
    UnknownSymbol(char, Position),
    /// The token at this range cannot stand where it stands.
    Unexpected(Range),
    /// The text ends at this place, where more was needed.
    UnexpectedEnd(Position),
}

/// All that was found wrong with a line, in reading order.
#[derive(Debug)]
pub struct ParseErrors(pub Vec<ParseError>);

/// A place as `line:column`.
pub open spec fn place_text(place: Position) -> Seq<char> {
    digits(place.line as nat) + seq![':'] + digits(place.column as nat)
}

/// The message for one error: the place in square brackets, a colon and what
/// is wrong there.
pub open spec fn error_text(error: ParseError) -> Seq<char> {
    match error {
        ParseError::UnknownSymbol(c, place) => seq!['['] + place_text(place) + "]: Unknown symbol '"@
            + seq![c, '\''],
        ParseError::Unexpected(range) => seq!['['] + place_text(range.from) + seq!['-']
            + place_text(range.end()) + "]: Unexpected token"@,
        ParseError::UnexpectedEnd(place) => seq!['['] + place_text(place)
            + "]: Unexpected end of input"@,
    }
}

/// The messages of the errors from position `from` on, one line for each.
pub open spec fn error_lines(errors: Seq<ParseError>, from: int) -> Seq<char>
    decreases errors.len() - from,
{
    if 0 <= from < errors.len() {
        error_text(errors[from]) + seq!['\n'] + error_lines(errors, from + 1)
    } else {
        Seq::empty()
    }
}

impl ParseError {
    pub fn to_string(&self) -> (text: String)
        ensures
            text@ == error_text(*self),
    {
        let mut text = String::from_str("[");
        proof {
            reveal_strlit("[");
        }
        match self {
            ParseError::UnknownSymbol(c, place) => {
                let place = place.to_string();
                text.append(place.as_str());
                text.append("]: Unknown symbol '");
                text.push(*c);
                text.push('\'');
                assert(text@ =~= error_text(*self));
            },
            ParseError::Unexpected(range) => {
                let range = range.to_string();
                text.append(range.as_str());
                text.append("]: Unexpected token");
                assert(text@ =~= error_text(*self));
            },
            ParseError::UnexpectedEnd(place) => {
                let place = place.to_string();
                text.append(place.as_str());
                text.append("]: Unexpected end of input");
                assert(text@ =~= error_text(*self));
            },
        }
        text
    }
}

impl ParseErrors {
    /// One line for each error.
    pub fn to_string(&self) -> (text: String)
        ensures
            text@ == error_lines(self.0@, 0),
    {
        let mut text = String::new();
        let mut i: usize = self.0.len();
        assert(error_lines(self.0@, i as int) =~= Seq::<char>::empty());
        while i > 0
            invariant
                i <= self.0.len(),
                text@ == error_lines(self.0@, i as int),
            decreases i,
        {
            i = i - 1;
            let mut line = self.0[i].to_string();
            line.push('\n');
            line.append(text.as_str());
            assert(line@ =~= error_lines(self.0@, i as int));
            text = line;
        }
        text
    }
}

} // verus!
