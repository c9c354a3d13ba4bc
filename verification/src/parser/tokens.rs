use vstd::prelude::*;

use crate::atoms::range::{advanced, last_line_len, line_breaks};
use crate::atoms::{Delta, Position, Range};
use crate::parser::error::ParseError;
use crate::text::chars_of;

verus! {

#[derive(Clone, Copy, Debug, PartialEq, Eq, Structural)]
pub enum ParenKind {
    Round,
    Square,
}

#[derive(Clone, Copy, Debug, PartialEq, Eq, Structural)]
pub enum ArrowKind {
    Thin,
    Fat,
}

/// What a token is. `Lambda` is the backslash of an abstraction,
/// `TypeLambda` the slash and backslash of a type abstraction or a
/// quantifier.
#[derive(Clone, Debug, PartialEq, Eq)]
pub enum TokenData {
    OpenParen(ParenKind),
    CloseParen(ParenKind),
    Ident(String),
    Lambda,
    TypeLambda,
    Colon,
    Dot,
    Arrow(ArrowKind),
}

/// A token and the range of text it was read from.
#[derive(Clone, Debug, PartialEq, Eq)]
pub struct Token {
    pub data: TokenData,
    pub range: Range,
}

/// What a token is, as a value of mathematics.
pub enum Symbol {
    OpenParen(ParenKind),
    CloseParen(ParenKind),
    Ident(Seq<char>),
    Lambda,
    TypeLambda,
    Colon,
    Dot,
    Arrow(ArrowKind),
}

/// A token as a value of mathematics.
pub struct Lexeme {
    pub symbol: Symbol,
    pub range: Range,
}

impl View for TokenData {
    type V = Symbol;

    open spec fn view(&self) -> Symbol {
        match *self {
            TokenData::OpenParen(kind) => Symbol::OpenParen(kind),
            TokenData::CloseParen(kind) => Symbol::CloseParen(kind),
            TokenData::Ident(name) => Symbol::Ident(name@),
            TokenData::Lambda => Symbol::Lambda,
            TokenData::TypeLambda => Symbol::TypeLambda,
            TokenData::Colon => Symbol::Colon,
            TokenData::Dot => Symbol::Dot,
            TokenData::Arrow(kind) => Symbol::Arrow(kind),
        }
    }
}

impl View for Token {
    type V = Lexeme;

    open spec fn view(&self) -> Lexeme {
        Lexeme { symbol: self.data@, range: self.range }
    }
}

/// The two runs of characters that the tokenizer reads as a whole.
#[derive(Clone, Copy, Debug, PartialEq, Eq, Structural)]
pub enum CharClass {
    /// Spaces and line breaks.
    Blank,
    /// Letters, digits and underscores.
    Name,
}

pub open spec fn is_blank(c: char) -> bool {
    c == ' ' || c == '\n'
}

pub open spec fn starts_name(c: char) -> bool {
    ('a' <= c && c <= 'z') || ('A' <= c && c <= 'Z') || c == '_'
}

pub open spec fn continues_name(c: char) -> bool {
    starts_name(c) || ('0' <= c && c <= '9')
}

pub open spec fn in_class(c: char, class: CharClass) -> bool {
    match class {
        CharClass::Blank => is_blank(c),
        CharClass::Name => continues_name(c),
    }
}

/// The number of characters of `class` that stand in a row from `at` on.
pub open spec fn run_len(text: Seq<char>, at: int, class: CharClass) -> nat
    decreases text.len() - at,
{
    if 0 <= at < text.len() && in_class(text[at], class) {
        1 + run_len(text, at + 1, class)
    } else {
        0
    }
}

/// The place of the character at offset `at`: the line breaks before it,
/// and the characters between the last of them and it.
pub open spec fn position_at(text: Seq<char>, at: int) -> Position {
    Position {
        line: line_breaks(text.take(at)) as usize,
        column: last_line_len(text.take(at)) as usize,
    }
}

/// The number of characters that what stands at offset `at` takes beyond
/// its first: one for an arrow or the sign of a type abstraction, the rest
/// of the name for a name, none for anything else.
pub open spec fn symbol_more(text: Seq<char>, at: int) -> nat {
    let c = text[at];
    let then = if at + 1 < text.len() { Some(text[at + 1]) } else { None };
    if c == '(' || c == ')' || c == '[' || c == ']' || c == ':' || c == '.' || c == '\\' {
        0
    } else if (c == '-' && then == Some('>')) || (c == '=' && then == Some('>')) || (c == '/'
        && then == Some('\\')) {
        1
    } else if starts_name(c) {
        run_len(text, at + 1, CharClass::Name)
    } else {
        0
    }
}

/// What stands at offset `at`, which holds no blank: the symbol, or the
/// character that begins none.
pub open spec fn symbol_at(text: Seq<char>, at: int) -> Result<Symbol, char> {
    let c = text[at];
    let then = if at + 1 < text.len() { Some(text[at + 1]) } else { None };
    if c == '(' {
        Ok(Symbol::OpenParen(ParenKind::Round))
    } else if c == ')' {
        Ok(Symbol::CloseParen(ParenKind::Round))
    } else if c == '[' {
        Ok(Symbol::OpenParen(ParenKind::Square))
    } else if c == ']' {
        Ok(Symbol::CloseParen(ParenKind::Square))
    } else if c == ':' {
        Ok(Symbol::Colon)
    } else if c == '.' {
        Ok(Symbol::Dot)
    } else if c == '\\' {
        Ok(Symbol::Lambda)
    } else if c == '-' && then == Some('>') {
        Ok(Symbol::Arrow(ArrowKind::Thin))
    } else if c == '=' && then == Some('>') {
        Ok(Symbol::Arrow(ArrowKind::Fat))
    } else if c == '/' && then == Some('\\') {
        Ok(Symbol::TypeLambda)
    } else if starts_name(c) {
        Ok(Symbol::Ident(text.subrange(at, at + 1 + symbol_more(text, at))))
    } else {
        Err(c)
    }
}

/// What the tokenizer finds first from offset `at` on, and the offset
/// behind it; nothing where only blanks are left. Blanks separate tokens and
/// belong to none.
pub open spec fn lexeme_at(text: Seq<char>, at: int) -> Option<(Result<Lexeme, ParseError>, int)> {
    let start = at + run_len(text, at, CharClass::Blank);
    if at < 0 || start >= text.len() {
        None
    } else {
        let more = symbol_more(text, start);
        let from = position_at(text, start);
        let first = match symbol_at(text, start) {
            Ok(symbol) => Ok(
                Lexeme {
                    symbol,
                    range: Range { from, until: Delta { lines: 0, columns: (1 + more) as usize } },
                },
            ),
            Err(c) => Err(ParseError::UnknownSymbol(c, from)),
        };
        Some((first, start + 1 + more))
    }
}

/// The tokens and unknown characters of `text` from offset `at` on, in
/// reading order.
pub open spec fn lexemes(text: Seq<char>, at: int) -> Seq<Result<Lexeme, ParseError>>
    decreases text.len() - at,
    via lexemes_end
{
    match lexeme_at(text, at) {
        None => Seq::empty(),
        Some((first, next)) => seq![first] + lexemes(text, next),
    }
}

#[via_fn]
proof fn lexemes_end(text: Seq<char>, at: int) {
    if at >= 0 {
        let start = at + run_len(text, at, CharClass::Blank);
        if start < text.len() {
            lemma_run_within(text, start + 1, CharClass::Name);
        }
    }
}

/// What the tokenizer hands out, as a value of mathematics.
pub open spec fn item_view(item: Result<Token, ParseError>) -> Result<Lexeme, ParseError> {
    match item {
        Ok(token) => Ok(token@),
        Err(error) => Err(error),
    }
}

proof fn lemma_run_within(text: Seq<char>, at: int, class: CharClass)
    requires
        0 <= at <= text.len(),
    ensures
        at + run_len(text, at, class) <= text.len(),
        at + run_len(text, at, class) < text.len() ==> !in_class(
            text[at + run_len(text, at, class)],
            class,
        ),
    decreases text.len() - at,
{
    if at < text.len() && in_class(text[at], class) {
        lemma_run_within(text, at + 1, class);
    }
}

proof fn lemma_counts_within(text: Seq<char>)
    ensures
        line_breaks(text) + last_line_len(text) <= text.len(),
    decreases text.len(),
{
    if text.len() > 0 {
        lemma_counts_within(text.drop_last());
    }
}

/// Reading on over a piece of text moves the place by the extent of the
/// piece.
proof fn lemma_position_moves(text: Seq<char>, at: int, len: int)
    requires
        0 <= at,
        0 <= len,
        at + len <= text.len(),
        text.len() <= usize::MAX,
    ensures
        position_at(text, at + len) == advanced(
            position_at(text, at),
            Delta {
                lines: line_breaks(text.subrange(at, at + len)) as usize,
                columns: last_line_len(text.subrange(at, at + len)) as usize,
            },
        ),
    decreases len,
{
    lemma_counts_within(text.take(at));
    lemma_counts_within(text.take(at + len));
    lemma_counts_within(text.subrange(at, at + len));
    if len == 0 {
        assert(text.subrange(at, at + len) =~= Seq::<char>::empty());
    } else {
        lemma_position_moves(text, at, len - 1);
        lemma_counts_within(text.take(at + len - 1));
        lemma_counts_within(text.subrange(at, at + len - 1));
        assert(text.take(at + len).drop_last() =~= text.take(at + len - 1));
        assert(text.subrange(at, at + len).drop_last() =~= text.subrange(at, at + len - 1));
        assert(text.take(at + len).last() == text[at + len - 1]);
        assert(text.subrange(at, at + len).last() == text[at + len - 1]);
    }
}

/// A run of name characters holds no line break.
proof fn lemma_name_on_one_line(text: Seq<char>, at: int, len: int)
    requires
        0 <= at,
        0 <= len,
        at + len <= text.len(),
        forall|i: int| at <= i < at + len ==> text[i] != '\n',
    ensures
        line_breaks(text.subrange(at, at + len)) == 0,
        last_line_len(text.subrange(at, at + len)) == len,
    decreases len,
{
    if len == 0 {
        assert(text.subrange(at, at + len) =~= Seq::<char>::empty());
    } else {
        lemma_name_on_one_line(text, at, len - 1);
        assert(text.subrange(at, at + len).drop_last() =~= text.subrange(at, at + len - 1));
        assert(text.subrange(at, at + len).last() == text[at + len - 1]);
    }
}

proof fn lemma_run_members(text: Seq<char>, at: int, class: CharClass, i: int)
    requires
        0 <= at <= i < at + run_len(text, at, class),
    ensures
        i < text.len(),
        in_class(text[i], class),
    decreases i - at,
{
    if i > at {
        lemma_run_members(text, at + 1, class, i);
    }
}

/// Reads the tokens of a text one after the other.
pub struct Tokenizer<'a> {
    text: &'a str,
    chars: Vec<char>,
    at: usize,
    current: Position,
}

impl<'a> Tokenizer<'a> {
    /// The text that is being read.
    pub closed spec fn text(&self) -> Seq<char> {
        self.text@
    }

    /// The offset of the next character to read.
    pub closed spec fn offset(&self) -> int {
        self.at as int
    }

    /// Whether the tokenizer knows its place in the text.
    pub closed spec fn valid(&self) -> bool {
        &&& self.chars@ == self.text@
        &&& self.at <= self.chars@.len()
        &&& self.current == position_at(self.text@, self.at as int)
    }

    /// A tokenizer at the start of `text`.
    pub fn from(text: &'a str) -> (tokenizer: Tokenizer<'a>)
        ensures
            tokenizer.valid(),
            tokenizer.text() == text@,
            tokenizer.offset() == 0,
    {
        let chars = chars_of(text);
        assert(text@.take(0) =~= Seq::<char>::empty());
        Tokenizer { text, chars, at: 0, current: Position { line: 0, column: 0 } }
    }

    /// The place of the next character to read.
    pub fn place(&self) -> (place: Position)
        requires
            self.valid(),
        ensures
            place == position_at(self.text(), self.offset()),
    {
        self.current
    }

    /// Reads on over the next `n` characters and hands back their range.
    pub fn commit(&mut self, n: usize) -> (range: Range)
        requires
            old(self).valid(),
            old(self).offset() + n <= old(self).text().len(),
        ensures
            final(self).valid(),
            final(self).text() == old(self).text(),
            final(self).offset() == old(self).offset() + n,
            range.from == position_at(old(self).text(), old(self).offset()),
            range.until.lines == line_breaks(
                old(self).text().subrange(old(self).offset(), old(self).offset() + n),
            ),
            range.until.columns == last_line_len(
                old(self).text().subrange(old(self).offset(), old(self).offset() + n),
            ),
    {
        let from = self.current;
        let total = self.chars.len();
        let mut lines: usize = 0;
        let mut columns: usize = 0;
        let mut i: usize = 0;
        let ghost text = self.text@;
        let ghost start = self.at as int;
        assert(text.subrange(start, start) =~= Seq::<char>::empty());
        while i < n
            invariant
                i <= n,
                total == text.len(),
                start == self.at,
                start + n <= text.len(),
                self.chars@ == text,
                lines == line_breaks(text.subrange(start, start + i)),
                columns == last_line_len(text.subrange(start, start + i)),
                lines + columns <= i,
            decreases n - i,
        {
            assert(text.subrange(start, start + i + 1).drop_last() =~= text.subrange(
                start,
                start + i,
            ));
            if self.chars[self.at + i] == '\n' {
                lines = lines + 1;
                columns = 0;
            } else {
                columns = columns + 1;
            }
            i = i + 1;
        }
        let until = Delta { lines, columns };
        proof {
            lemma_position_moves(text, start, n as int);
        }
        self.current = from.advance(until);
        self.at = self.at + n;
        Range { from, until }
    }

    /// Reads on over the run of characters of `class` that stands next, and
    /// hands back its length and its range.
    pub fn take_while(&mut self, class: CharClass) -> (run: (usize, Range))
        requires
            old(self).valid(),
        ensures
            final(self).valid(),
            final(self).text() == old(self).text(),
            run.0 == run_len(old(self).text(), old(self).offset(), class),
            final(self).offset() == old(self).offset() + run.0,
            run.1.from == position_at(old(self).text(), old(self).offset()),
            run.1.until.lines == line_breaks(
                old(self).text().subrange(old(self).offset(), old(self).offset() + run.0),
            ),
            run.1.until.columns == last_line_len(
                old(self).text().subrange(old(self).offset(), old(self).offset() + run.0),
            ),
    {
        let mut n: usize = 0;
        let total = self.chars.len();
        let ghost text = self.text@;
        let ghost start = self.at as int;
        while self.at + n < total && member(self.chars[self.at + n], class)
            invariant
                self.chars@ == text,
                total == text.len(),
                start == self.at,
                start + n <= text.len(),
                run_len(text, start, class) == n + run_len(text, start + n, class),
            decreases text.len() - n,
        {
            n = n + 1;
        }
        let range = self.commit(n);
        (n, range)
    }

    /// Reads the next token. Blanks before it are passed over. The answer
    /// is nothing at the end of the text, the token where one stands next,
    /// and an error for a character that begins none; reading goes on
    /// behind that character.
    pub fn next(&mut self) -> (item: Option<Result<Token, ParseError>>)
        requires
            old(self).valid(),
        ensures
            final(self).valid(),
            final(self).text() == old(self).text(),
            final(self).offset() <= final(self).text().len(),
            match item {
                None => {
                    &&& lexeme_at(old(self).text(), old(self).offset()).is_none()
                    &&& final(self).offset() == final(self).text().len()
                },
                Some(item) => {
                    &&& lexeme_at(old(self).text(), old(self).offset()) == Some(
                        (item_view(item), final(self).offset()),
                    )
                    &&& final(self).offset() > old(self).offset()
                },
            },
    {
        let ghost text = self.text@;
        let ghost before = self.at as int;
        proof {
            lemma_run_within(text, before, CharClass::Blank);
        }
        self.take_while(CharClass::Blank);
        if self.at >= self.chars.len() {
            return None;
        }
        let ghost start = self.at as int;
        let c = self.chars[self.at];
        let then = if self.at + 1 < self.chars.len() {
            Some(self.chars[self.at + 1])
        } else {
            None
        };
        let data = if c == '(' {
            Some((TokenData::OpenParen(ParenKind::Round), 1usize))
        } else if c == ')' {
            Some((TokenData::CloseParen(ParenKind::Round), 1usize))
        } else if c == '[' {
            Some((TokenData::OpenParen(ParenKind::Square), 1usize))
        } else if c == ']' {
            Some((TokenData::CloseParen(ParenKind::Square), 1usize))
        } else if c == ':' {
            Some((TokenData::Colon, 1usize))
        } else if c == '.' {
            Some((TokenData::Dot, 1usize))
        } else if c == '\\' {
            Some((TokenData::Lambda, 1usize))
        } else if c == '-' && is_char(then, '>') {
            Some((TokenData::Arrow(ArrowKind::Thin), 2usize))
        } else if c == '=' && is_char(then, '>') {
            Some((TokenData::Arrow(ArrowKind::Fat), 2usize))
        } else if c == '/' && is_char(then, '\\') {
            Some((TokenData::TypeLambda, 2usize))
        } else {
            None
        };
        match data {
            Some((data, len)) => {
                proof {
                    assert forall|i: int| start <= i < start + len implies text[i] != '\n' by {}
                    lemma_name_on_one_line(text, start, len as int);
                }
                let range = self.commit(len);
                Some(Ok(Token { data, range }))
            },
            None => {
                if member(c, CharClass::Name) && !(c >= '0' && c <= '9') {
                    let from = self.at;
                    proof {
                        lemma_run_within(text, start, CharClass::Name);
                        assert forall|i: int|
                            start <= i < start + run_len(
                                text,
                                start,
                                CharClass::Name,
                            ) implies text[i] != '\n' by {
                            lemma_run_members(text, start, CharClass::Name, i);
                        }
                        lemma_name_on_one_line(
                            text,
                            start,
                            run_len(text, start, CharClass::Name) as int,
                        );
                    }
                    let (len, range) = self.take_while(CharClass::Name);
                    let name = String::from_str(self.text.substring_char(from, from + len));
                    Some(Ok(Token { data: TokenData::Ident(name), range }))
                } else {
                    proof {
                        lemma_name_on_one_line(text, start, 1);
                    }
                    let range = self.commit(1);
                    Some(Err(ParseError::UnknownSymbol(c, range.from)))
                }
            },
        }
    }
}

/// Whether `c` belongs to `class`.
pub fn member(c: char, class: CharClass) -> (b: bool)
    ensures
        b == in_class(c, class),
{
    match class {
        CharClass::Blank => c == ' ' || c == '\n',
        CharClass::Name => (c >= 'a' && c <= 'z') || (c >= 'A' && c <= 'Z') || c == '_' || (c
            >= '0' && c <= '9'),
    }
}

fn is_char(found: Option<char>, wanted: char) -> (b: bool)
    ensures
        b == (found == Some(wanted)),
{
    match found {
        Some(c) => c == wanted,
        None => false,
    }
}

} // verus!
