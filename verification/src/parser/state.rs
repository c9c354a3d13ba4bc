use vstd::prelude::*;

use crate::atoms::Position;
use crate::input::{InputTerm, InputTermRec, InputType, InputTypeRec};
use crate::parser::error::ParseError;
use crate::parser::grammar::{
    applications, symbol, term_atom, type_atom, unexpected, whole_term, whole_type,
};
use crate::parser::tokens::{ArrowKind, Lexeme, ParenKind, Symbol, Token, TokenData};

verus! {

/// The tokens as values of mathematics.
pub open spec fn token_views(tokens: Seq<Token>) -> Seq<Lexeme> {
    Seq::new(tokens.len(), |i: int| tokens[i]@)
}

/// A reader of a sequence of tokens by the grammar: it stands at a
/// position and moves on over what it reads.
pub struct Parser<'a> {
    tokens: &'a Vec<Token>,
    position: usize,
    end: Position,
}

impl<'a> Parser<'a> {
    /// The tokens that are being read.
    pub closed spec fn lexemes(&self) -> Seq<Lexeme> {
        token_views(self.tokens@)
    }

    /// The position of the token to read next.
    pub closed spec fn position(&self) -> int {
        self.position as int
    }

    /// The place where the text behind the tokens ends.
    pub closed spec fn end(&self) -> Position {
        self.end
    }

    /// Whether the parser stands at a token or just behind the last.
    pub closed spec fn valid(&self) -> bool {
        self.position <= self.tokens@.len()
    }

    /// Whether `later` reads the same tokens as `self`.
    pub open spec fn same_input(&self, later: &Parser<'a>) -> bool {
        later.lexemes() == self.lexemes() && later.end() == self.end()
    }

    /// A parser at the first of `tokens`; the text behind them ends at
    /// `end`.
    pub fn from(tokens: &'a Vec<Token>, end: Position) -> (parser: Parser<'a>)
        ensures
            parser.valid(),
            parser.lexemes() == token_views(tokens@),
            parser.position() == 0,
            parser.end() == end,
    {
        Parser { tokens, position: 0, end }
    }

    /// The error for what stands at `at` where something else was needed.
    fn unexpected(&self, at: usize) -> (error: ParseError)
        ensures
            error == unexpected(self.lexemes(), at as int, self.end()),
    {
        if at < self.tokens.len() {
            ParseError::Unexpected(self.tokens[at].range)
        } else {
            ParseError::UnexpectedEnd(self.end)
        }
    }

    fn is_close(&self, at: usize, kind: ParenKind) -> (b: bool)
        ensures
            b == (symbol(self.lexemes(), at as int) == Some(Symbol::CloseParen(kind))),
    {
        if at < self.tokens.len() {
            match &self.tokens[at].data {
                TokenData::CloseParen(found) => *found == kind,
                _ => false,
            }
        } else {
            false
        }
    }

    fn is_arrow(&self, at: usize, kind: ArrowKind) -> (b: bool)
        ensures
            b == (symbol(self.lexemes(), at as int) == Some(Symbol::Arrow(kind))),
    {
        if at < self.tokens.len() {
            match &self.tokens[at].data {
                TokenData::Arrow(found) => *found == kind,
                _ => false,
            }
        } else {
            false
        }
    }

    fn is_colon(&self, at: usize) -> (b: bool)
        ensures
            b == (symbol(self.lexemes(), at as int) == Some(Symbol::Colon)),
    {
        if at < self.tokens.len() {
            match &self.tokens[at].data {
                TokenData::Colon => true,
                _ => false,
            }
        } else {
            false
        }
    }

    fn is_dot(&self, at: usize) -> (b: bool)
        ensures
            b == (symbol(self.lexemes(), at as int) == Some(Symbol::Dot)),
    {
        if at < self.tokens.len() {
            match &self.tokens[at].data {
                TokenData::Dot => true,
                _ => false,
            }
        } else {
            false
        }
    }

    /// The name at `at`, where a name stands there.
    fn name_at(&self, at: usize) -> (name: Option<String>)
        ensures
            match name {
                Some(name) => symbol(self.lexemes(), at as int) == Some(Symbol::Ident(name@)),
                None => !(symbol(self.lexemes(), at as int) matches Some(Symbol::Ident(_))),
            },
    {
        if at < self.tokens.len() {
            match &self.tokens[at].data {
                TokenData::Ident(name) => Some(name.clone()),
                _ => None,
            }
        } else {
            None
        }
    }

    /// Reads an atom of a type.
    pub fn parse_type_atom(&mut self) -> (r: Result<InputType, ParseError>)
        requires
            old(self).valid(),
        ensures
            final(self).valid(),
            old(self).same_input(final(self)),
            match r {
                Ok(node) => {
                    &&& final(self).position() > old(self).position()
                    &&& type_atom(old(self).lexemes(), old(self).position(), old(self).end())
                        == Ok::<_, ParseError>(
                        (node@, (final(self).position() - old(self).position() - 1) as nat),
                    )
                    &&& node@.well_formed()
                    &&& node@.holes() <= final(self).position() - old(self).position()
                },
                Err(error) => type_atom(old(self).lexemes(), old(self).position(), old(self).end())
                    == Err::<(crate::input::SurfaceType, nat), _>(error),
            },
        decreases old(self).lexemes().len() - old(self).position(), 0nat,
    {
        let pos = self.position;
        if pos >= self.tokens.len() {
            return Err(ParseError::UnexpectedEnd(self.end));
        }
        let range = self.tokens[pos].range;
        match &self.tokens[pos].data {
            TokenData::OpenParen(ParenKind::Round) => {
                if self.is_close(pos + 1, ParenKind::Round) {
                    let range = range.join(self.tokens[pos + 1].range);
                    self.position = pos + 2;
                    Ok(InputType(InputTypeRec::TyUnit, range))
                } else {
                    self.position = pos + 1;
                    match self.parse_type() {
                        Err(error) => Err(error),
                        Ok(inner) => {
                            let close = self.position;
                            if self.is_close(close, ParenKind::Round) {
                                let range = range.join(self.tokens[close].range);
                                self.position = close + 1;
                                Ok(InputType(inner.0, range))
                            } else {
                                Err(self.unexpected(close))
                            }
                        },
                    }
                }
            },
            TokenData::Ident(name) => {
                let underscore = String::from_str("_");
                let node = if *name == underscore {
                    InputTypeRec::TyHole
                } else {
                    InputTypeRec::TyVar(name.clone())
                };
                self.position = pos + 1;
                Ok(InputType(node, range))
            },
            TokenData::TypeLambda => {
                match self.name_at(pos + 1) {
                    Some(param) => {
                        if self.is_arrow(pos + 2, ArrowKind::Fat) {
                            self.position = pos + 3;
                            match self.parse_type() {
                                Err(error) => Err(error),
                                Ok(body) => {
                                    let range = range.join(body.1);
                                    Ok(InputType(InputTypeRec::TyForall(param, Box::new(body)), range))
                                },
                            }
                        } else {
                            Err(self.unexpected(pos + 2))
                        }
                    },
                    None => Err(self.unexpected(pos + 1)),
                }
            },
            _ => Err(ParseError::Unexpected(range)),
        }
    }

    /// Reads a type: an atom, and behind an arrow the type that the arrow
    /// leads to.
    pub fn parse_type(&mut self) -> (r: Result<InputType, ParseError>)
        requires
            old(self).valid(),
        ensures
            final(self).valid(),
            old(self).same_input(final(self)),
            match r {
                Ok(node) => {
                    &&& final(self).position() > old(self).position()
                    &&& whole_type(old(self).lexemes(), old(self).position(), old(self).end())
                        == Ok::<_, ParseError>(
                        (node@, (final(self).position() - old(self).position() - 1) as nat),
                    )
                    &&& node@.well_formed()
                    &&& node@.holes() <= final(self).position() - old(self).position()
                },
                Err(error) => whole_type(old(self).lexemes(), old(self).position(), old(self).end())
                    == Err::<(crate::input::SurfaceType, nat), _>(error),
            },
        decreases old(self).lexemes().len() - old(self).position(), 1nat,
    {
        if self.position >= self.tokens.len() {
            return Err(ParseError::UnexpectedEnd(self.end));
        }
        match self.parse_type_atom() {
            Err(error) => Err(error),
            Ok(from) => {
                let arrow = self.position;
                if self.is_arrow(arrow, ArrowKind::Thin) {
                    self.position = arrow + 1;
                    match self.parse_type() {
                        Err(error) => Err(error),
                        Ok(to) => {
                            let range = from.1.join(to.1);
                            Ok(
                                InputType(
                                    InputTypeRec::TyArrow(Box::new(from), Box::new(to)),
                                    range,
                                ),
                            )
                        },
                    }
                } else {
                    Ok(from)
                }
            },
        }
    }

    /// Reads what an opening parenthesis begins in a term: the unit value,
    /// or a term in parentheses.
    fn parse_paren(&mut self) -> (r: Result<InputTerm, ParseError>)
        requires
            old(self).valid(),
            symbol(old(self).lexemes(), old(self).position()) == Some(
                Symbol::OpenParen(ParenKind::Round),
            ),
        ensures
            final(self).valid(),
            old(self).same_input(final(self)),
            match r {
                Ok(node) => {
                    &&& final(self).position() > old(self).position()
                    &&& term_atom(old(self).lexemes(), old(self).position(), old(self).end())
                        == Ok::<_, ParseError>(
                        (node@, (final(self).position() - old(self).position() - 1) as nat),
                    )
                    &&& node@.well_formed()
                    &&& node@.holes() <= final(self).position() - old(self).position()
                },
                Err(error) => term_atom(old(self).lexemes(), old(self).position(), old(self).end())
                    == Err::<(crate::input::SurfaceTerm, nat), _>(error),
            },
        decreases old(self).lexemes().len() - old(self).position(), 0nat,
    {
        let pos = self.position;
        let total = self.tokens.len();
        let range = self.tokens[pos].range;
        if self.is_close(pos + 1, ParenKind::Round) {
            let range = range.join(self.tokens[pos + 1].range);
            self.position = pos + 2;
            Ok(InputTerm(InputTermRec::TmUnit, range))
        } else {
            self.position = pos + 1;
            match self.parse() {
                Err(error) => Err(error),
                Ok(inner) => {
                    let close = self.position;
                    if self.is_close(close, ParenKind::Round) {
                        let range = range.join(self.tokens[close].range);
                        self.position = close + 1;
                        Ok(InputTerm(inner.0, range))
                    } else {
                        Err(self.unexpected(close))
                    }
                },
            }
        }
    }

    /// Reads an abstraction: the backslash, the parameter, a colon, the
    /// parameter's type, a dot and the body.
    fn parse_abs(&mut self) -> (r: Result<InputTerm, ParseError>)
        requires
            old(self).valid(),
            symbol(old(self).lexemes(), old(self).position()) == Some(Symbol::Lambda),
        ensures
            final(self).valid(),
            old(self).same_input(final(self)),
            match r {
                Ok(node) => {
                    &&& final(self).position() > old(self).position()
                    &&& term_atom(old(self).lexemes(), old(self).position(), old(self).end())
                        == Ok::<_, ParseError>(
                        (node@, (final(self).position() - old(self).position() - 1) as nat),
                    )
                    &&& node@.well_formed()
                    &&& node@.holes() <= final(self).position() - old(self).position()
                },
                Err(error) => term_atom(old(self).lexemes(), old(self).position(), old(self).end())
                    == Err::<(crate::input::SurfaceTerm, nat), _>(error),
            },
        decreases old(self).lexemes().len() - old(self).position(), 0nat,
    {
        let pos = self.position;
        let total = self.tokens.len();
        let range = self.tokens[pos].range;
        let param = match self.name_at(pos + 1) {
            Some(param) => param,
            None => {
                return Err(self.unexpected(pos + 1));
            },
        };
        if !self.is_colon(pos + 2) {
            return Err(self.unexpected(pos + 2));
        }
        self.position = pos + 3;
        let ty = match self.parse_type() {
            Ok(ty) => ty,
            Err(error) => {
                return Err(error);
            },
        };
        let dot = self.position;
        if !self.is_dot(dot) {
            return Err(self.unexpected(dot));
        }
        self.position = dot + 1;
        match self.parse() {
            Err(error) => Err(error),
            Ok(body) => {
                let range = range.join(body.1);
                Ok(InputTerm(InputTermRec::TmAbs(param, ty, Box::new(body)), range))
            },
        }
    }

    /// Reads a type abstraction: its sign, the parameter, a dot and the
    /// body.
    fn parse_ty_abs(&mut self) -> (r: Result<InputTerm, ParseError>)
        requires
            old(self).valid(),
            symbol(old(self).lexemes(), old(self).position()) == Some(Symbol::TypeLambda),
        ensures
            final(self).valid(),
            old(self).same_input(final(self)),
            match r {
                Ok(node) => {
                    &&& final(self).position() > old(self).position()
                    &&& term_atom(old(self).lexemes(), old(self).position(), old(self).end())
                        == Ok::<_, ParseError>(
                        (node@, (final(self).position() - old(self).position() - 1) as nat),
                    )
                    &&& node@.well_formed()
                    &&& node@.holes() <= final(self).position() - old(self).position()
                },
                Err(error) => term_atom(old(self).lexemes(), old(self).position(), old(self).end())
                    == Err::<(crate::input::SurfaceTerm, nat), _>(error),
            },
        decreases old(self).lexemes().len() - old(self).position(), 0nat,
    {
        let pos = self.position;
        let total = self.tokens.len();
        let range = self.tokens[pos].range;
        let param = match self.name_at(pos + 1) {
            Some(param) => param,
            None => {
                return Err(self.unexpected(pos + 1));
            },
        };
        if !self.is_dot(pos + 2) {
            return Err(self.unexpected(pos + 2));
        }
        self.position = pos + 3;
        match self.parse() {
            Err(error) => Err(error),
            Ok(body) => {
                let range = range.join(body.1);
                Ok(InputTerm(InputTermRec::TmTyAbs(param, Box::new(body)), range))
            },
        }
    }

    /// Reads an atom of a term.
    pub fn parse_atom(&mut self) -> (r: Result<InputTerm, ParseError>)
        requires
            old(self).valid(),
        ensures
            final(self).valid(),
            old(self).same_input(final(self)),
            match r {
                Ok(node) => {
                    &&& final(self).position() > old(self).position()
                    &&& term_atom(old(self).lexemes(), old(self).position(), old(self).end())
                        == Ok::<_, ParseError>(
                        (node@, (final(self).position() - old(self).position() - 1) as nat),
                    )
                    &&& node@.well_formed()
                    &&& node@.holes() <= final(self).position() - old(self).position()
                },
                Err(error) => term_atom(old(self).lexemes(), old(self).position(), old(self).end())
                    == Err::<(crate::input::SurfaceTerm, nat), _>(error),
            },
        decreases old(self).lexemes().len() - old(self).position(), 1nat,
    {
        let pos = self.position;
        if pos >= self.tokens.len() {
            return Err(ParseError::UnexpectedEnd(self.end));
        }
        let range = self.tokens[pos].range;
        match &self.tokens[pos].data {
            TokenData::OpenParen(ParenKind::Round) => self.parse_paren(),
            TokenData::Lambda => self.parse_abs(),
            TokenData::TypeLambda => self.parse_ty_abs(),
            TokenData::Ident(name) => {
                self.position = pos + 1;
                Ok(InputTerm(InputTermRec::TmVar(name.clone()), range))
            },
            _ => Err(ParseError::Unexpected(range)),
        }
    }

    /// Reads the arguments that follow `head`, which began at the token at
    /// `start`, and applies `head` to them from left to right.
    pub fn parse_app(&mut self, start: usize, head: InputTerm) -> (r: Result<
        InputTerm,
        ParseError,
    >)
        requires
            old(self).valid(),
            start < old(self).position(),
            head@.well_formed(),
            head@.holes() <= old(self).position() - start,
        ensures
            final(self).valid(),
            old(self).same_input(final(self)),
            match r {
                Ok(node) => {
                    &&& final(self).position() >= old(self).position()
                    &&& applications(
                        old(self).lexemes(),
                        old(self).position(),
                        old(self).end(),
                        head@,
                        (old(self).position() - start - 1) as nat,
                    ) == Ok::<_, ParseError>((node@, (final(self).position() - start - 1) as nat))
                    &&& node@.well_formed()
                    &&& node@.holes() <= final(self).position() - start
                },
                Err(error) => applications(
                    old(self).lexemes(),
                    old(self).position(),
                    old(self).end(),
                    head@,
                    (old(self).position() - start - 1) as nat,
                ) == Err::<(crate::input::SurfaceTerm, nat), _>(error),
            },
        decreases old(self).lexemes().len() - old(self).position(), 2nat,
    {
        let pos = self.position;
        if pos >= self.tokens.len() {
            return Ok(head);
        }
        match &self.tokens[pos].data {
            TokenData::OpenParen(ParenKind::Square) => {
                self.position = pos + 1;
                match self.parse_type() {
                    Err(error) => Err(error),
                    Ok(ty) => {
                        let close = self.position;
                        if self.is_close(close, ParenKind::Square) {
                            let range = head.1.join(self.tokens[close].range);
                            self.position = close + 1;
                            self.parse_app(
                                start,
                                InputTerm(InputTermRec::TmTyApp(Box::new(head), ty), range),
                            )
                        } else {
                            Err(self.unexpected(close))
                        }
                    },
                }
            },
            TokenData::OpenParen(ParenKind::Round) | TokenData::Lambda | TokenData::TypeLambda
            | TokenData::Ident(_) => {
                match self.parse_atom() {
                    Err(error) => Err(error),
                    Ok(arg) => {
                        let range = head.1.join(arg.1);
                        self.parse_app(
                            start,
                            InputTerm(InputTermRec::TmApp(Box::new(head), Box::new(arg)), range),
                        )
                    },
                }
            },
            _ => Ok(head),
        }
    }

    /// Reads a term: an atom applied to the arguments that follow it.
    pub fn parse(&mut self) -> (r: Result<InputTerm, ParseError>)
        requires
            old(self).valid(),
        ensures
            final(self).valid(),
            old(self).same_input(final(self)),
            match r {
                Ok(node) => {
                    &&& final(self).position() > old(self).position()
                    &&& whole_term(old(self).lexemes(), old(self).position(), old(self).end())
                        == Ok::<_, ParseError>(
                        (node@, (final(self).position() - old(self).position() - 1) as nat),
                    )
                    &&& node@.well_formed()
                    &&& node@.holes() <= final(self).position() - old(self).position()
                },
                Err(error) => whole_term(old(self).lexemes(), old(self).position(), old(self).end())
                    == Err::<(crate::input::SurfaceTerm, nat), _>(error),
            },
        decreases old(self).lexemes().len() - old(self).position(), 3nat,
    {
        let start = self.position;
        if start >= self.tokens.len() {
            return Err(ParseError::UnexpectedEnd(self.end));
        }
        match self.parse_atom() {
            Err(error) => Err(error),
            Ok(head) => self.parse_app(start, head),
        }
    }

    /// Whether every token was read, and the error for the first that was
    /// not.
    pub fn finish(&self) -> (r: Result<(), ParseError>)
        requires
            self.valid(),
        ensures
            match r {
                Ok(_) => self.position() == self.lexemes().len(),
                Err(error) => self.position() < self.lexemes().len() && error == unexpected(
                    self.lexemes(),
                    self.position(),
                    self.end(),
                ),
            },
    {
        if self.position == self.tokens.len() {
            Ok(())
        } else {
            Err(self.unexpected(self.position))
        }
    }
}

} // verus!
