//! The grammar, as functions of mathematics from a sequence of tokens to a
//! syntax tree:
//!
//! ```text
//! term  ::= atom (atom | '[' type ']')*
//! atom  ::= '(' term? ')' | '\' name ':' type '.' term | '/\' name '.' term | name
//! type  ::= tatom ('->' type)?
//! tatom ::= '(' type? ')' | '_' | '/\' name '=>' type | name
//! ```
//!
//! Application associates to the left and the arrow to the right; the body
//! of an abstraction or a quantifier reaches as far as it can.

use vstd::prelude::*;

use crate::atoms::Position;
use crate::input::{SurfaceTerm, SurfaceTermNode, SurfaceType, SurfaceTypeNode};
use crate::parser::error::ParseError;
use crate::parser::tokens::{ArrowKind, Lexeme, ParenKind, Symbol};

verus! {

/// A node together with the number of tokens it takes beyond its first, or
/// the error that stopped the reading.
pub type Parsed<T> = Result<(T, nat), ParseError>;

/// The number of tokens from `pos` on.
pub open spec fn remaining(tokens: Seq<Lexeme>, pos: int) -> nat {
    if 0 <= pos < tokens.len() {
        (tokens.len() - pos) as nat
    } else {
        0
    }
}

/// The symbol at `pos`, where a token stands there.
pub open spec fn symbol(tokens: Seq<Lexeme>, pos: int) -> Option<Symbol> {
    if 0 <= pos < tokens.len() {
        Some(tokens[pos].symbol)
    } else {
        None
    }
}

/// The error for what stands at `pos` where something else was needed: the
/// token there, or the end of the text at `end`.
pub open spec fn unexpected(tokens: Seq<Lexeme>, pos: int, end: Position) -> ParseError {
    if 0 <= pos < tokens.len() {
        ParseError::Unexpected(tokens[pos].range)
    } else {
        ParseError::UnexpectedEnd(end)
    }
}

/// Whether a symbol can begin an atom of a term.
pub open spec fn starts_atom(symbol: Symbol) -> bool {
    symbol == Symbol::OpenParen(ParenKind::Round) || symbol == Symbol::Lambda || symbol
        == Symbol::TypeLambda || symbol is Ident
}

/// An atom of a type from `pos` on.
pub open spec fn type_atom(tokens: Seq<Lexeme>, pos: int, end: Position) -> Parsed<SurfaceType>
    decreases remaining(tokens, pos), 0nat,
{
    if pos < 0 || pos >= tokens.len() {
        Err(ParseError::UnexpectedEnd(end))
    } else {
        match tokens[pos].symbol {
            Symbol::OpenParen(ParenKind::Round) => {
                if symbol(tokens, pos + 1) == Some(Symbol::CloseParen(ParenKind::Round)) {
                    Ok(
                        (
                            SurfaceType {
                                node: SurfaceTypeNode::Unit,
                                range: tokens[pos].range.joined(tokens[pos + 1].range),
                            },
                            1,
                        ),
                    )
                } else {
                    match whole_type(tokens, pos + 1, end) {
                        Err(error) => Err(error),
                        Ok((inner, used)) => {
                            let close = pos + 2 + used;
                            if symbol(tokens, close) == Some(Symbol::CloseParen(ParenKind::Round)) {
                                Ok(
                                    (
                                        SurfaceType {
                                            node: inner.node,
                                            range: tokens[pos].range.joined(tokens[close].range),
                                        },
                                        used + 2,
                                    ),
                                )
                            } else {
                                Err(unexpected(tokens, close, end))
                            }
                        },
                    }
                }
            },
            Symbol::Ident(name) => Ok(
                (
                    SurfaceType {
                        node: if name == "_"@ {
                            SurfaceTypeNode::Hole
                        } else {
                            SurfaceTypeNode::Var(name)
                        },
                        range: tokens[pos].range,
                    },
                    0,
                ),
            ),
            Symbol::TypeLambda => match symbol(tokens, pos + 1) {
                Some(Symbol::Ident(param)) => if symbol(tokens, pos + 2) == Some(
                    Symbol::Arrow(ArrowKind::Fat),
                ) {
                    match whole_type(tokens, pos + 3, end) {
                        Err(error) => Err(error),
                        Ok((body, used)) => Ok(
                            (
                                SurfaceType {
                                    node: SurfaceTypeNode::Forall(param, Box::new(body)),
                                    range: tokens[pos].range.joined(body.range),
                                },
                                used + 3,
                            ),
                        ),
                    }
                } else {
                    Err(unexpected(tokens, pos + 2, end))
                },
                _ => Err(unexpected(tokens, pos + 1, end)),
            },
            _ => Err(ParseError::Unexpected(tokens[pos].range)),
        }
    }
}

/// A type from `pos` on: an atom, and behind an arrow the type that the
/// arrow leads to.
pub open spec fn whole_type(tokens: Seq<Lexeme>, pos: int, end: Position) -> Parsed<SurfaceType>
    decreases remaining(tokens, pos), 1nat,
{
    if pos < 0 || pos >= tokens.len() {
        Err(ParseError::UnexpectedEnd(end))
    } else {
        match type_atom(tokens, pos, end) {
            Err(error) => Err(error),
            Ok((from, used)) => {
                let arrow = pos + 1 + used;
                if symbol(tokens, arrow) == Some(Symbol::Arrow(ArrowKind::Thin)) {
                    match whole_type(tokens, arrow + 1, end) {
                        Err(error) => Err(error),
                        Ok((to, more)) => Ok(
                            (
                                SurfaceType {
                                    node: SurfaceTypeNode::Arrow(Box::new(from), Box::new(to)),
                                    range: from.range.joined(to.range),
                                },
                                used + 2 + more,
                            ),
                        ),
                    }
                } else {
                    Ok((from, used))
                }
            },
        }
    }
}

/// An atom of a term from `pos` on.
pub open spec fn term_atom(tokens: Seq<Lexeme>, pos: int, end: Position) -> Parsed<SurfaceTerm>
    decreases remaining(tokens, pos), 0nat,
{
    if pos < 0 || pos >= tokens.len() {
        Err(ParseError::UnexpectedEnd(end))
    } else {
        match tokens[pos].symbol {
            Symbol::OpenParen(ParenKind::Round) => {
                if symbol(tokens, pos + 1) == Some(Symbol::CloseParen(ParenKind::Round)) {
                    Ok(
                        (
                            SurfaceTerm {
                                node: SurfaceTermNode::Unit,
                                range: tokens[pos].range.joined(tokens[pos + 1].range),
                            },
                            1,
                        ),
                    )
                } else {
                    match whole_term(tokens, pos + 1, end) {
                        Err(error) => Err(error),
                        Ok((inner, used)) => {
                            let close = pos + 2 + used;
                            if symbol(tokens, close) == Some(Symbol::CloseParen(ParenKind::Round)) {
                                Ok(
                                    (
                                        SurfaceTerm {
                                            node: inner.node,
                                            range: tokens[pos].range.joined(tokens[close].range),
                                        },
                                        used + 2,
                                    ),
                                )
                            } else {
                                Err(unexpected(tokens, close, end))
                            }
                        },
                    }
                }
            },
            Symbol::Lambda => match symbol(tokens, pos + 1) {
                Some(Symbol::Ident(param)) => if symbol(tokens, pos + 2) == Some(Symbol::Colon) {
                    match whole_type(tokens, pos + 3, end) {
                        Err(error) => Err(error),
                        Ok((ty, used)) => {
                            let dot = pos + 4 + used;
                            if symbol(tokens, dot) == Some(Symbol::Dot) {
                                match whole_term(tokens, dot + 1, end) {
                                    Err(error) => Err(error),
                                    Ok((body, more)) => Ok(
                                        (
                                            SurfaceTerm {
                                                node: SurfaceTermNode::Abs(
                                                    param,
                                                    ty,
                                                    Box::new(body),
                                                ),
                                                range: tokens[pos].range.joined(body.range),
                                            },
                                            used + 5 + more,
                                        ),
                                    ),
                                }
                            } else {
                                Err(unexpected(tokens, dot, end))
                            }
                        },
                    }
                } else {
                    Err(unexpected(tokens, pos + 2, end))
                },
                _ => Err(unexpected(tokens, pos + 1, end)),
            },
            Symbol::TypeLambda => match symbol(tokens, pos + 1) {
                Some(Symbol::Ident(param)) => if symbol(tokens, pos + 2) == Some(Symbol::Dot) {
                    match whole_term(tokens, pos + 3, end) {
                        Err(error) => Err(error),
                        Ok((body, used)) => Ok(
                            (
                                SurfaceTerm {
                                    node: SurfaceTermNode::TyAbs(param, Box::new(body)),
                                    range: tokens[pos].range.joined(body.range),
                                },
                                used + 3,
                            ),
                        ),
                    }
                } else {
                    Err(unexpected(tokens, pos + 2, end))
                },
                _ => Err(unexpected(tokens, pos + 1, end)),
            },
            Symbol::Ident(name) => Ok(
                (SurfaceTerm { node: SurfaceTermNode::Var(name), range: tokens[pos].range }, 0),
            ),
            _ => Err(ParseError::Unexpected(tokens[pos].range)),
        }
    }
}

/// The applications of `head`, which took `used` tokens beyond its first,
/// to the arguments that stand from `pos` on: atoms, and types in square
/// brackets. Each application takes what was read so far as its left side.
pub open spec fn applications(
    tokens: Seq<Lexeme>,
    pos: int,
    end: Position,
    head: SurfaceTerm,
    used: nat,
) -> Parsed<SurfaceTerm>
    decreases remaining(tokens, pos), 1nat,
{
    match symbol(tokens, pos) {
        Some(Symbol::OpenParen(ParenKind::Square)) => match whole_type(tokens, pos + 1, end) {
            Err(error) => Err(error),
            Ok((ty, more)) => {
                let close = pos + 2 + more;
                if symbol(tokens, close) == Some(Symbol::CloseParen(ParenKind::Square)) {
                    applications(
                        tokens,
                        close + 1,
                        end,
                        SurfaceTerm {
                            node: SurfaceTermNode::TyApp(Box::new(head), ty),
                            range: head.range.joined(tokens[close].range),
                        },
                        used + 3 + more,
                    )
                } else {
                    Err(unexpected(tokens, close, end))
                }
            },
        },
        Some(first) => if starts_atom(first) {
            match term_atom(tokens, pos, end) {
                Err(error) => Err(error),
                Ok((arg, more)) => applications(
                    tokens,
                    pos + 1 + more,
                    end,
                    SurfaceTerm {
                        node: SurfaceTermNode::App(Box::new(head), Box::new(arg)),
                        range: head.range.joined(arg.range),
                    },
                    used + 1 + more,
                ),
            }
        } else {
            Ok((head, used))
        },
        None => Ok((head, used)),
    }
}

/// A term from `pos` on: an atom applied to the arguments that follow it.
pub open spec fn whole_term(tokens: Seq<Lexeme>, pos: int, end: Position) -> Parsed<SurfaceTerm>
    decreases remaining(tokens, pos), 2nat,
{
    if pos < 0 || pos >= tokens.len() {
        Err(ParseError::UnexpectedEnd(end))
    } else {
        match term_atom(tokens, pos, end) {
            Err(error) => Err(error),
            Ok((head, used)) => applications(tokens, pos + 1 + used, end, head, used),
        }
    }
}

/// The term that a whole line of tokens stands for: one term that takes
/// every token. `end` is the place where the text ends.
pub open spec fn parsed(tokens: Seq<Lexeme>, end: Position) -> Result<SurfaceTerm, ParseError> {
    match whole_term(tokens, 0, end) {
        Err(error) => Err(error),
        Ok((term, used)) => if used + 1 == tokens.len() {
            Ok(term)
        } else {
            Err(unexpected(tokens, used as int + 1, end))
        },
    }
}

} // verus!
