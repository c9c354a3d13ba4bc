use std::ops::{Add, Sub};
use vstd::prelude::*;
use vstd::std_specs::convert::FromSpecImpl;
use vstd::std_specs::ops::{AddSpecImpl, SubSpecImpl};

use crate::text::{chars_of, decimal, digits};

verus! {

/// A place in the source text: line and column, both counted from zero.
#[derive(Clone, Copy, Debug, PartialEq, Eq, Structural)]
pub struct Position {
    pub line: usize,
    pub column: usize,
}

/// The extent of a piece of source text: how many line breaks it holds and
/// how many characters follow the last of them.
#[derive(Clone, Copy, Debug, PartialEq, Eq, Structural)]
pub struct Delta {
    pub lines: usize,
    pub columns: usize,
}

/// A stretch of source text: where it starts and how far it reaches.
#[derive(Clone, Copy, Debug, PartialEq, Eq, Structural)]
pub struct Range {
    pub from: Position,
    pub until: Delta,
}

/// The number of line breaks in `text`.
pub open spec fn line_breaks(text: Seq<char>) -> nat
    decreases text.len(),
{
    if text.len() == 0 {
        0
    } else {
        line_breaks(text.drop_last()) + if text.last() == '\n' { 1nat } else { 0nat }
    }
}

/// The number of characters of `text` after its last line break.
pub open spec fn last_line_len(text: Seq<char>) -> nat
    decreases text.len(),
{
    if text.len() == 0 || text.last() == '\n' {
        0
    } else {
        last_line_len(text.drop_last()) + 1
    }
}

/// A sum of two of the machine's numbers, held at the largest of them
/// where it would pass it.
pub open spec fn capped(left: usize, right: usize) -> usize {
    if left + right > usize::MAX {
        usize::MAX
    } else {
        (left + right) as usize
    }
}

/// The place reached from `from` by reading on over an extent: a line
/// break moves to the start of a later line, anything else moves along the
/// line.
pub open spec fn advanced(from: Position, by: Delta) -> Position {
    if by.lines > 0 {
        Position { line: capped(from.line, by.lines), column: by.columns }
    } else {
        Position { line: from.line, column: capped(from.column, by.columns) }
    }
}

/// The extent that leads from `start` to `end`, where `end` lies at or
/// after `start`; an extent of no lines otherwise.
pub open spec fn between(start: Position, end: Position) -> Delta {
    if end.line > start.line {
        Delta { lines: (end.line - start.line) as usize, columns: end.column }
    } else if end.column >= start.column {
        Delta { lines: 0, columns: (end.column - start.column) as usize }
    } else {
        Delta { lines: 0, columns: 0 }
    }
}

impl Default for Position {
    fn default() -> (p: Self)
        ensures
            p == (Position { line: 0, column: 0 }),
    {
        Position { line: 0, column: 0 }
    }
}

impl Default for Delta {
    fn default() -> (d: Self)
        ensures
            d == (Delta { lines: 0, columns: 0 }),
    {
        Delta { lines: 0, columns: 0 }
    }
}

impl Default for Range {
    fn default() -> (r: Self)
        ensures
            r.from == (Position { line: 0, column: 0 }),
            r.until == (Delta { lines: 0, columns: 0 }),
    {
        Range { from: Position { line: 0, column: 0 }, until: Delta { lines: 0, columns: 0 } }
    }
}

impl Delta {
    /// The extent of a piece of text.
    pub fn of(text: &[char]) -> (d: Self)
        ensures
            d.lines == line_breaks(text@),
            d.columns == last_line_len(text@),
    {
        let mut lines: usize = 0;
        let mut columns: usize = 0;
        let mut i: usize = 0;
        assert(text@.take(0) =~= Seq::<char>::empty());
        while i < text.len()
            invariant
                i <= text.len(),
                lines == line_breaks(text@.take(i as int)),
                columns == last_line_len(text@.take(i as int)),
                lines + columns <= i,
            decreases text.len() - i,
        {
            assert(text@.take(i + 1).drop_last() =~= text@.take(i as int));
            if text[i] == '\n' {
                lines = lines + 1;
                columns = 0;
            } else {
                columns = columns + 1;
            }
            i = i + 1;
        }
        assert(text@.take(i as int) =~= text@);
        Delta { lines, columns }
    }

    /// Whether the extent holds any text at all.
    pub fn nonzero(self) -> (b: bool)
        ensures
            b == (self.lines > 0 || self.columns > 0),
    {
        self.lines > 0 || self.columns > 0
    }
}

impl Position {
    /// Whether `self` lies at or after `start`: on a later line, or on the
    /// same line at the same or a later column.
    pub open spec fn follows(self, start: Position) -> bool {
        self.line > start.line || (self.line == start.line && self.column >= start.column)
    }

    /// The place reached by reading on over `by`.
    pub fn advance(self, by: Delta) -> (p: Position)
        ensures
            p == advanced(self, by),
    {
        if by.lines > 0 {
            Position { line: self.line.saturating_add(by.lines), column: by.columns }
        } else {
            Position { line: self.line, column: self.column.saturating_add(by.columns) }
        }
    }

    /// The extent that leads from `start` to here.
    pub fn since(self, start: Position) -> (d: Delta)
        ensures
            d == between(start, self),
            self.follows(start) ==> advanced(start, d) == self,
    {
        if self.line > start.line {
            Delta { lines: self.line - start.line, columns: self.column }
        } else if self.column >= start.column {
            Delta { lines: 0, columns: self.column - start.column }
        } else {
            Delta { lines: 0, columns: 0 }
        }
    }

    /// The place as `line:column`.
    pub fn to_string(&self) -> (text: String)
        ensures
            text@ == digits(self.line as nat) + seq![':'] + digits(self.column as nat),
    {
        let mut text = decimal(self.line);
        text.push(':');
        let column = decimal(self.column);
        text.append(column.as_str());
        text
    }
}

impl Range {
    /// The range of no extent that starts at `from`.
    pub fn at(from: Position) -> (r: Range)
        ensures
            r.from == from,
            r.until == (Delta { lines: 0, columns: 0 }),
    {
        Range { from, until: Delta { lines: 0, columns: 0 } }
    }

    /// The place where the range ends.
    pub open spec fn end(self) -> Position {
        advanced(self.from, self.until)
    }

    /// The range from the start of `self` to the end of `rhs`.
    pub open spec fn joined(self, rhs: Range) -> Range {
        Range { from: self.from, until: between(self.from, rhs.end()) }
    }

    /// The place where the range ends.
    pub fn to(self) -> (p: Position)
        ensures
            p == self.end(),
    {
        self.from.advance(self.until)
    }

    /// Ranges compose by concatenation: the start of the left one and the
    /// end of the right one.
    pub fn join(self, rhs: Range) -> (r: Range)
        ensures
            r == self.joined(rhs),
            r.from == self.from,
            rhs.end().follows(self.from) ==> r.end() == rhs.end(),
    {
        let end = rhs.to();
        Range { from: self.from, until: end.since(self.from) }
    }

    /// The range as `start-end`, each place as `line:column`.
    pub fn to_string(&self) -> (text: String)
        ensures
            text@ == digits(self.from.line as nat) + seq![':'] + digits(self.from.column as nat)
                + seq!['-'] + digits(self.end().line as nat) + seq![':'] + digits(
                self.end().column as nat,
            ),
    {
        let mut text = self.from.to_string();
        text.push('-');
        let end = self.to().to_string();
        text.append(end.as_str());
        assert(text@ =~= digits(self.from.line as nat) + seq![':'] + digits(
            self.from.column as nat,
        ) + seq!['-'] + digits(self.end().line as nat) + seq![':'] + digits(
            self.end().column as nat,
        ));
        text
    }
}

impl Add<Delta> for Position {
    type Output = Position;

    fn add(self, by: Delta) -> (p: Position) {
        self.advance(by)
    }
}

impl AddSpecImpl<Delta> for Position {
    open spec fn obeys_add_spec() -> bool {
        true
    }

    open spec fn add_req(self, by: Delta) -> bool {
        true
    }

    open spec fn add_spec(self, by: Delta) -> Position {
        advanced(self, by)
    }
}

impl Sub<Position> for Position {
    type Output = Delta;

    fn sub(self, start: Position) -> (d: Delta) {
        self.since(start)
    }
}

impl SubSpecImpl<Position> for Position {
    open spec fn obeys_sub_spec() -> bool {
        true
    }

    open spec fn sub_req(self, start: Position) -> bool {
        true
    }

    open spec fn sub_spec(self, start: Position) -> Delta {
        between(start, self)
    }
}

impl Add<Range> for Range {
    type Output = Range;

    fn add(self, rhs: Range) -> (r: Range) {
        self.join(rhs)
    }
}

impl AddSpecImpl<Range> for Range {
    open spec fn obeys_add_spec() -> bool {
        true
    }

    open spec fn add_req(self, rhs: Range) -> bool {
        true
    }

    open spec fn add_spec(self, rhs: Range) -> Range {
        self.joined(rhs)
    }
}

impl From<Position> for Range {
    fn from(from: Position) -> (r: Range) {
        Range::at(from)
    }
}

impl FromSpecImpl<Position> for Range {
    open spec fn obeys_from_spec() -> bool {
        true
    }

    open spec fn from_spec(from: Position) -> Range {
        Range { from, until: Delta { lines: 0, columns: 0 } }
    }
}

impl<'a> From<&'a str> for Delta {
    fn from(text: &'a str) -> (d: Delta) {
        let chars = chars_of(text);
        Delta::of(chars.as_slice())
    }
}

impl<'a> FromSpecImpl<&'a str> for Delta {
    open spec fn obeys_from_spec() -> bool {
        true
    }

    open spec fn from_spec(text: &'a str) -> Delta {
        Delta { lines: line_breaks(text@) as usize, columns: last_line_len(text@) as usize }
    }
}

} // verus!
