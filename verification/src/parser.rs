//! The cursor over the input, the three-way result of a parser, and the
//! error kinds of each syntactic context.

use crate::region::Region;
use crate::region::pos_le;
use vstd::prelude::*;

verus! {

broadcast use vstd::slice::group_slice_axioms;

pub type Row = usize;

pub type Col = usize;

/// Whether a parser consumed input before it stopped. A failure without
/// progress lets an alternation try its next branch; a failure with progress
/// ends the parse.
#[derive(Clone, Copy, Debug, PartialEq, Eq, Structural)]
pub enum Progress {
    MadeProgress,
    NoProgress,
}

/// The cursor: the whole input, how far it has been read, and the line,
/// column and indentation at that point.
#[derive(Clone, Copy, Debug, PartialEq, Eq)]
pub struct State<'a> {
    pub bytes: &'a [u8],
    /// Index of the next byte to read.
    pub offset: usize,
    pub line: Row,
    pub column: Col,
    /// Column of the first token on the current line, as far as a space
    /// parser has seen it.
    pub indent_col: Col,
}

impl<'a> State<'a> {
    /// The cursor lies within the input, and neither the line nor the
    /// column can run over before the input ends: each has room for every
    /// byte that is still to be read.
    pub open spec fn wf(self) -> bool {
        &&& self.offset <= self.bytes@.len() <= usize::MAX
        &&& self.line + (self.bytes@.len() - self.offset) <= usize::MAX
        &&& self.column + (self.bytes@.len() - self.offset) <= usize::MAX
    }

    /// The input that is still to be read.
    pub open spec fn remaining(self) -> Seq<u8> {
        self.bytes@.skip(self.offset as int)
    }

    /// The byte under the cursor, if the input has not ended.
    pub open spec fn next_byte(self) -> Option<u8> {
        if self.offset < self.bytes@.len() {
            Some(self.bytes@[self.offset as int])
        } else {
            None
        }
    }

    /// The cursor after `n` more bytes of the current line.
    pub open spec fn advanced(self, n: int) -> State<'a> {
        State {
            bytes: self.bytes,
            offset: (self.offset + n) as usize,
            line: self.line,
            column: (self.column + n) as usize,
            indent_col: self.indent_col,
        }
    }

    /// The cursor at `offset`, on line `line` and in column `column`.
    pub open spec fn moved_to(self, offset: int, line: int, column: int) -> State<'a> {
        State {
            bytes: self.bytes,
            offset: offset as usize,
            line: line as usize,
            column: column as usize,
            indent_col: self.indent_col,
        }
    }

    /// `later` reads the same input and stands at or behind this cursor, in
    /// bytes and in line and column.
    pub open spec fn reaches(self, later: State<'a>) -> bool {
        &&& later.bytes == self.bytes
        &&& self.offset <= later.offset
        &&& pos_le(self.line as int, self.column as int, later.line as int, later.column as int)
    }

    /// `later` is a well-formed cursor over the same input that stands
    /// strictly behind this one.
    pub open spec fn moves_on_to(self, later: State<'a>) -> bool {
        &&& later.wf()
        &&& self.reaches(later)
        &&& self.offset < later.offset
    }

    /// The region between this cursor and `end`.
    pub open spec fn region_to(self, end: State<'a>) -> Region {
        Region {
            start_line: self.line,
            end_line: end.line,
            start_col: self.column,
            end_col: end.column,
        }
    }

    /// A cursor at the beginning of `bytes`.
    pub fn new(bytes: &'a [u8]) -> (s: State<'a>)
        ensures
            s.wf(),
            s == (State { bytes, offset: 0, line: 0, column: 0, indent_col: 0 }),
    {
        assert(bytes.len() == bytes@.len());
        State { bytes, offset: 0, line: 0, column: 0, indent_col: 0 }
    }

    /// A cursor into `bytes` at `offset`, which lies on line `line` in
    /// column `column`: for a fragment whose place in its source is known.
    /// There is none where `offset` lies behind the input, or where the line
    /// or the column could run over before the input ends.
    pub fn at(bytes: &'a [u8], offset: usize, line: Row, column: Col) -> (r: Option<State<'a>>)
        ensures
            r is Some <==> (State { bytes, offset, line, column, indent_col: 0 }).wf(),
            r matches Some(s) ==> s == (State { bytes, offset, line, column, indent_col: 0 }),
    {
        let len: usize = bytes.len();
        if offset <= len && line <= usize::MAX - (len - offset) && column <= usize::MAX - (len
            - offset) {
            Some(State { bytes, offset, line, column, indent_col: 0 })
        } else {
            None
        }
    }

    /// The byte under the cursor, if the input has not ended.
    pub fn peek(&self) -> (b: Option<u8>)
        requires
            self.wf(),
        ensures
            b == self.next_byte(),
    {
        if self.offset < self.bytes.len() {
            Some(self.bytes[self.offset])
        } else {
            None
        }
    }

    /// Moves the cursor over `n` bytes that hold no line feed.
    pub fn advance(&self, n: usize) -> (s: State<'a>)
        requires
            self.wf(),
            self.offset + n <= self.bytes@.len(),
        ensures
            s == self.advanced(n as int),
            s.wf(),
            self.reaches(s),
    {
        State {
            bytes: self.bytes,
            offset: self.offset + n,
            line: self.line,
            column: self.column + n,
            indent_col: self.indent_col,
        }
    }

    /// The region from this cursor to `end`.
    pub fn region_until(&self, end: &State<'a>) -> (r: Region)
        ensures
            r == self.region_to(*end),
    {
        Region {
            start_line: self.line,
            end_line: end.line,
            start_col: self.column,
            end_col: end.column,
        }
    }
}

/// What a parser hands back: on success the progress made, the value and the
/// cursor behind it; on failure the progress made, the error and the cursor
/// where it failed (the cursor as it was, where no progress was made).
pub type ParseResult<'a, Output, Error> = Result<
    (Progress, Output, State<'a>),
    (Progress, Error, State<'a>),
>;

/// Input that no space parser accepts.
#[derive(Clone, Copy, Debug, PartialEq, Eq, Structural)]
pub enum BadInputError {
    HasTab,
    BadUtf8,
}

/// Why a string literal could not be read.
#[derive(Clone, Copy, Debug, PartialEq, Eq, Structural)]
pub enum EString {
    /// No string literal starts here.
    Open(Row, Col),
    /// The line or the input ended before the closing quote.
    EndlessSingle(Row, Col),
    /// The text between the quotes is not UTF-8.
    BadUtf8(Row, Col),
}

/// Why an expression could not be read.
#[derive(Clone, Copy, Debug, PartialEq, Eq, Structural)]
pub enum EExpr {
    /// No expression starts here.
    Start(Row, Col),
    Str(EString, Row, Col),
}

/// The error of the outermost boundary.
#[derive(Clone, Copy, Debug, PartialEq, Eq)]
pub enum SyntaxError<'a> {
    Pattern(EPattern<'a>),
    Expr(EExpr),
}

/// Why a pattern could not be read.
#[derive(Clone, Copy, Debug, PartialEq, Eq)]
pub enum EPattern<'a> {
    Record(PRecord<'a>, Row, Col),
    Underscore(Row, Col),
    /// A pattern was expected to start here.
    Start(Row, Col),
    /// A pattern was expected to end here.
    End(Row, Col),
    Space(BadInputError, Row, Col),
    PInParens(PInParens<'a>, Row, Col),
    IndentStart(Row, Col),
}

/// Why a record pattern could not be read.
#[derive(Clone, Copy, Debug, PartialEq, Eq)]
pub enum PRecord<'a> {
    End(Row, Col),
    Open(Row, Col),
    /// No field label where one must be; the position is where the field
    /// begins.
    Field(Row, Col),
    Colon(Row, Col),
    Optional(Row, Col),
    /// The value of a field could not be read.
    Syntax(&'a SyntaxError<'a>, Row, Col),
    Space(BadInputError, Row, Col),
    IndentColon(Row, Col),
    IndentEnd(Row, Col),
}

/// Why a parenthesized pattern could not be read.
#[derive(Clone, Copy, Debug, PartialEq, Eq)]
pub enum PInParens<'a> {
    End(Row, Col),
    Open(Row, Col),
    /// The pattern between the parentheses could not be read.
    Syntax(&'a SyntaxError<'a>, Row, Col),
    Space(BadInputError, Row, Col),
    IndentEnd(Row, Col),
}

/// The cursor behind the byte `word`, if that is the byte under the cursor.
pub open spec fn word1_spec<'a>(state: State<'a>, word: u8) -> Option<State<'a>> {
    if state.next_byte() == Some(word) {
        Some(state.advanced(1))
    } else {
        None
    }
}

/// Consumes the byte `word`, or nothing where another byte or the end of the
/// input is under the cursor.
pub fn word1<'a>(state: State<'a>, word: u8) -> (r: Option<State<'a>>)
    requires
        state.wf(),
        word != crate::text::LINE_FEED,
    ensures
        r == word1_spec(state, word),
        r matches Some(s) ==> s.wf() && state.reaches(s) && s.offset == state.offset + 1,
{
    match state.peek() {
        Some(b) => {
            if b == word {
                Some(state.advance(1))
            } else {
                None
            }
        },
        None => None,
    }
}

} // verus!
