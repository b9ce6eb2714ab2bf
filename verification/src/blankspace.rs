//! Spaces, line breaks and comments between tokens.

use crate::arena::{trivia_in, trivia_into_bump_slice, trivia_new_in, trivia_push};
use crate::ast::{trivia_view, CommentOrNewline, TriviaModel};
use crate::parser::{BadInputError, Col, ParseResult, Progress, Row, State};
use crate::text::{
    chomp, lemma_run_end, run_end, utf8_text, ByteClass, CARRIAGE_RETURN, HASH, LINE_FEED, SPACE,
    TAB,
};
use bumpalo::Bump;
use vstd::prelude::*;
use vstd::utf8::valid_utf8;

verus! {

/// Why a stretch of blank space could not be read.
#[derive(Clone, Copy, Debug, PartialEq, Eq, Structural)]
pub enum SpaceProblem {
    /// A tab, or a comment that is not UTF-8, at the given position.
    BadInput(BadInputError, Row, Col),
    /// A line break led to a column left of the indentation asked for; the
    /// position is where the blank space began.
    Indent(Row, Col),
}

/// Where a scan of blank space stopped, and what it passed over.
pub enum SpaceScan {
    /// The scan stopped before a byte that is no blank space, or at the end
    /// of the input.
    Good { offset: int, line: int, column: int, trivia: Seq<TriviaModel> },
    HasTab { line: int, column: int },
    BadUtf8 { line: int, column: int },
}

/// Scans blank space from `offset` on, which lies on line `line` in column
/// `column`, behind the trivia already collected in `trivia`: a space moves
/// one column on, a line feed begins a new line, a carriage return is passed
/// over, and `#` begins a comment that runs to the end of its line. A tab
/// stops the scan, and so does a comment that is not UTF-8.
pub open spec fn eat_spaces(
    bytes: Seq<u8>,
    offset: int,
    line: int,
    column: int,
    trivia: Seq<TriviaModel>,
) -> SpaceScan
    decreases bytes.len() - offset,
{
    if offset < 0 || offset >= bytes.len() {
        SpaceScan::Good { offset, line, column, trivia }
    } else if bytes[offset] == SPACE {
        eat_spaces(bytes, offset + 1, line, column + 1, trivia)
    } else if bytes[offset] == LINE_FEED {
        eat_spaces(bytes, offset + 1, line + 1, 0, trivia.push(TriviaModel::Newline))
    } else if bytes[offset] == CARRIAGE_RETURN {
        eat_spaces(bytes, offset + 1, line, column, trivia)
    } else if bytes[offset] == TAB {
        SpaceScan::HasTab { line, column }
    } else if bytes[offset] == HASH {
        let end = run_end(bytes, offset + 1, ByteClass::NotNewline);
        let text = bytes.subrange(offset + 1, end);
        if !valid_utf8(text) {
            SpaceScan::BadUtf8 { line, column }
        } else if end < bytes.len() {
            proof {
                lemma_run_end(bytes, offset + 1, ByteClass::NotNewline);
            }
            eat_spaces(bytes, end + 1, line + 1, 0, trivia.push(TriviaModel::LineComment(text)))
        } else {
            SpaceScan::Good {
                offset: end,
                line,
                column: column + (end - offset),
                trivia: trivia.push(TriviaModel::LineComment(text)),
            }
        }
    } else {
        SpaceScan::Good { offset, line, column, trivia }
    }
}

/// What reading optional blank space at `state` yields. Nothing to pass over
/// is a success without progress. Blank space that ends on the line where it
/// began moves the cursor on. Blank space that crosses a line break must
/// end in a column of at least `min_indent`, which becomes the indentation
/// of the new line; further left it is an indentation problem. A tab or a
/// malformed comment is a problem at the place where it stands. Every
/// failure has made progress and leaves the cursor where it was.
pub open spec fn space0_spec<'a>(state: State<'a>, min_indent: u16) -> ParseResult<
    'a,
    Seq<TriviaModel>,
    SpaceProblem,
> {
    match eat_spaces(
        state.bytes@,
        state.offset as int,
        state.line as int,
        state.column as int,
        Seq::empty(),
    ) {
        SpaceScan::HasTab { line, column } => Err(
            (
                Progress::MadeProgress,
                SpaceProblem::BadInput(BadInputError::HasTab, line as usize, column as usize),
                state,
            ),
        ),
        SpaceScan::BadUtf8 { line, column } => Err(
            (
                Progress::MadeProgress,
                SpaceProblem::BadInput(BadInputError::BadUtf8, line as usize, column as usize),
                state,
            ),
        ),
        SpaceScan::Good { offset, line, column, trivia } => {
            if offset == state.offset {
                Ok((Progress::NoProgress, Seq::empty(), state))
            } else if line != state.line {
                if column >= min_indent {
                    Ok(
                        (
                            Progress::MadeProgress,
                            trivia,
                            State {
                                bytes: state.bytes,
                                offset: offset as usize,
                                line: line as usize,
                                column: column as usize,
                                indent_col: column as usize,
                            },
                        ),
                    )
                } else {
                    Err(
                        (
                            Progress::MadeProgress,
                            SpaceProblem::Indent(state.line, state.column),
                            state,
                        ),
                    )
                }
            } else {
                Ok((Progress::MadeProgress, trivia, state.moved_to(offset, line, column)))
            }
        },
    }
}

/// The outcome `r` of a space parser is the outcome `m` of the grammar:
/// same progress, same cursor, and trivia that stand for those of `m`.
pub open spec fn space_result_matches<'a>(
    r: ParseResult<'a, &'a [CommentOrNewline<'a>], SpaceProblem>,
    m: ParseResult<'a, Seq<TriviaModel>, SpaceProblem>,
) -> bool {
    match (r, m) {
        (Ok((p, spaces, s)), Ok((mp, trivia, ms))) => p == mp && s == ms && trivia_view(spaces@)
            == trivia,
        (Err(e), Err(me)) => e == me,
        _ => false,
    }
}

/// A successful read of blank space moves the cursor forward within the
/// input, and every outcome is one of the few that the grammar allows.
pub proof fn lemma_space0_advances<'a>(state: State<'a>, min_indent: u16)
    requires
        state.wf(),
    ensures
        space0_spec(state, min_indent) matches Ok((p, trivia, s)) ==> {
            &&& s.wf()
            &&& state.reaches(s)
            &&& (p == Progress::NoProgress <==> s == state)
            &&& (p == Progress::NoProgress ==> trivia.len() == 0)
            &&& (p == Progress::MadeProgress ==> s.offset > state.offset)
        },
        space0_spec(state, min_indent) matches Err((p, _, s)) ==> p == Progress::MadeProgress && s
            == state,
{
    lemma_eat_spaces_advances(
        state.bytes@,
        state.offset as int,
        state.line as int,
        state.column as int,
        Seq::empty(),
        usize::MAX as int,
    );
}

/// A scan ends at or behind the place where it began, within the input. A
/// line and a column that had room below `limit` for every byte left to
/// read still have it wherever the scan stops.
pub proof fn lemma_eat_spaces_advances(
    bytes: Seq<u8>,
    offset: int,
    line: int,
    column: int,
    trivia: Seq<TriviaModel>,
    limit: int,
)
    requires
        0 <= offset <= bytes.len() <= limit,
        0 <= line,
        0 <= column,
        line + (bytes.len() - offset) <= limit,
        column + (bytes.len() - offset) <= limit,
    ensures
        eat_spaces(bytes, offset, line, column, trivia) matches SpaceScan::Good {
            offset: o,
            line: l,
            column: c,
            trivia: _,
        } ==> {
            &&& offset <= o <= bytes.len()
            &&& 0 <= l
            &&& 0 <= c
            &&& l + (bytes.len() - o) <= limit
            &&& c + (bytes.len() - o) <= limit
            &&& l > line || (l == line && c >= column)
        },
        eat_spaces(bytes, offset, line, column, trivia) matches SpaceScan::HasTab {
            line: l,
            column: c,
        } ==> 0 <= l <= limit && 0 <= c <= limit,
        eat_spaces(bytes, offset, line, column, trivia) matches SpaceScan::BadUtf8 {
            line: l,
            column: c,
        } ==> 0 <= l <= limit && 0 <= c <= limit,
    decreases bytes.len() - offset,
{
    if offset >= bytes.len() {
    } else if bytes[offset] == SPACE {
        lemma_eat_spaces_advances(bytes, offset + 1, line, column + 1, trivia, limit);
    } else if bytes[offset] == LINE_FEED {
        lemma_eat_spaces_advances(
            bytes,
            offset + 1,
            line + 1,
            0,
            trivia.push(TriviaModel::Newline),
            limit,
        );
    } else if bytes[offset] == CARRIAGE_RETURN {
        lemma_eat_spaces_advances(bytes, offset + 1, line, column, trivia, limit);
    } else if bytes[offset] == HASH {
        let end = run_end(bytes, offset + 1, ByteClass::NotNewline);
        lemma_run_end(bytes, offset + 1, ByteClass::NotNewline);
        let text = bytes.subrange(offset + 1, end);
        if valid_utf8(text) && end < bytes.len() {
            lemma_eat_spaces_advances(
                bytes,
                end + 1,
                line + 1,
                0,
                trivia.push(TriviaModel::LineComment(text)),
                limit,
            );
        }
    }
}

/// Reads optional blank space.
pub fn space0_e<'a>(arena: &'a Bump, state: State<'a>, min_indent: u16) -> (r: ParseResult<
    'a,
    &'a [CommentOrNewline<'a>],
    SpaceProblem,
>)
    requires
        state.wf(),
    ensures
        space_result_matches(r, space0_spec(state, min_indent)),
        r matches Ok((_, _, s)) ==> s.wf() && state.reaches(s),
{
    let bytes = state.bytes;
    let mut offset: usize = state.offset;
    let mut line: usize = state.line;
    let mut column: usize = state.column;
    let mut trivia = trivia_new_in(arena);
    let ghost whole = eat_spaces(
        bytes@,
        state.offset as int,
        state.line as int,
        state.column as int,
        Seq::empty(),
    );
    assert(trivia_view(trivia_in(trivia)) =~= Seq::<TriviaModel>::empty());
    loop
        invariant
            state.wf(),
            bytes == state.bytes,
            state.offset <= offset <= bytes@.len(),
            line + (bytes@.len() - offset) <= usize::MAX,
            column + (bytes@.len() - offset) <= usize::MAX,
            trivia_in(trivia).len() <= offset - state.offset,
            whole == eat_spaces(
                bytes@,
                state.offset as int,
                state.line as int,
                state.column as int,
                Seq::empty(),
            ),
            whole == eat_spaces(
                bytes@,
                offset as int,
                line as int,
                column as int,
                trivia_view(trivia_in(trivia)),
            ),
        ensures
            whole == (SpaceScan::Good {
                offset: offset as int,
                line: line as int,
                column: column as int,
                trivia: trivia_view(trivia_in(trivia)),
            }),
        decreases bytes@.len() - offset,
    {
        if offset >= bytes.len() {
            break ;
        }
        let b: u8 = bytes[offset];
        if b == SPACE {
            offset = offset + 1;
            column = column + 1;
        } else if b == LINE_FEED {
            proof {
                assert(trivia_view(trivia_in(trivia).push(CommentOrNewline::Newline))
                    =~= trivia_view(trivia_in(trivia)).push(TriviaModel::Newline));
            }
            trivia_push(&mut trivia, CommentOrNewline::Newline);
            offset = offset + 1;
            line = line + 1;
            column = 0;
        } else if b == CARRIAGE_RETURN {
            offset = offset + 1;
        } else if b == TAB {
            return Err(
                (Progress::MadeProgress, SpaceProblem::BadInput(BadInputError::HasTab, line, column), state),
            );
        } else if b == HASH {
            let end: usize = chomp(bytes, offset + 1, ByteClass::NotNewline);
            match utf8_text(bytes, offset + 1, end) {
                None => {
                    return Err(
                        (
                            Progress::MadeProgress,
                            SpaceProblem::BadInput(BadInputError::BadUtf8, line, column),
                            state,
                        ),
                    );
                },
                Some(text) => {
                    let comment = CommentOrNewline::LineComment(text);
                    proof {
                        assert(trivia_view(trivia_in(trivia).push(comment)) =~= trivia_view(
                            trivia_in(trivia),
                        ).push(comment@));
                    }
                    trivia_push(&mut trivia, comment);
                    if end < bytes.len() {
                        offset = end + 1;
                        line = line + 1;
                        column = 0;
                    } else {
                        column = column + (end - offset);
                        offset = end;
                        break ;
                    }
                },
            }
        } else {
            break ;
        }
    }
    proof {
        lemma_space0_advances(state, min_indent);
    }
    if offset == state.offset {
        let none = trivia_new_in(arena);
        assert(trivia_view(trivia_in(none)) =~= Seq::<TriviaModel>::empty());
        Ok((Progress::NoProgress, trivia_into_bump_slice(none), state))
    } else if line != state.line {
        if column >= min_indent as usize {
            let spaces = trivia_into_bump_slice(trivia);
            Ok(
                (
                    Progress::MadeProgress,
                    spaces,
                    State { bytes, offset, line, column, indent_col: column },
                ),
            )
        } else {
            Err((Progress::MadeProgress, SpaceProblem::Indent(state.line, state.column), state))
        }
    } else {
        let spaces = trivia_into_bump_slice(trivia);
        Ok((Progress::MadeProgress, spaces, State { bytes, offset, line, column, indent_col: state.indent_col }))
    }
}

} // verus!
