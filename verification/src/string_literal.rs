//! String literals on one line.

use crate::ast::StrLiteral;
use crate::parser::{EString, ParseResult, Progress, State};
use crate::text::{utf8_text, BACKSLASH, LINE_FEED, QUOTE};
use vstd::prelude::*;
use vstd::string::StringSliceAdditionalSpecFns;
use vstd::utf8::valid_utf8;

verus! {

broadcast use vstd::slice::group_slice_axioms;

/// Where the text of a string literal stops.
pub enum StringScan {
    /// At the closing quote at this index.
    Closed(int),
    /// At this index, where the line or the input ends.
    Endless(int),
}

/// Scans the text of a string literal from `i` on. A backslash takes the
/// byte behind it along, unless that is a line feed; a quote closes the
/// literal; a line feed or the end of the input leaves it open.
pub open spec fn scan_string(bytes: Seq<u8>, i: int) -> StringScan
    decreases bytes.len() - i,
{
    if i < 0 || i >= bytes.len() || bytes[i] == LINE_FEED {
        StringScan::Endless(i)
    } else if bytes[i] == QUOTE {
        StringScan::Closed(i)
    } else if bytes[i] == BACKSLASH && i + 1 < bytes.len() && bytes[i + 1] != LINE_FEED {
        scan_string(bytes, i + 2)
    } else {
        scan_string(bytes, i + 1)
    }
}

/// What reading a string literal at `state` yields. Without an opening
/// quote there is no literal and no progress. The literal is the text up to
/// the closing quote; the cursor ends behind that quote. A literal that is
/// left open fails where its line ends, and one whose text is not UTF-8
/// fails behind its opening quote.
pub open spec fn string_literal_spec<'a>(state: State<'a>) -> ParseResult<'a, Seq<u8>, EString> {
    if state.next_byte() != Some(QUOTE) {
        Err((Progress::NoProgress, EString::Open(state.line, state.column), state))
    } else {
        let start = state.offset + 1;
        match scan_string(state.bytes@, start) {
            StringScan::Endless(stop) => {
                let at = state.advanced(stop - state.offset);
                Err((Progress::MadeProgress, EString::EndlessSingle(at.line, at.column), at))
            },
            StringScan::Closed(close) => {
                let text = state.bytes@.subrange(start, close);
                if valid_utf8(text) {
                    Ok((Progress::MadeProgress, text, state.advanced(close + 1 - state.offset)))
                } else {
                    let at = state.advanced(1);
                    Err((Progress::MadeProgress, EString::BadUtf8(at.line, at.column), at))
                }
            },
        }
    }
}

/// The scan of a string stops within the input, at or behind its start.
pub proof fn lemma_scan_string_bounds(bytes: Seq<u8>, i: int)
    requires
        0 <= i <= bytes.len(),
    ensures
        scan_string(bytes, i) matches StringScan::Closed(close) ==> i <= close < bytes.len(),
        scan_string(bytes, i) matches StringScan::Endless(stop) ==> i <= stop <= bytes.len(),
    decreases bytes.len() - i,
{
    if i >= bytes.len() || bytes[i] == LINE_FEED || bytes[i] == QUOTE {
    } else if bytes[i] == BACKSLASH && i + 1 < bytes.len() && bytes[i + 1] != LINE_FEED {
        lemma_scan_string_bounds(bytes, i + 2);
    } else {
        lemma_scan_string_bounds(bytes, i + 1);
    }
}

/// Every outcome of reading a string literal leaves the cursor within the
/// input, on its line, and a success has moved it.
pub proof fn lemma_string_advances<'a>(state: State<'a>)
    requires
        state.wf(),
    ensures
        string_literal_spec(state) matches Ok((p, _, s)) ==> p == Progress::MadeProgress && s.wf()
            && state.reaches(s) && s.offset > state.offset && s.line == state.line,
        string_literal_spec(state) matches Err((p, _, s)) ==> s.wf() && state.reaches(s) && (p
            == Progress::NoProgress <==> s == state),
{
    if state.next_byte() == Some(QUOTE) {
        lemma_scan_string_bounds(state.bytes@, state.offset + 1);
    }
}

/// Reads one string literal.
pub fn parse<'a>(state: State<'a>) -> (r: ParseResult<'a, StrLiteral<'a>, EString>)
    requires
        state.wf(),
    ensures
        match (r, string_literal_spec(state)) {
            (Ok((p, StrLiteral::PlainLine(text), s)), Ok((mp, m, ms))) => p == mp
                && text.spec_bytes() == m && s == ms,
            (Err(e), Err(me)) => e == me,
            _ => false,
        },
        r matches Ok((_, _, s)) ==> s.wf() && state.reaches(s) && s.offset > state.offset,
        r matches Err((_, _, s)) ==> s.wf() && state.reaches(s),
{
    let bytes = state.bytes;
    if !(state.offset < bytes.len() && bytes[state.offset] == QUOTE) {
        return Err((Progress::NoProgress, EString::Open(state.line, state.column), state));
    }
    let start: usize = state.offset + 1;
    let mut i: usize = start;
    let mut closed: bool = false;
    proof {
        lemma_string_advances(state);
    }
    loop
        invariant_except_break
            !closed,
            scan_string(bytes@, start as int) == scan_string(bytes@, i as int),
        invariant
            state.wf(),
            bytes == state.bytes,
            start == state.offset + 1,
            start <= i <= bytes@.len(),
        ensures
            start <= i <= bytes@.len(),
            closed ==> i < bytes@.len(),
            closed ==> scan_string(bytes@, start as int) == StringScan::Closed(i as int),
            !closed ==> scan_string(bytes@, start as int) == StringScan::Endless(i as int),
        decreases bytes@.len() - i,
    {
        if i >= bytes.len() {
            break ;
        }
        let b: u8 = bytes[i];
        if b == LINE_FEED {
            break ;
        } else if b == QUOTE {
            closed = true;
            break ;
        } else if b == BACKSLASH && bytes.len() - i > 1 && bytes[i + 1] != LINE_FEED {
            i = i + 2;
        } else {
            i = i + 1;
        }
    }
    if !closed {
        let at = state.advance(i - state.offset);
        return Err((Progress::MadeProgress, EString::EndlessSingle(at.line, at.column), at));
    }
    match utf8_text(bytes, start, i) {
        Some(text) => Ok(
            (Progress::MadeProgress, StrLiteral::PlainLine(text), state.advance(i - state.offset + 1)),
        ),
        None => {
            let at = state.advance(1);
            Err((Progress::MadeProgress, EString::BadUtf8(at.line, at.column), at))
        },
    }
}

} // verus!
