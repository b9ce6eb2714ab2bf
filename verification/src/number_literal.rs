//! Number literals: decimal integers, decimal fractions, and integers in
//! base 2, 8 or 16.

use crate::ast::{Base, Expr, ExprModel};
use crate::parser::{ParseResult, Progress, State};
use crate::text::{
    all_ascii, ascii_text, chomp, is_digit, lemma_run_end, run_end, ByteClass, DIGIT_0, DIGIT_9,
    DOT, LOWER_B, LOWER_O, LOWER_X, MINUS,
};
use vstd::prelude::*;

verus! {

broadcast use vstd::slice::group_slice_axioms;

/// The base that the letter behind a leading `0` announces.
pub open spec fn base_of(marker: u8) -> Option<Base> {
    if marker == LOWER_X {
        Some(Base::Hex)
    } else if marker == LOWER_O {
        Some(Base::Octal)
    } else if marker == LOWER_B {
        Some(Base::Binary)
    } else {
        None
    }
}

/// The digits of a base.
pub open spec fn digits_of(base: Base) -> ByteClass {
    match base {
        Base::Hex => ByteClass::Hex,
        Base::Octal => ByteClass::Octal,
        Base::Binary => ByteClass::Binary,
    }
}

/// The base of the literal whose digits begin at `digits`, if `0`, a base
/// letter and at least one digit of that base stand there.
pub open spec fn base_at(bytes: Seq<u8>, digits: int) -> Option<Base> {
    if digits + 2 < bytes.len() && bytes[digits] == DIGIT_0 {
        match base_of(bytes[digits + 1]) {
            Some(base) => if digits_of(base).contains(bytes[digits + 2]) {
                Some(base)
            } else {
                None
            },
            None => None,
        }
    } else {
        None
    }
}

/// What reading a number literal at `state` yields. A literal is an optional
/// `-` and then at least one decimal digit. `0x`, `0o` or `0b` before a digit
/// of that base begins an integer in that base, whose text is the run of
/// such digits. Otherwise the literal is the run of decimal digits; where a
/// dot and another digit follow, it is a fraction that takes the digits
/// behind the dot as well. The text of a decimal literal holds its sign.
pub open spec fn number_literal_spec<'a>(state: State<'a>) -> Option<(ExprModel, State<'a>)> {
    let bytes = state.bytes@;
    let start = state.offset as int;
    let is_negative = start < bytes.len() && bytes[start] == MINUS;
    let digits = if is_negative {
        start + 1
    } else {
        start
    };
    if !(digits < bytes.len() && is_digit(bytes[digits])) {
        None
    } else {
        match base_at(bytes, digits) {
            Some(base) => {
                let end = run_end(bytes, digits + 2, digits_of(base));
                Some(
                    (
                        ExprModel::NonBase10Int {
                            string: bytes.subrange(digits + 2, end),
                            base,
                            is_negative,
                        },
                        state.advanced(end - start),
                    ),
                )
            },
            None => {
                let whole_end = run_end(bytes, digits, ByteClass::Digit);
                if whole_end + 1 < bytes.len() && bytes[whole_end] == DOT && is_digit(
                    bytes[whole_end + 1],
                ) {
                    let end = run_end(bytes, whole_end + 1, ByteClass::Digit);
                    Some((ExprModel::Float(bytes.subrange(start, end)), state.advanced(end - start)))
                } else {
                    Some(
                        (
                            ExprModel::Num(bytes.subrange(start, whole_end)),
                            state.advanced(whole_end - start),
                        ),
                    )
                }
            },
        }
    }
}

/// A number literal is not empty and ends within the input, on its line.
pub proof fn lemma_number_advances<'a>(state: State<'a>)
    requires
        state.wf(),
    ensures
        number_literal_spec(state) matches Some((_, s)) ==> s.wf() && state.reaches(s) && s.offset
            > state.offset && s.line == state.line,
{
    let bytes = state.bytes@;
    let start = state.offset as int;
    let digits = if start < bytes.len() && bytes[start] == MINUS {
        start + 1
    } else {
        start
    };
    if digits < bytes.len() && is_digit(bytes[digits]) {
        match base_at(bytes, digits) {
            Some(base) => {
                lemma_run_end(bytes, digits + 2, digits_of(base));
            },
            None => {
                lemma_run_end(bytes, digits, ByteClass::Digit);
                let whole_end = run_end(bytes, digits, ByteClass::Digit);
                if whole_end + 1 < bytes.len() {
                    lemma_run_end(bytes, whole_end + 1, ByteClass::Digit);
                }
            },
        }
    }
}

fn is_digit_byte(b: u8) -> (r: bool)
    ensures
        r == is_digit(b),
{
    b >= DIGIT_0 && b <= DIGIT_9
}

/// The base of the literal whose digits begin at `digits`.
fn find_base(bytes: &[u8], digits: usize) -> (r: Option<(Base, ByteClass)>)
    requires
        digits < bytes@.len(),
    ensures
        match (r, base_at(bytes@, digits as int)) {
            (Some((base, class)), Some(b)) => base == b && class == digits_of(b),
            (None, None) => true,
            _ => false,
        },
{
    if bytes.len() - digits > 2 && bytes[digits] == DIGIT_0 {
        let marker: u8 = bytes[digits + 1];
        let found: Option<(Base, ByteClass)> = if marker == LOWER_X {
            Some((Base::Hex, ByteClass::Hex))
        } else if marker == LOWER_O {
            Some((Base::Octal, ByteClass::Octal))
        } else if marker == LOWER_B {
            Some((Base::Binary, ByteClass::Binary))
        } else {
            None
        };
        match found {
            Some((base, class)) => {
                if class.has(bytes[digits + 2]) {
                    Some((base, class))
                } else {
                    None
                }
            },
            None => None,
        }
    } else {
        None
    }
}

/// The bytes from `start` to `end` are ASCII where all but a leading sign
/// and one dot are digits of some base.
proof fn lemma_literal_is_ascii(bytes: Seq<u8>, start: int, end: int)
    requires
        0 <= start <= end <= bytes.len(),
        forall|i: int|
            start <= i < end ==> ByteClass::Hex.contains(#[trigger] bytes[i]) || bytes[i] == MINUS
                || bytes[i] == DOT,
    ensures
        all_ascii(bytes.subrange(start, end)),
{
    let sub = bytes.subrange(start, end);
    assert forall|i: int| 0 <= i < sub.len() implies #[trigger] sub[i] < 128 by {
        assert(sub[i] == bytes[start + i]);
    }
}

/// Reads one number literal. Fails without progress where none begins.
pub fn number_literal<'a>(state: State<'a>) -> (r: ParseResult<'a, Expr<'a>, ()>)
    requires
        state.wf(),
    ensures
        match (r, number_literal_spec(state)) {
            (Ok((p, e, s)), Some((m, ms))) => p == Progress::MadeProgress && e@ == m && s == ms,
            (Err((p, _, s)), None) => p == Progress::NoProgress && s == state,
            _ => false,
        },
        r matches Ok((_, _, s)) ==> s.wf() && state.reaches(s) && s.offset > state.offset,
{
    let bytes = state.bytes;
    let start: usize = state.offset;
    let is_negative: bool = start < bytes.len() && bytes[start] == MINUS;
    let digits: usize = if is_negative {
        start + 1
    } else {
        start
    };
    if !(digits < bytes.len() && is_digit_byte(bytes[digits])) {
        return Err((Progress::NoProgress, (), state));
    }
    proof {
        lemma_number_advances(state);
    }
    match find_base(bytes, digits) {
        Some((base, class)) => {
            let end: usize = chomp(bytes, digits + 2, class);
            proof {
                lemma_run_end(bytes@, digits + 2, class);
                lemma_literal_is_ascii(bytes@, digits + 2, end as int);
            }
            let string = ascii_text(bytes, digits + 2, end);
            Ok(
                (
                    Progress::MadeProgress,
                    Expr::NonBase10Int { string, base, is_negative },
                    state.advance(end - start),
                ),
            )
        },
        None => {
            let whole_end: usize = chomp(bytes, digits, ByteClass::Digit);
            proof {
                lemma_run_end(bytes@, digits as int, ByteClass::Digit);
            }
            if bytes.len() - whole_end > 1 && bytes[whole_end] == DOT && is_digit_byte(
                bytes[whole_end + 1],
            ) {
                let end: usize = chomp(bytes, whole_end + 1, ByteClass::Digit);
                proof {
                    lemma_run_end(bytes@, whole_end + 1, ByteClass::Digit);
                    lemma_literal_is_ascii(bytes@, start as int, end as int);
                }
                let text = ascii_text(bytes, start, end);
                Ok((Progress::MadeProgress, Expr::Float(text), state.advance(end - start)))
            } else {
                proof {
                    lemma_literal_is_ascii(bytes@, start as int, whole_end as int);
                }
                let text = ascii_text(bytes, start, whole_end);
                Ok((Progress::MadeProgress, Expr::Num(text), state.advance(whole_end - start)))
            }
        },
    }
}

} // verus!
