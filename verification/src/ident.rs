//! The identifier token and its classes.

use crate::keyword::{is_keyword, spells_keyword};
use crate::parser::{ParseResult, Progress, State};
use crate::text::{
    all_ascii, ascii_text, chomp, is_alpha, is_lower, is_upper, lemma_run_end, lemma_run_end_full,
    run_end, ByteClass,
    AT_SIGN, DOT, LOWER_A, LOWER_Z, UPPER_A, UPPER_Z,
};
use vstd::prelude::*;
use vstd::slice::slice_subrange;
use vstd::string::StringSliceAdditionalSpecFns;

verus! {

broadcast use vstd::slice::group_slice_axioms;

/// What an identifier token is.
#[derive(Clone, Copy, Debug, PartialEq, Eq)]
pub enum Ident<'a> {
    /// `Foo`: one capitalized part.
    GlobalTag(&'a str),
    /// `@Foo`; the text holds the `@`.
    PrivateTag(&'a str),
    /// `foo`, `foo.bar` or `Foo.Bar.baz`: the capitalized parts in front,
    /// without the dot behind them (empty where there are none), then the
    /// dotted lowercase parts and their number.
    Access { module_name: &'a str, path: &'a str, part_count: usize },
    /// `.foo`; the text is the field name, without the dot.
    AccessorFunction(&'a str),
    /// Text that begins like an identifier and is none: `foo.`, `foo.Bar`,
    /// `Foo.Bar`, `foo_bar`, `@foo`. The text is the whole token.
    Malformed(&'a str),
}

/// What an `Ident` stands for: the same class over the bytes of its texts.
pub enum IdentModel {
    GlobalTag(Seq<u8>),
    PrivateTag(Seq<u8>),
    Access { module_name: Seq<u8>, path: Seq<u8>, part_count: nat },
    AccessorFunction(Seq<u8>),
    Malformed(Seq<u8>),
}

impl<'a> View for Ident<'a> {
    type V = IdentModel;

    open spec fn view(&self) -> IdentModel {
        match *self {
            Ident::GlobalTag(text) => IdentModel::GlobalTag(text.spec_bytes()),
            Ident::PrivateTag(text) => IdentModel::PrivateTag(text.spec_bytes()),
            Ident::Access { module_name, path, part_count } => IdentModel::Access {
                module_name: module_name.spec_bytes(),
                path: path.spec_bytes(),
                part_count: part_count as nat,
            },
            Ident::AccessorFunction(text) => IdentModel::AccessorFunction(text.spec_bytes()),
            Ident::Malformed(text) => IdentModel::Malformed(text.spec_bytes()),
        }
    }
}

/// A byte that an identifier token can begin with: a letter, `@` or `.`.
pub open spec fn is_ident_start(b: u8) -> bool {
    is_alpha(b) || b == AT_SIGN || b == DOT
}

/// One part of a dotted name: a letter followed by letters and digits.
pub open spec fn is_part(text: Seq<u8>) -> bool {
    text.len() > 0 && is_alpha(text[0]) && run_end(text, 0, ByteClass::Alnum) == text.len()
}

/// How a dotted name divides into parts: a number of capitalized parts, then
/// a number of lowercase parts, the first of which begins at `path_start`.
pub struct Parts {
    pub uppers: nat,
    pub lowers: nat,
    pub path_start: int,
}

/// Reads the parts of `text` from `i` on, where a part must begin, behind
/// the parts already counted in `seen`. There is no division where a part is
/// empty or begins with no letter, where a capitalized part follows a
/// lowercase one, or where anything but a dot stands between two parts.
pub open spec fn scan_parts(text: Seq<u8>, i: int, seen: Parts) -> Option<Parts>
    decreases text.len() - i,
{
    if i < 0 || i >= text.len() || !is_alpha(text[i]) {
        None
    } else if is_upper(text[i]) && seen.lowers > 0 {
        None
    } else {
        let end = run_end(text, i, ByteClass::Alnum);
        let parts = if is_upper(text[i]) {
            Parts { uppers: seen.uppers + 1, lowers: seen.lowers, path_start: seen.path_start }
        } else {
            Parts {
                uppers: seen.uppers,
                lowers: seen.lowers + 1,
                path_start: if seen.lowers == 0 {
                    i
                } else {
                    seen.path_start
                },
            }
        };
        if end >= text.len() {
            Some(parts)
        } else if text[end] == DOT {
            proof {
                lemma_run_end(text, i, ByteClass::Alnum);
            }
            scan_parts(text, end + 1, parts)
        } else {
            None
        }
    }
}

/// The class of the token `text`. `@` before one capitalized part is a
/// private tag, and `.` before one lowercase part an accessor function. A
/// single capitalized part is a global tag. Lowercase parts, behind any
/// number of capitalized ones, are an access. Every other text is malformed.
pub open spec fn classify(text: Seq<u8>) -> IdentModel {
    if text.len() > 0 && text[0] == AT_SIGN {
        if is_part(text.skip(1)) && is_upper(text[1]) {
            IdentModel::PrivateTag(text)
        } else {
            IdentModel::Malformed(text)
        }
    } else if text.len() > 0 && text[0] == DOT {
        if is_part(text.skip(1)) && is_lower(text[1]) {
            IdentModel::AccessorFunction(text.skip(1))
        } else {
            IdentModel::Malformed(text)
        }
    } else {
        match scan_parts(text, 0, Parts { uppers: 0, lowers: 0, path_start: 0 }) {
            None => IdentModel::Malformed(text),
            Some(parts) => {
                if parts.lowers > 0 {
                    IdentModel::Access {
                        module_name: if parts.uppers == 0 {
                            Seq::empty()
                        } else {
                            text.take(parts.path_start - 1)
                        },
                        path: text.skip(parts.path_start),
                        part_count: parts.lowers,
                    }
                } else if parts.uppers == 1 {
                    IdentModel::GlobalTag(text)
                } else {
                    IdentModel::Malformed(text)
                }
            },
        }
    }
}

/// Where the identifier token that begins at `start` ends: behind the
/// longest run of letters, digits, dots and underscores that follows its
/// first byte.
pub open spec fn token_end(bytes: Seq<u8>, start: int) -> int {
    run_end(bytes, start + 1, ByteClass::IdentTail)
}

/// What reading an identifier token at `state` yields: nothing where no
/// token begins, else the class of the token and the cursor behind it.
pub open spec fn ident_spec<'a>(state: State<'a>) -> Option<(IdentModel, State<'a>)> {
    match state.next_byte() {
        Some(b) => {
            if is_ident_start(b) {
                let end = token_end(state.bytes@, state.offset as int);
                Some(
                    (
                        classify(state.bytes@.subrange(state.offset as int, end)),
                        state.advanced(end - state.offset),
                    ),
                )
            } else {
                None
            }
        },
        None => None,
    }
}

/// What reading a lowercase name at `state` yields: a lowercase letter and
/// the letters and digits behind it, unless they spell a reserved word.
pub open spec fn lowercase_ident_spec<'a>(state: State<'a>) -> Option<(Seq<u8>, State<'a>)> {
    match state.next_byte() {
        Some(b) => {
            let end = run_end(state.bytes@, state.offset as int, ByteClass::Alnum);
            let text = state.bytes@.subrange(state.offset as int, end);
            if is_lower(b) && !is_keyword(text) {
                Some((text, state.advanced(end - state.offset)))
            } else {
                None
            }
        },
        None => None,
    }
}

/// An identifier token is not empty and ends within the input.
pub proof fn lemma_ident_advances<'a>(state: State<'a>)
    requires
        state.wf(),
    ensures
        ident_spec(state) matches Some((_, s)) ==> s.wf() && state.reaches(s) && s.offset
            > state.offset && s.line == state.line,
        lowercase_ident_spec(state) matches Some((_, s)) ==> s.wf() && state.reaches(s) && s.offset
            > state.offset && s.line == state.line,
{
    if state.offset < state.bytes@.len() {
        lemma_run_end(state.bytes@, state.offset + 1, ByteClass::IdentTail);
        lemma_run_end(state.bytes@, state.offset as int, ByteClass::Alnum);
    }
}

/// A lowercase letter with the letters and digits behind it, where the
/// token ends with them, is an access of one part outside any module, whose
/// path is the text of the token.
pub proof fn lemma_bare_name_is_access<'a>(state: State<'a>)
    requires
        state.wf(),
        state.next_byte() matches Some(b) && is_lower(b),
        token_end(state.bytes@, state.offset as int) == run_end(
            state.bytes@,
            state.offset as int,
            ByteClass::Alnum,
        ),
    ensures
        ({
            let end = run_end(state.bytes@, state.offset as int, ByteClass::Alnum);
            ident_spec(state) == Some(
                (
                    IdentModel::Access {
                        module_name: Seq::empty(),
                        path: state.bytes@.subrange(state.offset as int, end),
                        part_count: 1,
                    },
                    state.advanced(end - state.offset),
                ),
            )
        }),
{
    let bytes = state.bytes@;
    let start = state.offset as int;
    let end = run_end(bytes, start, ByteClass::Alnum);
    lemma_run_end(bytes, start, ByteClass::Alnum);
    let text = bytes.subrange(start, end);
    assert forall|i: int| 0 <= i < text.len() implies ByteClass::Alnum.contains(
        #[trigger] text[i],
    ) by {
        assert(text[i] == bytes[start + i]);
    }
    lemma_run_end_full(text, 0, ByteClass::Alnum);
    assert(text[0] == bytes[start]);
    let parts = Parts { uppers: 0, lowers: 1, path_start: 0 };
    assert(scan_parts(text, 0, Parts { uppers: 0, lowers: 0, path_start: 0 }) == Some(parts));
    assert(text.skip(0) =~= text);
}

/// The text of an identifier token is ASCII.
pub proof fn lemma_token_is_text<'a>(state: State<'a>)
    requires
        state.wf(),
    ensures
        ident_spec(state) matches Some((_, s)) ==> all_ascii(
            state.bytes@.subrange(state.offset as int, s.offset as int),
        ),
{
    if state.offset < state.bytes@.len() && is_ident_start(state.bytes@[state.offset as int]) {
        let end = token_end(state.bytes@, state.offset as int);
        lemma_run_end(state.bytes@, state.offset + 1, ByteClass::IdentTail);
        lemma_token_is_ascii(state.bytes@, state.offset as int, end);
        let token = state.bytes@.subrange(state.offset as int, end);
        assert(token.subrange(0, token.len() as int) =~= token);
    }
}

/// A run of a class of ASCII bytes is ASCII.
proof fn lemma_token_is_ascii(bytes: Seq<u8>, start: int, end: int)
    requires
        0 <= start < end <= bytes.len(),
        bytes[start] < 128,
        forall|i: int| start < i < end ==> ByteClass::IdentTail.contains(#[trigger] bytes[i]),
    ensures
        forall|a: int, b: int|
            0 <= a <= b <= end - start ==> all_ascii(
                #[trigger] bytes.subrange(start, end).subrange(a, b),
            ),
{
    assert forall|a: int, b: int| 0 <= a <= b <= end - start implies all_ascii(
        #[trigger] bytes.subrange(start, end).subrange(a, b),
    ) by {
        let sub = bytes.subrange(start, end).subrange(a, b);
        assert forall|i: int| 0 <= i < sub.len() implies #[trigger] sub[i] < 128 by {
            assert(sub[i] == bytes[start + a + i]);
        }
    }
}

/// Whether `b` is an ASCII letter, and of which case.
fn letter_case(b: u8) -> (r: (bool, bool))
    ensures
        r.0 == is_alpha(b),
        r.1 == is_upper(b),
{
    let upper: bool = b >= UPPER_A && b <= UPPER_Z;
    let lower: bool = b >= LOWER_A && b <= LOWER_Z;
    (upper || lower, upper)
}

/// The class of the token `tok`, which is not empty and holds ASCII only.
fn classify_token<'a>(tok: &'a [u8]) -> (ident: Ident<'a>)
    requires
        tok@.len() > 0,
        forall|a: int, b: int| 0 <= a <= b <= tok@.len() ==> all_ascii(#[trigger] tok@.subrange(a, b)),
    ensures
        ident@ == classify(tok@),
{
    let n: usize = tok.len();
    assert(tok@.subrange(0, n as int) =~= tok@);
    if tok[0] == AT_SIGN || tok[0] == DOT {
        let private: bool = tok[0] == AT_SIGN;
        let mut well_formed: bool = false;
        if n > 1 {
            let (alpha, upper) = letter_case(tok[1]);
            let end: usize = chomp(tok, 1, ByteClass::Alnum);
            proof {
                lemma_part_of_tail(tok@, 1);
            }
            well_formed = alpha && end == n && upper == private;
        }
        assert(well_formed == (is_part(tok@.skip(1)) && if private {
            is_upper(tok@[1])
        } else {
            is_lower(tok@[1])
        }));
        if !well_formed {
            Ident::Malformed(ascii_text(tok, 0, n))
        } else if private {
            Ident::PrivateTag(ascii_text(tok, 0, n))
        } else {
            assert(tok@.subrange(1, n as int) =~= tok@.skip(1));
            Ident::AccessorFunction(ascii_text(tok, 1, n))
        }
    } else {
        let mut i: usize = 0;
        let mut uppers: usize = 0;
        let mut lowers: usize = 0;
        let mut path_start: usize = 0;
        let ghost whole = scan_parts(tok@, 0, Parts { uppers: 0, lowers: 0, path_start: 0 });
        let mut done: bool = false;
        let mut bad: bool = false;
        while !done
            invariant
                n == tok@.len(),
                i <= n,
                uppers <= n,
                lowers <= n,
                !done ==> uppers <= i && lowers <= i,
                path_start <= i,
                lowers > 0 ==> path_start < n,
                uppers > 0 && lowers > 0 ==> path_start >= 1,
                !done ==> whole == scan_parts(
                    tok@,
                    i as int,
                    Parts { uppers: uppers as nat, lowers: lowers as nat, path_start: path_start as int },
                ),
                !done ==> !bad,
                done && bad ==> whole is None,
                done && !bad ==> whole == Some(
                    Parts { uppers: uppers as nat, lowers: lowers as nat, path_start: path_start as int },
                ),
            decreases n - i, if done { 0int } else { 1int },
        {
            let ghost seen = Parts {
                uppers: uppers as nat,
                lowers: lowers as nat,
                path_start: path_start as int,
            };
            assert(whole == scan_parts(tok@, i as int, seen));
            if i >= n {
                bad = true;
                done = true;
            } else {
                let (alpha, upper) = letter_case(tok[i]);
                if !alpha || (upper && lowers > 0) {
                        bad = true;
                    done = true;
                } else {
                    let end: usize = chomp(tok, i, ByteClass::Alnum);
                    proof {
                        lemma_run_end(tok@, i as int, ByteClass::Alnum);
                        assert(end < n && tok@[end as int] != DOT ==> scan_parts(tok@, i as int, seen)
                            is None);
                    }
                    if upper {
                        uppers = uppers + 1;
                    } else {
                        if lowers == 0 {
                            path_start = i;
                        }
                        lowers = lowers + 1;
                    }
                    if end >= n {
                        done = true;
                    } else if tok[end] == DOT {
                        i = end + 1;
                    } else {
                                bad = true;
                        done = true;
                    }
                }
            }
        }
        if bad {
            Ident::Malformed(ascii_text(tok, 0, n))
        } else if lowers > 0 {
            assert(tok@.subrange(path_start as int, n as int) =~= tok@.skip(path_start as int));
            let path = ascii_text(tok, path_start, n);
            if uppers == 0 {
                assert(tok@.subrange(0, 0) =~= Seq::<u8>::empty());
                Ident::Access { module_name: ascii_text(tok, 0, 0), path, part_count: lowers }
            } else {
                assert(tok@.subrange(0, path_start - 1) =~= tok@.take(path_start - 1));
                Ident::Access {
                    module_name: ascii_text(tok, 0, path_start - 1),
                    path,
                    part_count: lowers,
                }
            }
        } else if uppers == 1 {
            Ident::GlobalTag(ascii_text(tok, 0, n))
        } else {
            Ident::Malformed(ascii_text(tok, 0, n))
        }
    }
}

/// The run of letters and digits of `text` from `start` on is that of the
/// text behind `start`, moved by `start`.
proof fn lemma_part_of_tail(text: Seq<u8>, start: int)
    requires
        0 <= start <= text.len(),
    ensures
        run_end(text.skip(start), 0, ByteClass::Alnum) + start == run_end(
            text,
            start,
            ByteClass::Alnum,
        ),
{
    lemma_run_shift(text, start, 0);
}

proof fn lemma_run_shift(text: Seq<u8>, start: int, i: int)
    requires
        0 <= start <= text.len(),
        0 <= i <= text.len() - start,
    ensures
        run_end(text.skip(start), i, ByteClass::Alnum) + start == run_end(
            text,
            start + i,
            ByteClass::Alnum,
        ),
    decreases text.len() - start - i,
{
    let tail = text.skip(start);
    if i < tail.len() {
        assert(tail[i] == text[start + i]);
        if ByteClass::Alnum.contains(tail[i]) {
            lemma_run_shift(text, start, i + 1);
        }
    }
}

/// Reads one identifier token. Fails without progress where none begins.
pub fn ident<'a>(state: State<'a>) -> (r: ParseResult<'a, Ident<'a>, ()>)
    requires
        state.wf(),
    ensures
        match (r, ident_spec(state)) {
            (Ok((p, id, s)), Some((m, ms))) => p == Progress::MadeProgress && id@ == m && s == ms,
            (Err((p, _, s)), None) => p == Progress::NoProgress && s == state,
            _ => false,
        },
        r matches Ok((_, _, s)) ==> s.wf() && state.reaches(s) && s.offset > state.offset,
{
    let bytes = state.bytes;
    if state.offset >= bytes.len() {
        return Err((Progress::NoProgress, (), state));
    }
    let b: u8 = bytes[state.offset];
    let (alpha, _) = letter_case(b);
    if !(alpha || b == AT_SIGN || b == DOT) {
        return Err((Progress::NoProgress, (), state));
    }
    let end: usize = chomp(bytes, state.offset + 1, ByteClass::IdentTail);
    proof {
        lemma_run_end(bytes@, state.offset + 1, ByteClass::IdentTail);
        lemma_token_is_ascii(bytes@, state.offset as int, end as int);
    }
    let tok = slice_subrange(bytes, state.offset, end);
    let id = classify_token(tok);
    Ok((Progress::MadeProgress, id, state.advance(end - state.offset)))
}

/// Reads one lowercase name that is no reserved word. Fails without
/// progress where none begins.
pub fn lowercase_ident<'a>(state: State<'a>) -> (r: ParseResult<'a, &'a str, ()>)
    requires
        state.wf(),
    ensures
        match (r, lowercase_ident_spec(state)) {
            (Ok((p, name, s)), Some((m, ms))) => p == Progress::MadeProgress && name.spec_bytes()
                == m && s == ms,
            (Err((p, _, s)), None) => p == Progress::NoProgress && s == state,
            _ => false,
        },
        r matches Ok((_, _, s)) ==> s.wf() && state.reaches(s) && s.offset > state.offset,
{
    let bytes = state.bytes;
    if state.offset >= bytes.len() {
        return Err((Progress::NoProgress, (), state));
    }
    let b: u8 = bytes[state.offset];
    if !(b >= LOWER_A && b <= LOWER_Z) {
        return Err((Progress::NoProgress, (), state));
    }
    let end: usize = chomp(bytes, state.offset, ByteClass::Alnum);
    proof {
        lemma_run_end(bytes@, state.offset as int, ByteClass::Alnum);
    }
    let tok = slice_subrange(bytes, state.offset, end);
    if spells_keyword(tok) {
        return Err((Progress::NoProgress, (), state));
    }
    proof {
        assert(tok@.subrange(0, tok@.len() as int) =~= tok@);
        assert(all_ascii(tok@));
    }
    let name = ascii_text(tok, 0, tok.len());
    Ok((Progress::MadeProgress, name, state.advance(end - state.offset)))
}

} // verus!
