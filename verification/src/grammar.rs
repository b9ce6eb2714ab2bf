//! The grammar of patterns, as functions from a cursor to the outcome of a
//! parse over the models of the syntax tree.
//!
//! Alternatives are tried in order: the first success or the first failure
//! with progress decides, and where every alternative fails without progress
//! the failure of the last one is the outcome.

use crate::ast::{ExprModel, PatternModel, TriviaModel};
use crate::blankspace::{lemma_space0_advances, space0_spec, SpaceProblem};
use crate::expr::{expr_spec, pattern_of_expr};
use crate::ident::{ident_spec, lemma_ident_advances, lowercase_ident_spec, IdentModel};
use crate::keyword::is_keyword;
use crate::number_literal::number_literal_spec;
use crate::parser::{
    word1_spec, EPattern, PInParens, PRecord, ParseResult, Progress, State, SyntaxError,
};
use crate::region::{regions_of, Located, Region};
use crate::string_literal::string_literal_spec;
use crate::text::{CLOSE_BRACE, CLOSE_PAREN, COLON, COMMA, OPEN_BRACE, OPEN_PAREN, QUESTION, UNDERSCORE};
use vstd::prelude::*;

verus! {

/// `value` with the region between the cursors `start` and `end`.
pub open spec fn located<'a, T>(start: State<'a>, end: State<'a>, value: T) -> Located<T> {
    Located { region: start.region_to(end), value }
}

/// `node`, wrapped in the trivia that stood before it where there is any.
pub open spec fn with_spaces_before(
    node: Located<PatternModel>,
    spaces: Seq<TriviaModel>,
) -> Located<PatternModel> {
    if spaces.len() == 0 {
        node
    } else {
        Located { region: node.region, value: PatternModel::SpaceBefore(Box::new(node.value), spaces) }
    }
}

/// `node`, wrapped in the trivia that stood behind it where there is any.
pub open spec fn with_spaces_after(
    node: Located<PatternModel>,
    spaces: Seq<TriviaModel>,
) -> Located<PatternModel> {
    if spaces.len() == 0 {
        node
    } else {
        Located { region: node.region, value: PatternModel::SpaceAfter(Box::new(node.value), spaces) }
    }
}

/// `e`, wrapped in the trivia that stood before it where there is any.
pub open spec fn expr_with_spaces_before(e: ExprModel, spaces: Seq<TriviaModel>) -> ExprModel {
    if spaces.len() == 0 {
        e
    } else {
        ExprModel::SpaceBefore(Box::new(e), spaces)
    }
}

/// A problem with blank space, as an error of a pattern.
pub open spec fn pattern_space_error<'a>(problem: SpaceProblem) -> EPattern<'a> {
    match problem {
        SpaceProblem::BadInput(bad, row, col) => EPattern::Space(bad, row, col),
        SpaceProblem::Indent(row, col) => EPattern::IndentStart(row, col),
    }
}

/// A problem with blank space, as an error of a parenthesized pattern.
pub open spec fn parens_space_error<'a>(problem: SpaceProblem) -> PInParens<'a> {
    match problem {
        SpaceProblem::BadInput(bad, row, col) => PInParens::Space(bad, row, col),
        SpaceProblem::Indent(row, col) => PInParens::IndentEnd(row, col),
    }
}

/// A problem with blank space, as an error of a record pattern; an
/// indentation problem behind `:` or `?` is told apart from one elsewhere.
pub open spec fn record_space_error<'a>(problem: SpaceProblem, behind_colon: bool) -> PRecord<'a> {
    match problem {
        SpaceProblem::BadInput(bad, row, col) => PRecord::Space(bad, row, col),
        SpaceProblem::Indent(row, col) => if behind_colon {
            PRecord::IndentColon(row, col)
        } else {
            PRecord::IndentEnd(row, col)
        },
    }
}

/// The input that is left behind the cursor, in bytes.
pub open spec fn left<'a>(state: State<'a>) -> int {
    state.bytes@.len() - state.offset
}

/// A lowercase name that is no reserved word, as part of a pattern.
pub open spec fn lowercase_ident_pattern_spec<'a>(state: State<'a>) -> ParseResult<
    'a,
    Seq<u8>,
    EPattern<'a>,
> {
    match lowercase_ident_spec(state) {
        Some((name, s)) => Ok((Progress::MadeProgress, name, s)),
        None => Err((Progress::NoProgress, EPattern::End(state.line, state.column), state)),
    }
}

/// `_`, and directly behind it an optional lowercase name.
pub open spec fn underscore_pattern_help_spec<'a>(state: State<'a>) -> ParseResult<
    'a,
    PatternModel,
    EPattern<'a>,
> {
    match word1_spec(state, UNDERSCORE) {
        None => Err((Progress::NoProgress, EPattern::Underscore(state.line, state.column), state)),
        Some(s1) => match lowercase_ident_spec(s1) {
            Some((name, s2)) => Ok((Progress::MadeProgress, PatternModel::Underscore(name), s2)),
            None => Ok((Progress::MadeProgress, PatternModel::Underscore(Seq::empty()), s1)),
        },
    }
}

/// A number literal, as the pattern that matches it.
pub open spec fn number_pattern_help_spec<'a>(state: State<'a>) -> ParseResult<
    'a,
    PatternModel,
    EPattern<'a>,
> {
    match number_literal_spec(state) {
        Some((number, s)) => Ok((Progress::MadeProgress, pattern_of_expr(number), s)),
        None => Err((Progress::NoProgress, EPattern::Start(state.line, state.column), state)),
    }
}

/// A string literal, as the pattern that matches it.
pub open spec fn string_pattern_help_spec<'a>(state: State<'a>) -> ParseResult<
    'a,
    PatternModel,
    EPattern<'a>,
> {
    match string_literal_spec(state) {
        Ok((p, text, s)) => Ok((p, PatternModel::StrLiteral(text), s)),
        Err((p, _, s)) => Err((p, EPattern::Start(s.line, s.column), s)),
    }
}

/// The outcome of `r`, with its value given the region from `start` to
/// where `r` ended.
pub open spec fn loc_spec<'a, E>(start: State<'a>, r: ParseResult<'a, PatternModel, E>) -> ParseResult<
    'a,
    Located<PatternModel>,
    E,
> {
    match r {
        Ok((p, value, s)) => Ok((p, located(start, s, value), s)),
        Err(e) => Err(e),
    }
}

/// One identifier token, read as a pattern.
///
/// A tag stands for itself; where `can_have_arguments` holds, the arguments
/// that follow it are read, and if there is at least one the outcome is the
/// tag applied to them, with the region from the tag to the last argument.
/// An argument that fails with progress fails the tag with it.
/// A single lowercase name outside a module is an identifier, unless it is
/// a reserved word, which fails without progress. A qualified or dotted
/// access and an accessor function are kept as malformed patterns that hold
/// the text of the token. A malformed token fails with progress, behind the
/// token.
pub open spec fn loc_ident_pattern_help_spec<'a>(
    state: State<'a>,
    min_indent: u16,
    can_have_arguments: bool,
) -> ParseResult<'a, Located<PatternModel>, EPattern<'a>>
    decreases left(state), (if can_have_arguments {
            80int
        } else {
            0int
        }),
    when state.wf()
{
    match ident_spec(state) {
        None => Err((Progress::NoProgress, EPattern::Start(state.line, state.column), state)),
        Some((ident, s1)) => {
            let token = state.bytes@.subrange(state.offset as int, s1.offset as int);
            match ident {
                IdentModel::GlobalTag(name) => tag_pattern_spec(
                    state,
                    s1,
                    PatternModel::GlobalTag(name),
                    if can_have_arguments {
                        proof {
                            lemma_ident_advances(state);
                        }
                        loc_tag_pattern_args_help_spec(s1, min_indent)
                    } else {
                        Ok((Progress::NoProgress, Seq::empty(), s1))
                    },
                ),
                IdentModel::PrivateTag(name) => tag_pattern_spec(
                    state,
                    s1,
                    PatternModel::PrivateTag(name),
                    if can_have_arguments {
                        proof {
                            lemma_ident_advances(state);
                        }
                        loc_tag_pattern_args_help_spec(s1, min_indent)
                    } else {
                        Ok((Progress::NoProgress, Seq::empty(), s1))
                    },
                ),
                IdentModel::Access { module_name, path, part_count } => {
                    if module_name.len() == 0 && part_count == 1 {
                        if is_keyword(path) {
                            Err(
                                (
                                    Progress::NoProgress,
                                    EPattern::End(state.line, state.column),
                                    state,
                                ),
                            )
                        } else {
                            Ok(
                                (
                                    Progress::MadeProgress,
                                    located(state, s1, PatternModel::Identifier(path)),
                                    s1,
                                ),
                            )
                        }
                    } else {
                        Ok(
                            (
                                Progress::MadeProgress,
                                located(state, s1, PatternModel::Malformed(token)),
                                s1,
                            ),
                        )
                    }
                },
                IdentModel::AccessorFunction(_) => Ok(
                    (Progress::MadeProgress, located(state, s1, PatternModel::Malformed(token)), s1),
                ),
                IdentModel::Malformed(_) => Err(
                    (Progress::MadeProgress, EPattern::Start(s1.line, s1.column), s1),
                ),
            }
        },
    }
}

/// The tag `loc_tag` with the arguments `loc_args`: the bare tag where
/// there are none, else the tag applied to them, with the region from the
/// tag to the last argument.
pub open spec fn applied(
    loc_tag: Located<PatternModel>,
    loc_args: Seq<Located<PatternModel>>,
) -> Located<PatternModel> {
    if loc_args.len() == 0 {
        loc_tag
    } else {
        Located {
            region: Region::span_all(loc_tag.region, regions_of(loc_args)),
            value: PatternModel::Apply(Box::new(loc_tag), loc_args),
        }
    }
}

/// The tag `tag`, read between `start` and `end`, together with the
/// outcome of reading the arguments behind it.
pub open spec fn tag_pattern_spec<'a>(
    start: State<'a>,
    end: State<'a>,
    tag: PatternModel,
    args: ParseResult<'a, Seq<Located<PatternModel>>, EPattern<'a>>,
) -> ParseResult<'a, Located<PatternModel>, EPattern<'a>> {
    match args {
        Err(e) => Err(e),
        Ok((_, loc_args, s)) => Ok(
            (Progress::MadeProgress, applied(located(start, end, tag), loc_args), s),
        ),
    }
}

/// The arguments of a tag: as many as can be read one behind the other.
/// What fails without progress as a further argument ends the list, which
/// is a success: without progress where the list is empty, with progress
/// otherwise. An argument that fails with progress fails the list, with
/// that error and at that cursor.
pub open spec fn loc_tag_pattern_args_help_spec<'a>(state: State<'a>, min_indent: u16) -> ParseResult<
    'a,
    Seq<Located<PatternModel>>,
    EPattern<'a>,
>
    decreases left(state), 75int,
    when state.wf()
{
    tag_args_from(state, min_indent, Seq::empty())
}

/// The outcome of reading the arguments of a tag from `state` on, where the
/// arguments `seen` have been read already.
pub open spec fn tag_args_from<'a>(
    state: State<'a>,
    min_indent: u16,
    seen: Seq<Located<PatternModel>>,
) -> ParseResult<'a, Seq<Located<PatternModel>>, EPattern<'a>>
    decreases left(state), 70int,
    when state.wf()
{
    match loc_tag_pattern_arg_spec(state, min_indent) {
        Err((Progress::NoProgress, _, _)) => Ok(
            (
                if seen.len() == 0 {
                    Progress::NoProgress
                } else {
                    Progress::MadeProgress
                },
                seen,
                state,
            ),
        ),
        Err((Progress::MadeProgress, e, s)) => Err((Progress::MadeProgress, e, s)),
        Ok((_, arg, s1)) => {
            if state.moves_on_to(s1) {
                tag_args_from(s1, min_indent, seen.push(arg))
            } else {
                Ok((Progress::MadeProgress, seen.push(arg), s1))
            }
        },
    }
}

/// One argument of a tag: optional blank space and then a pattern that
/// takes no arguments of its own. The blank space is speculative. Where it
/// cannot be read, or where no pattern begins behind it, the outcome is a
/// failure without progress at the cursor where the attempt began, so that
/// the blank space is left unread. A pattern that fails with progress behind
/// the blank space fails the argument, with that error and at that cursor.
/// Blank space that holds a line break or a comment is kept around the
/// argument.
pub open spec fn loc_tag_pattern_arg_spec<'a>(state: State<'a>, min_indent: u16) -> ParseResult<
    'a,
    Located<PatternModel>,
    EPattern<'a>,
>
    decreases left(state), 60int,
    when state.wf()
{
    match space0_spec(state, min_indent) {
        Err((_, problem, _)) => Err((Progress::NoProgress, pattern_space_error(problem), state)),
        Ok((_, spaces, s1)) => {
            proof {
                lemma_space0_advances(state, min_indent);
            }
            match pattern_alternatives_spec(s1, min_indent, false) {
                Err((Progress::NoProgress, e, _)) => Err((Progress::NoProgress, e, state)),
                Err((Progress::MadeProgress, e, s)) => Err((Progress::MadeProgress, e, s)),
                Ok((_, node, s2)) => Ok((Progress::MadeProgress, with_spaces_before(node, spaces), s2)),
            }
        },
    }
}

/// The alternatives of a pattern, in order: a parenthesized pattern, an
/// underscore, an identifier token (a tag takes arguments only where
/// `can_have_arguments` holds), a record pattern, a string literal, a number
/// literal.
pub open spec fn pattern_alternatives_spec<'a>(
    state: State<'a>,
    min_indent: u16,
    can_have_arguments: bool,
) -> ParseResult<'a, Located<PatternModel>, EPattern<'a>>
    decreases left(state), (if can_have_arguments {
            90int
        } else {
            50int
        }),
    when state.wf()
{
    match loc_pattern_in_parens_help_spec(state, min_indent) {
        Ok(found) => Ok(found),
        Err((Progress::MadeProgress, e, s)) => Err(
            (Progress::MadeProgress, EPattern::PInParens(e, s.line, s.column), s),
        ),
        Err((Progress::NoProgress, _, _)) => match loc_spec(
            state,
            underscore_pattern_help_spec(state),
        ) {
            Ok(found) => Ok(found),
            Err((Progress::MadeProgress, e, s)) => Err((Progress::MadeProgress, e, s)),
            Err((Progress::NoProgress, _, _)) => match loc_ident_pattern_help_spec(
                state,
                min_indent,
                can_have_arguments,
            ) {
                Ok(found) => Ok(found),
                Err((Progress::MadeProgress, e, s)) => Err((Progress::MadeProgress, e, s)),
                Err((Progress::NoProgress, _, _)) => match loc_spec(
                    state,
                    record_pattern_help_spec(state, min_indent),
                ) {
                    Ok(found) => Ok(found),
                    Err((Progress::MadeProgress, e, s)) => Err(
                        (Progress::MadeProgress, EPattern::Record(e, s.line, s.column), s),
                    ),
                    Err((Progress::NoProgress, _, _)) => match loc_spec(
                        state,
                        string_pattern_help_spec(state),
                    ) {
                        Ok(found) => Ok(found),
                        Err((Progress::MadeProgress, e, s)) => Err((Progress::MadeProgress, e, s)),
                        Err((Progress::NoProgress, _, _)) => loc_spec(
                            state,
                            number_pattern_help_spec(state),
                        ),
                    },
                },
            },
        },
    }
}

/// A pattern at the outermost boundary: the alternatives of a pattern, with
/// arguments allowed behind a tag.
pub open spec fn loc_pattern_spec<'a>(state: State<'a>, min_indent: u16) -> ParseResult<
    'a,
    Located<PatternModel>,
    SyntaxError<'a>,
>
    decreases left(state), 100int,
    when state.wf()
{
    match pattern_alternatives_spec(state, min_indent, true) {
        Ok(found) => Ok(found),
        Err((p, e, s)) => Err((p, SyntaxError::Pattern(e), s)),
    }
}

/// `(`, a pattern with optional blank space on both sides, and `)`. The
/// outcome is the pattern between the parentheses, with its own region;
/// blank space that holds a line break or a comment is kept around it.
/// Without `(` the parse fails without progress; behind it every failure
/// has progress.
pub open spec fn loc_pattern_in_parens_help_spec<'a>(state: State<'a>, min_indent: u16) -> ParseResult<
    'a,
    Located<PatternModel>,
    PInParens<'a>,
>
    decreases left(state), 30int,
    when state.wf()
{
    match word1_spec(state, OPEN_PAREN) {
        None => Err((Progress::NoProgress, PInParens::Open(state.line, state.column), state)),
        Some(s1) => match space0_spec(s1, min_indent) {
            Err((_, problem, s)) => Err((Progress::MadeProgress, parens_space_error(problem), s)),
            Ok((_, before, s2)) => {
                proof {
                    lemma_space0_advances(s1, min_indent);
                }
                match loc_pattern_spec(s2, min_indent) {
                    Err((_, e, s)) => Err(
                        (Progress::MadeProgress, PInParens::Syntax(&e, s.line, s.column), s),
                    ),
                    Ok((_, node, s3)) => match space0_spec(s3, min_indent) {
                        Err((_, problem, s)) => Err(
                            (Progress::MadeProgress, parens_space_error(problem), s),
                        ),
                        Ok((_, after, s4)) => match word1_spec(s4, CLOSE_PAREN) {
                            None => Err(
                                (Progress::MadeProgress, PInParens::End(s4.line, s4.column), s4),
                            ),
                            Some(s5) => Ok(
                                (
                                    Progress::MadeProgress,
                                    with_spaces_before(with_spaces_after(node, after), before),
                                    s5,
                                ),
                            ),
                        },
                    },
                }
            },
        },
    }
}

/// `{`, fields separated by commas, with an optional comma behind the last,
/// and `}`: a record pattern with the fields in the order they were written.
pub open spec fn record_pattern_help_spec<'a>(state: State<'a>, min_indent: u16) -> ParseResult<
    'a,
    PatternModel,
    PRecord<'a>,
>
    decreases left(state), 30int,
    when state.wf()
{
    match word1_spec(state, OPEN_BRACE) {
        None => Err((Progress::NoProgress, PRecord::Open(state.line, state.column), state)),
        Some(s1) => match record_fields_from(s1, min_indent, Seq::empty()) {
            Ok((_, fields, s)) => Ok(
                (Progress::MadeProgress, PatternModel::RecordDestructure(fields), s),
            ),
            Err(e) => Err(e),
        },
    }
}

/// The rest of a record pattern behind `{` or a comma, where the fields
/// `seen` have been read: optional blank space, then either `}` or a field,
/// optional blank space, and a comma and the rest, or `}`. What is neither
/// `}` nor a field is an error: of the opening brace where no field has been
/// read yet, else of the end. Every failure has progress.
pub open spec fn record_fields_from<'a>(
    state: State<'a>,
    min_indent: u16,
    seen: Seq<Located<PatternModel>>,
) -> ParseResult<'a, Seq<Located<PatternModel>>, PRecord<'a>>
    decreases left(state), 20int,
    when state.wf()
{
    match space0_spec(state, min_indent) {
        Err((_, problem, s)) => Err(
            (Progress::MadeProgress, record_space_error(problem, false), s),
        ),
        Ok((_, before, s1)) => match word1_spec(s1, CLOSE_BRACE) {
            Some(s2) => Ok((Progress::MadeProgress, seen, s2)),
            None => {
                proof {
                    lemma_space0_advances(state, min_indent);
                }
                match record_pattern_field_spec(s1, min_indent) {
                    Err((Progress::NoProgress, _, _)) => Err(
                        (
                            Progress::MadeProgress,
                            if seen.len() == 0 {
                                PRecord::Open(s1.line, s1.column)
                            } else {
                                PRecord::End(s1.line, s1.column)
                            },
                            s1,
                        ),
                    ),
                    Err((Progress::MadeProgress, e, s)) => Err((Progress::MadeProgress, e, s)),
                    Ok((_, value, s2)) => match space0_spec(s2, min_indent) {
                        Err((_, problem, s)) => Err(
                            (Progress::MadeProgress, record_space_error(problem, false), s),
                        ),
                        Ok((_, after, s3)) => {
                            let field = with_spaces_before(
                                with_spaces_after(located(s1, s2, value), after),
                                before,
                            );
                            match word1_spec(s3, COMMA) {
                                Some(s4) => {
                                    if state.moves_on_to(s4) {
                                        record_fields_from(s4, min_indent, seen.push(field))
                                    } else {
                                        Err(
                                            (
                                                Progress::MadeProgress,
                                                PRecord::End(s4.line, s4.column),
                                                s4,
                                            ),
                                        )
                                    }
                                },
                                None => match word1_spec(s3, CLOSE_BRACE) {
                                    Some(s4) => Ok((Progress::MadeProgress, seen.push(field), s4)),
                                    None => Err(
                                        (
                                            Progress::MadeProgress,
                                            PRecord::End(s3.line, s3.column),
                                            s3,
                                        ),
                                    ),
                                },
                            }
                        },
                    },
                }
            },
        },
    }
}

/// One field of a record pattern: a lowercase label, optional blank space,
/// and then `:` and a pattern, or `?` and an expression, or neither. Blank
/// space behind `:` or `?` that holds a line break or a comment is kept
/// before the value. With
/// neither, the field binds a variable named like the label, and blank space
/// behind the label that holds a line break or a comment is kept with it.
/// Without a label the parse fails without progress, with the position where
/// the field was to begin; behind the label every failure has progress.
pub open spec fn record_pattern_field_spec<'a>(state: State<'a>, min_indent: u16) -> ParseResult<
    'a,
    PatternModel,
    PRecord<'a>,
>
    decreases left(state), 10int,
    when state.wf()
{
    match lowercase_ident_spec(state) {
        None => Err((Progress::NoProgress, PRecord::Field(state.line, state.column), state)),
        Some((label, s1)) => match space0_spec(s1, min_indent) {
            Err((_, problem, s)) => Err(
                (Progress::MadeProgress, record_space_error(problem, false), s),
            ),
            Ok((_, spaces, s2)) => match word1_spec(s2, COLON) {
                Some(s3) => match space0_spec(s3, min_indent) {
                    Err((_, problem, s)) => Err(
                        (Progress::MadeProgress, record_space_error(problem, true), s),
                    ),
                    Ok((_, before, s4)) => {
                        proof {
                            lemma_ident_advances(state);
                            lemma_space0_advances(s1, min_indent);
                            lemma_space0_advances(s3, min_indent);
                        }
                        match loc_pattern_spec(s4, min_indent) {
                            Err((_, e, s)) => Err(
                                (Progress::MadeProgress, PRecord::Syntax(&e, s.line, s.column), s),
                            ),
                            Ok((_, value, s5)) => Ok(
                                (
                                    Progress::MadeProgress,
                                    PatternModel::RequiredField(
                                        label,
                                        Box::new(with_spaces_before(value, before)),
                                    ),
                                    s5,
                                ),
                            ),
                        }
                    },
                },
                None => match word1_spec(s2, QUESTION) {
                    Some(s3) => match space0_spec(s3, min_indent) {
                        Err((_, problem, s)) => Err(
                            (Progress::MadeProgress, record_space_error(problem, true), s),
                        ),
                        Ok((_, before, s4)) => match expr_spec(s4, min_indent) {
                            Err((_, e, s)) => Err(
                                (Progress::MadeProgress, PRecord::Syntax(&e, s.line, s.column), s),
                            ),
                            Ok((_, default, s5)) => Ok(
                                (
                                    Progress::MadeProgress,
                                    PatternModel::OptionalField(
                                        label,
                                        located(s4, s5, expr_with_spaces_before(default, before)),
                                    ),
                                    s5,
                                ),
                            ),
                        },
                    },
                    None => Ok(
                        (
                            Progress::MadeProgress,
                            if spaces.len() > 0 {
                                PatternModel::SpaceAfter(
                                    Box::new(PatternModel::Identifier(label)),
                                    spaces,
                                )
                            } else {
                                PatternModel::Identifier(label)
                            },
                            s2,
                        ),
                    ),
                },
            },
        },
    }
}

/// A pattern, as far as `pattern_alternatives_spec` describes it with
/// arguments allowed behind a tag.
pub open spec fn loc_pattern_help_spec<'a>(state: State<'a>, min_indent: u16) -> ParseResult<
    'a,
    Located<PatternModel>,
    EPattern<'a>,
> {
    pattern_alternatives_spec(state, min_indent, true)
}

/// A pattern in the place of an argument of a tag: the alternatives of a
/// pattern, where a tag takes no arguments of its own.
pub open spec fn loc_parse_tag_pattern_arg_spec<'a>(state: State<'a>, min_indent: u16) -> ParseResult<
    'a,
    Located<PatternModel>,
    EPattern<'a>,
> {
    pattern_alternatives_spec(state, min_indent, false)
}

/// The parameter of a closure. Its alternatives, in order: an identifier
/// token, with arguments allowed behind a tag; an underscore; a record
/// pattern; a parenthesized pattern.
pub open spec fn parse_closure_param_spec<'a>(state: State<'a>, min_indent: u16) -> ParseResult<
    'a,
    Located<PatternModel>,
    EPattern<'a>,
> {
    match loc_ident_pattern_help_spec(state, min_indent, true) {
        Ok(found) => Ok(found),
        Err((Progress::MadeProgress, e, s)) => Err((Progress::MadeProgress, e, s)),
        Err((Progress::NoProgress, _, _)) => match loc_spec(
            state,
            underscore_pattern_help_spec(state),
        ) {
            Ok(found) => Ok(found),
            Err((Progress::MadeProgress, e, s)) => Err((Progress::MadeProgress, e, s)),
            Err((Progress::NoProgress, _, _)) => match loc_spec(
                state,
                record_pattern_help_spec(state, min_indent),
            ) {
                Ok(found) => Ok(found),
                Err((Progress::MadeProgress, e, s)) => Err(
                    (Progress::MadeProgress, EPattern::Record(e, s.line, s.column), s),
                ),
                Err((Progress::NoProgress, _, _)) => match loc_pattern_in_parens_help_spec(
                    state,
                    min_indent,
                ) {
                    Ok(found) => Ok(found),
                    Err((p, e, s)) => Err((p, EPattern::PInParens(e, s.line, s.column), s)),
                },
            },
        },
    }
}

/// The parameter of a closure, at the outermost boundary.
pub open spec fn loc_closure_param_spec<'a>(state: State<'a>, min_indent: u16) -> ParseResult<
    'a,
    Located<PatternModel>,
    SyntaxError<'a>,
> {
    match parse_closure_param_spec(state, min_indent) {
        Ok(found) => Ok(found),
        Err((p, e, s)) => Err((p, SyntaxError::Pattern(e), s)),
    }
}

/// An underscore pattern, at the outermost boundary.
pub open spec fn underscore_pattern_spec<'a>(state: State<'a>) -> ParseResult<
    'a,
    PatternModel,
    SyntaxError<'a>,
> {
    match underscore_pattern_help_spec(state) {
        Ok(found) => Ok(found),
        Err((p, e, s)) => Err((p, SyntaxError::Pattern(e), s)),
    }
}

/// A record pattern, at the outermost boundary.
pub open spec fn record_pattern_spec<'a>(state: State<'a>, min_indent: u16) -> ParseResult<
    'a,
    PatternModel,
    SyntaxError<'a>,
> {
    match record_pattern_help_spec(state, min_indent) {
        Ok(found) => Ok(found),
        Err((p, e, s)) => Err((p, SyntaxError::Pattern(EPattern::Record(e, s.line, s.column)), s)),
    }
}

} // verus!
