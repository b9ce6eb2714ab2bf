//! The pattern parsers. Each computes what the grammar function of the same
//! name yields, as nodes in the arena.

use crate::arena::{alloc_in, patterns_in, patterns_new_in, patterns_push, PatternVec};
use crate::ast::{
    all_have_models, located_has_model, trivia_view, CommentOrNewline, Expr, Pattern, PatternModel,
};
use crate::blankspace::{space0_e, SpaceProblem};
use crate::expr::{expr, expr_to_pattern};
use crate::grammar::{
    left, loc_closure_param_spec, loc_ident_pattern_help_spec, loc_parse_tag_pattern_arg_spec,
    loc_pattern_help_spec, loc_pattern_in_parens_help_spec, loc_pattern_spec, loc_spec,
    loc_tag_pattern_arg_spec, loc_tag_pattern_args_help_spec, located,
    lowercase_ident_pattern_spec, number_pattern_help_spec, parens_space_error,
    parse_closure_param_spec, pattern_alternatives_spec, pattern_space_error,
    record_fields_from, record_pattern_field_spec, record_pattern_help_spec,
    record_pattern_spec, record_space_error, string_pattern_help_spec, tag_args_from,
    applied, underscore_pattern_help_spec, underscore_pattern_spec, with_spaces_after,
    with_spaces_before,
};
use crate::ident::{ident, lemma_token_is_text, lowercase_ident, Ident};
use crate::keyword::is_reserved;
use crate::number_literal::number_literal;
use crate::parser::{
    word1, EPattern, PInParens, PRecord, ParseResult, Progress, State, SyntaxError,
};
use crate::region::{regions_of, Located, Region};
use crate::text::{
    ascii_text, CLOSE_BRACE, CLOSE_PAREN, COLON, COMMA, OPEN_BRACE, OPEN_PAREN, QUESTION,
    UNDERSCORE,
};
use bumpalo::Bump;
use vstd::prelude::*;
use vstd::string::StringSliceAdditionalSpecFns;

verus! {

broadcast use vstd::slice::group_slice_axioms;

/// Where a pattern stands. Different patterns are supported in different
/// places: a branch of a `when` can match on a number literal, a definition
/// and a function argument cannot; an underscore can stand as a function
/// argument and in a branch of a `when`, not in a definition.
#[derive(Debug, Clone, Copy, PartialEq, Eq, Hash)]
pub enum PatternType {
    TopLevelDef,
    DefExpr,
    FunctionArg,
    WhenBranch,
}

/// The outcome `r` of a parser is the outcome `m` of the grammar: same
/// progress and cursor, and a node that stands for the model of `m`; or the
/// same failure.
pub open spec fn outcome_has_model<'a, E>(
    r: ParseResult<'a, Pattern<'a>, E>,
    m: ParseResult<'a, PatternModel, E>,
) -> bool {
    match (r, m) {
        (Ok((p, node, s)), Ok((mp, mnode, ms))) => p == mp && s == ms && node.has_model(mnode),
        (Err(e), Err(me)) => e == me,
        _ => false,
    }
}

/// As `outcome_has_model`, for a located node, whose region is that of the
/// model.
pub open spec fn loc_outcome_has_model<'a, E>(
    r: ParseResult<'a, Located<Pattern<'a>>, E>,
    m: ParseResult<'a, Located<PatternModel>, E>,
) -> bool {
    match (r, m) {
        (Ok((p, node, s)), Ok((mp, mnode, ms))) => p == mp && s == ms && located_has_model(
            node,
            mnode,
        ),
        (Err(e), Err(me)) => e == me,
        _ => false,
    }
}

fn pattern_space_problem<'a>(problem: SpaceProblem) -> (e: EPattern<'a>)
    ensures
        e == pattern_space_error::<'a>(problem),
{
    match problem {
        SpaceProblem::BadInput(bad, row, col) => EPattern::Space(bad, row, col),
        SpaceProblem::Indent(row, col) => EPattern::IndentStart(row, col),
    }
}

fn parens_space_problem<'a>(problem: SpaceProblem) -> (e: PInParens<'a>)
    ensures
        e == parens_space_error::<'a>(problem),
{
    match problem {
        SpaceProblem::BadInput(bad, row, col) => PInParens::Space(bad, row, col),
        SpaceProblem::Indent(row, col) => PInParens::IndentEnd(row, col),
    }
}

fn record_space_problem<'a>(problem: SpaceProblem, behind_colon: bool) -> (e: PRecord<'a>)
    ensures
        e == record_space_error::<'a>(problem, behind_colon),
{
    match problem {
        SpaceProblem::BadInput(bad, row, col) => PRecord::Space(bad, row, col),
        SpaceProblem::Indent(row, col) => if behind_colon {
            PRecord::IndentColon(row, col)
        } else {
            PRecord::IndentEnd(row, col)
        },
    }
}

/// Wraps `node` in the trivia that stood before it, where there is any.
fn spaces_before<'a>(
    arena: &'a Bump,
    node: Located<Pattern<'a>>,
    spaces: &'a [CommentOrNewline<'a>],
    Ghost(m): Ghost<Located<PatternModel>>,
) -> (r: Located<Pattern<'a>>)
    requires
        located_has_model(node, m),
    ensures
        located_has_model(r, with_spaces_before(m, trivia_view(spaces@))),
{
    let Located { region, value } = node;
    if spaces.len() == 0 {
        Located::at(region, value)
    } else {
        Located::at(region, Pattern::SpaceBefore(alloc_in(arena, value), spaces))
    }
}

/// Wraps `node` in the trivia that stood behind it, where there is any.
fn spaces_after<'a>(
    arena: &'a Bump,
    node: Located<Pattern<'a>>,
    spaces: &'a [CommentOrNewline<'a>],
    Ghost(m): Ghost<Located<PatternModel>>,
) -> (r: Located<Pattern<'a>>)
    requires
        located_has_model(node, m),
    ensures
        located_has_model(r, with_spaces_after(m, trivia_view(spaces@))),
{
    let Located { region, value } = node;
    if spaces.len() == 0 {
        Located::at(region, value)
    } else {
        Located::at(region, Pattern::SpaceAfter(alloc_in(arena, value), spaces))
    }
}

/// Parses a number literal as a pattern.
pub fn number_pattern_help<'a>(arena: &'a Bump, state: State<'a>) -> (r: ParseResult<
    'a,
    Pattern<'a>,
    EPattern<'a>,
>)
    requires
        state.wf(),
    ensures
        outcome_has_model(r, number_pattern_help_spec(state)),
        r matches Ok((_, _, s)) ==> state.moves_on_to(s),
{
    match number_literal(state) {
        Ok((_, number, s)) => Ok((Progress::MadeProgress, expr_to_pattern(arena, &number), s)),
        Err(_) => Err((Progress::NoProgress, EPattern::Start(state.line, state.column), state)),
    }
}

/// Parses a string literal as a pattern.
pub fn string_pattern_help<'a>(state: State<'a>) -> (r: ParseResult<'a, Pattern<'a>, EPattern<'a>>)
    requires
        state.wf(),
    ensures
        outcome_has_model(r, string_pattern_help_spec(state)),
        r matches Ok((_, _, s)) ==> state.moves_on_to(s),
{
    match crate::string_literal::parse(state) {
        Ok((p, text, s)) => Ok((p, Pattern::StrLiteral(text), s)),
        Err((p, _, s)) => Err((p, EPattern::Start(s.line, s.column), s)),
    }
}

/// Parses a lowercase name that is no reserved word.
pub fn lowercase_ident_pattern<'a>(state: State<'a>) -> (r: ParseResult<'a, &'a str, EPattern<'a>>)
    requires
        state.wf(),
    ensures
        match (r, lowercase_ident_pattern_spec(state)) {
            (Ok((p, name, s)), Ok((mp, m, ms))) => p == mp && name.spec_bytes() == m && s == ms,
            (Err(e), Err(me)) => e == me,
            _ => false,
        },
        r matches Ok((_, _, s)) ==> state.moves_on_to(s),
{
    let row: usize = state.line;
    let col: usize = state.column;
    match lowercase_ident(state) {
        Ok(found) => Ok(found),
        Err((p, _, s)) => Err((p, EPattern::End(row, col), s)),
    }
}

/// Parses `_` or `_name`.
pub fn underscore_pattern_help<'a>(state: State<'a>) -> (r: ParseResult<
    'a,
    Pattern<'a>,
    EPattern<'a>,
>)
    requires
        state.wf(),
    ensures
        outcome_has_model(r, underscore_pattern_help_spec(state)),
        r matches Ok((_, _, s)) ==> state.moves_on_to(s),
{
    match word1(state, UNDERSCORE) {
        None => Err((Progress::NoProgress, EPattern::Underscore(state.line, state.column), state)),
        Some(next_state) => match lowercase_ident_pattern(next_state) {
            Ok((_, name, final_state)) => Ok(
                (Progress::MadeProgress, Pattern::Underscore(name), final_state),
            ),
            Err(_) => {
                proof {
                    reveal_strlit("");
                    assert("".spec_bytes() =~= Seq::<u8>::empty());
                }
                Ok((Progress::MadeProgress, Pattern::Underscore(""), next_state))
            },
        },
    }
}

/// Parses `_` or `_name`, at the outermost boundary.
pub fn underscore_pattern<'a>(state: State<'a>) -> (r: ParseResult<
    'a,
    Pattern<'a>,
    SyntaxError<'a>,
>)
    requires
        state.wf(),
    ensures
        outcome_has_model(r, underscore_pattern_spec(state)),
        r matches Ok((_, _, s)) ==> state.moves_on_to(s),
{
    match underscore_pattern_help(state) {
        Ok(found) => Ok(found),
        Err((p, e, s)) => Err((p, SyntaxError::Pattern(e), s)),
    }
}

/// Gives the value of `r` the region from `start` to where `r` ended.
fn loc<'a, E>(
    start: State<'a>,
    r: ParseResult<'a, Pattern<'a>, E>,
    Ghost(m): Ghost<ParseResult<'a, PatternModel, E>>,
) -> (located_r: ParseResult<'a, Located<Pattern<'a>>, E>)
    requires
        outcome_has_model(r, m),
    ensures
        loc_outcome_has_model(located_r, loc_spec(start, m)),
        located_r matches Ok((_, _, s)) ==> r matches Ok((_, _, rs)) && s == rs,
{
    match r {
        Ok((p, value, s)) => Ok((p, Located::at(start.region_until(&s), value), s)),
        Err(e) => Err(e),
    }
}

/// The tag `loc_tag` with the arguments `loc_args`: the bare tag where there
/// are none, else the tag applied to them.
fn apply_tag<'a>(
    arena: &'a Bump,
    loc_tag: Located<Pattern<'a>>,
    loc_args: PatternVec<'a>,
    Ghost(tag_model): Ghost<Located<PatternModel>>,
    Ghost(arg_models): Ghost<Seq<Located<PatternModel>>>,
) -> (r: Located<Pattern<'a>>)
    requires
        located_has_model(loc_tag, tag_model),
        all_have_models(patterns_in(loc_args), arg_models),
    ensures
        located_has_model(r, applied(tag_model, arg_models)),
{
    let args = loc_args.into_bump_slice();
    if args.len() == 0 {
        loc_tag
    } else {
        let region = Region::across_all(&loc_tag.region, args);
        assert(regions_of(args@) =~= regions_of(arg_models));
        let value = Pattern::Apply(alloc_in(arena, loc_tag), args);
        Located { region, value }
    }
}

/// Parses one identifier token as a pattern; behind a tag it reads the
/// arguments of the tag, where `can_have_arguments` allows them.
pub fn loc_ident_pattern_help<'a>(
    arena: &'a Bump,
    state: State<'a>,
    min_indent: u16,
    can_have_arguments: bool,
) -> (r: ParseResult<'a, Located<Pattern<'a>>, EPattern<'a>>)
    requires
        state.wf(),
    ensures
        loc_outcome_has_model(
            r,
            loc_ident_pattern_help_spec(state, min_indent, can_have_arguments),
        ),
        r matches Ok((_, _, s)) ==> state.moves_on_to(s),
    decreases left(state), (if can_have_arguments {
            80int
        } else {
            0int
        }),
{
    let start = state;
    match ident(state) {
        Err(_) => Err((Progress::NoProgress, EPattern::Start(state.line, state.column), state)),
        Ok((_, found, state)) => {
            proof {
                lemma_token_is_text(start);
            }
            let region = start.region_until(&state);
            match found {
                Ident::GlobalTag(tag) => {
                    let loc_tag = Located { region, value: Pattern::GlobalTag(tag) };
                    let ghost tag_model = located(
                        start,
                        state,
                        PatternModel::GlobalTag(tag.spec_bytes()),
                    );
                    if can_have_arguments {
                        let ghost args = loc_tag_pattern_args_help_spec(state, min_indent);
                        match loc_tag_pattern_args_help(arena, state, min_indent) {
                            Ok((_, loc_args, state)) => Ok(
                                (
                                    Progress::MadeProgress,
                                    apply_tag(
                                        arena,
                                        loc_tag,
                                        loc_args,
                                        Ghost(tag_model),
                                        Ghost(args->Ok_0.1),
                                    ),
                                    state,
                                ),
                            ),
                            Err(e) => Err(e),
                        }
                    } else {
                        Ok((Progress::MadeProgress, loc_tag, state))
                    }
                },
                Ident::PrivateTag(tag) => {
                    let loc_tag = Located { region, value: Pattern::PrivateTag(tag) };
                    let ghost tag_model = located(
                        start,
                        state,
                        PatternModel::PrivateTag(tag.spec_bytes()),
                    );
                    if can_have_arguments {
                        let ghost args = loc_tag_pattern_args_help_spec(state, min_indent);
                        match loc_tag_pattern_args_help(arena, state, min_indent) {
                            Ok((_, loc_args, state)) => Ok(
                                (
                                    Progress::MadeProgress,
                                    apply_tag(
                                        arena,
                                        loc_tag,
                                        loc_args,
                                        Ghost(tag_model),
                                        Ghost(args->Ok_0.1),
                                    ),
                                    state,
                                ),
                            ),
                            Err(e) => Err(e),
                        }
                    } else {
                        Ok((Progress::MadeProgress, loc_tag, state))
                    }
                },
                Ident::Access { module_name, path, part_count } => {
                    // A plain name is a pattern; a qualified or dotted one
                    // is kept as written, for a later stage to reject.
                    if module_name.as_bytes().len() == 0 && part_count == 1 {
                        if is_reserved(path) {
                            Err(
                                (
                                    Progress::NoProgress,
                                    EPattern::End(start.line, start.column),
                                    start,
                                ),
                            )
                        } else {
                            Ok(
                                (
                                    Progress::MadeProgress,
                                    Located { region, value: Pattern::Identifier(path) },
                                    state,
                                ),
                            )
                        }
                    } else {
                        let text = ascii_text(state.bytes, start.offset, state.offset);
                        Ok(
                            (
                                Progress::MadeProgress,
                                Located { region, value: Pattern::Malformed(text) },
                                state,
                            ),
                        )
                    }
                },
                Ident::AccessorFunction(_) => {
                    let text = ascii_text(state.bytes, start.offset, state.offset);
                    Ok(
                        (
                            Progress::MadeProgress,
                            Located { region, value: Pattern::Malformed(text) },
                            state,
                        ),
                    )
                },
                Ident::Malformed(_) => Err(
                    (Progress::MadeProgress, EPattern::Start(state.line, state.column), state),
                ),
            }
        },
    }
}

/// Parses the arguments of a tag: as many as stand one behind the other.
/// An argument that fails with progress fails the arguments.
pub fn loc_tag_pattern_args_help<'a>(arena: &'a Bump, state: State<'a>, min_indent: u16) -> (r:
    ParseResult<'a, PatternVec<'a>, EPattern<'a>>)
    requires
        state.wf(),
    ensures
        match (r, loc_tag_pattern_args_help_spec(state, min_indent)) {
            (Ok((p, args, s)), Ok((mp, models, ms))) => p == mp && s == ms && all_have_models(
                patterns_in(args),
                models,
            ),
            (Err(e), Err(me)) => e == me,
            _ => false,
        },
        r matches Ok((_, _, s)) ==> s.wf() && state.reaches(s),
    decreases left(state), 75int,
{
    let mut args = patterns_new_in(arena);
    let ghost mut models: Seq<Located<PatternModel>> = Seq::empty();
    let mut progress = Progress::NoProgress;
    let mut current = state;
    loop
        invariant
            state.wf(),
            current.wf(),
            state.reaches(current),
            all_have_models(patterns_in(args), models),
            models.len() <= current.offset - state.offset,
            progress == Progress::NoProgress <==> models.len() == 0,
            tag_args_from(state, min_indent, Seq::empty()) == tag_args_from(
                current,
                min_indent,
                models,
            ),
        ensures
            tag_args_from(state, min_indent, Seq::empty()) == Ok::<
                _,
                (Progress, EPattern<'a>, State<'a>),
            >((progress, models, current)),
        decreases left(current),
    {
        let ghost outcome = loc_tag_pattern_arg_spec(current, min_indent);
        match loc_tag_pattern_arg(arena, current, min_indent) {
            Ok((_, arg, next)) => {
                proof {
                    models = models.push(outcome->Ok_0.1);
                }
                patterns_push(&mut args, arg);
                progress = Progress::MadeProgress;
                current = next;
            },
            Err((Progress::NoProgress, _, _)) => {
                break ;
            },
            Err((Progress::MadeProgress, e, s)) => {
                return Err((Progress::MadeProgress, e, s));
            },
        }
    }
    Ok((progress, args, current))
}

/// Parses one argument of a tag. The blank space before it is speculative:
/// where no pattern begins behind it, the cursor is where it was.
pub fn loc_tag_pattern_arg<'a>(arena: &'a Bump, state: State<'a>, min_indent: u16) -> (r:
    ParseResult<'a, Located<Pattern<'a>>, EPattern<'a>>)
    requires
        state.wf(),
    ensures
        loc_outcome_has_model(r, loc_tag_pattern_arg_spec(state, min_indent)),
        r matches Ok((_, _, s)) ==> state.moves_on_to(s),
        r matches Err((p, _, s)) ==> (p == Progress::NoProgress ==> s == state),
    decreases left(state), 60int,
{
    // An operator binds less tightly than the application of a tag: where
    // one stands, no pattern begins, and the arguments end.
    match space0_e(arena, state, min_indent) {
        Err((_, problem, _)) => Err(
            (Progress::NoProgress, pattern_space_problem(problem), state),
        ),
        Ok((_, spaces, after_spaces)) => {
            let ghost outcome = pattern_alternatives_spec(after_spaces, min_indent, false);
            match loc_parse_tag_pattern_arg(arena, after_spaces, min_indent) {
                Err((Progress::NoProgress, e, _)) => Err((Progress::NoProgress, e, state)),
                Err((Progress::MadeProgress, e, s)) => Err((Progress::MadeProgress, e, s)),
                Ok((_, loc_pat, state)) => Ok(
                    (
                        Progress::MadeProgress,
                        spaces_before(arena, loc_pat, spaces, Ghost(outcome->Ok_0.1)),
                        state,
                    ),
                ),
            }
        },
    }
}

/// Tries the alternatives of a pattern in order: a parenthesized pattern,
/// an underscore, an identifier token, a record pattern, a string literal, a
/// number literal.
fn pattern_alternatives<'a>(
    arena: &'a Bump,
    state: State<'a>,
    min_indent: u16,
    can_have_arguments: bool,
) -> (r: ParseResult<'a, Located<Pattern<'a>>, EPattern<'a>>)
    requires
        state.wf(),
    ensures
        loc_outcome_has_model(r, pattern_alternatives_spec(state, min_indent, can_have_arguments)),
        r matches Ok((_, _, s)) ==> state.moves_on_to(s),
    decreases left(state), (if can_have_arguments {
            90int
        } else {
            50int
        }),
{
    match loc_pattern_in_parens_help(arena, state, min_indent) {
        Ok(found) => {
            return Ok(found);
        },
        Err((Progress::MadeProgress, e, s)) => {
            return Err((Progress::MadeProgress, EPattern::PInParens(e, s.line, s.column), s));
        },
        Err((Progress::NoProgress, _, _)) => {},
    }
    match loc(state, underscore_pattern_help(state), Ghost(underscore_pattern_help_spec(state))) {
        Ok(found) => {
            return Ok(found);
        },
        Err((Progress::MadeProgress, e, s)) => {
            return Err((Progress::MadeProgress, e, s));
        },
        Err((Progress::NoProgress, _, _)) => {},
    }
    match loc_ident_pattern_help(arena, state, min_indent, can_have_arguments) {
        Ok(found) => {
            return Ok(found);
        },
        Err((Progress::MadeProgress, e, s)) => {
            return Err((Progress::MadeProgress, e, s));
        },
        Err((Progress::NoProgress, _, _)) => {},
    }
    match loc(
        state,
        record_pattern_help(arena, state, min_indent),
        Ghost(record_pattern_help_spec(state, min_indent)),
    ) {
        Ok(found) => {
            return Ok(found);
        },
        Err((Progress::MadeProgress, e, s)) => {
            return Err((Progress::MadeProgress, EPattern::Record(e, s.line, s.column), s));
        },
        Err((Progress::NoProgress, _, _)) => {},
    }
    match loc(state, string_pattern_help(state), Ghost(string_pattern_help_spec(state))) {
        Ok(found) => {
            return Ok(found);
        },
        Err((Progress::MadeProgress, e, s)) => {
            return Err((Progress::MadeProgress, e, s));
        },
        Err((Progress::NoProgress, _, _)) => {},
    }
    loc(state, number_pattern_help(arena, state), Ghost(number_pattern_help_spec(state)))
}

/// Parses a pattern in the place of an argument of a tag. A tag in this
/// place takes no arguments of its own, so that `Foo Bar 1` is `Foo` applied
/// to `Bar` and `1`.
pub fn loc_parse_tag_pattern_arg<'a>(arena: &'a Bump, state: State<'a>, min_indent: u16) -> (r:
    ParseResult<'a, Located<Pattern<'a>>, EPattern<'a>>)
    requires
        state.wf(),
    ensures
        loc_outcome_has_model(r, loc_parse_tag_pattern_arg_spec(state, min_indent)),
        r matches Ok((_, _, s)) ==> state.moves_on_to(s),
    decreases left(state), 55int,
{
    pattern_alternatives(arena, state, min_indent, false)
}

/// Parses a pattern.
pub fn loc_pattern_help<'a>(arena: &'a Bump, state: State<'a>, min_indent: u16) -> (r: ParseResult<
    'a,
    Located<Pattern<'a>>,
    EPattern<'a>,
>)
    requires
        state.wf(),
    ensures
        loc_outcome_has_model(r, loc_pattern_help_spec(state, min_indent)),
        r matches Ok((_, _, s)) ==> state.moves_on_to(s),
    decreases left(state), 95int,
{
    pattern_alternatives(arena, state, min_indent, true)
}

/// Parses a pattern, at the outermost boundary.
pub fn loc_pattern<'a>(arena: &'a Bump, state: State<'a>, min_indent: u16) -> (r: ParseResult<
    'a,
    Located<Pattern<'a>>,
    SyntaxError<'a>,
>)
    requires
        state.wf(),
    ensures
        loc_outcome_has_model(r, loc_pattern_spec(state, min_indent)),
        r matches Ok((_, _, s)) ==> state.moves_on_to(s),
    decreases left(state), 100int,
{
    match loc_pattern_help(arena, state, min_indent) {
        Ok(found) => Ok(found),
        Err((p, e, s)) => Err((p, SyntaxError::Pattern(e), s)),
    }
}

/// Parses a pattern between parentheses.
pub fn loc_pattern_in_parens_help<'a>(arena: &'a Bump, state: State<'a>, min_indent: u16) -> (r:
    ParseResult<'a, Located<Pattern<'a>>, PInParens<'a>>)
    requires
        state.wf(),
    ensures
        loc_outcome_has_model(r, loc_pattern_in_parens_help_spec(state, min_indent)),
        r matches Ok((_, _, s)) ==> state.moves_on_to(s),
    decreases left(state), 30int,
{
    let s1 = match word1(state, OPEN_PAREN) {
        None => {
            return Err((Progress::NoProgress, PInParens::Open(state.line, state.column), state));
        },
        Some(s) => s,
    };
    let (before, s2) = match space0_e(arena, s1, min_indent) {
        Err((_, problem, s)) => {
            return Err((Progress::MadeProgress, parens_space_problem(problem), s));
        },
        Ok((_, spaces, s)) => (spaces, s),
    };
    let ghost inner = loc_pattern_spec(s2, min_indent);
    let (node, s3) = match loc_pattern(arena, s2, min_indent) {
        Err((_, e, s)) => {
            return Err(
                (Progress::MadeProgress, PInParens::Syntax(alloc_in(arena, e), s.line, s.column), s),
            );
        },
        Ok((_, node, s)) => (node, s),
    };
    let (after, s4) = match space0_e(arena, s3, min_indent) {
        Err((_, problem, s)) => {
            return Err((Progress::MadeProgress, parens_space_problem(problem), s));
        },
        Ok((_, spaces, s)) => (spaces, s),
    };
    match word1(s4, CLOSE_PAREN) {
        None => Err((Progress::MadeProgress, PInParens::End(s4.line, s4.column), s4)),
        Some(s5) => {
            let ghost model = inner->Ok_0.1;
            let wrapped = spaces_after(arena, node, after, Ghost(model));
            Ok(
                (
                    Progress::MadeProgress,
                    spaces_before(
                        arena,
                        wrapped,
                        before,
                        Ghost(with_spaces_after(model, trivia_view(after@))),
                    ),
                    s5,
                ),
            )
        },
    }
}

/// Parses one field of a record pattern.
pub fn record_pattern_field<'a>(arena: &'a Bump, state: State<'a>, min_indent: u16) -> (r:
    ParseResult<'a, Pattern<'a>, PRecord<'a>>)
    requires
        state.wf(),
    ensures
        outcome_has_model(r, record_pattern_field_spec(state, min_indent)),
        r matches Ok((_, _, s)) ==> state.moves_on_to(s),
    decreases left(state), 10int,
{
    // A field has a label, such as `email`. Its position is where the field
    // begins, which is what an error about the label points at.
    let row: usize = state.line;
    let col: usize = state.column;
    let (label, s1) = match lowercase_ident(state) {
        Err(_) => {
            return Err((Progress::NoProgress, PRecord::Field(row, col), state));
        },
        Ok((_, label, s)) => (label, s),
    };
    let (spaces, s2) = match space0_e(arena, s1, min_indent) {
        Err((_, problem, s)) => {
            return Err((Progress::MadeProgress, record_space_problem(problem, false), s));
        },
        Ok((_, spaces, s)) => (spaces, s),
    };
    // A value is optional: both `{ email }` and `{ email: address }` work.
    if let Some(s3) = word1(s2, COLON) {
        let (before, s4) = match space0_e(arena, s3, min_indent) {
            Err((_, problem, s)) => {
                return Err((Progress::MadeProgress, record_space_problem(problem, true), s));
            },
            Ok((_, spaces, s)) => (spaces, s),
        };
        let ghost inner = loc_pattern_spec(s4, min_indent);
        match loc_pattern(arena, s4, min_indent) {
            Err((_, e, s)) => Err(
                (Progress::MadeProgress, PRecord::Syntax(alloc_in(arena, e), s.line, s.column), s),
            ),
            Ok((_, loc_val, s5)) => {
                let value = spaces_before(arena, loc_val, before, Ghost(inner->Ok_0.1));
                Ok(
                    (
                        Progress::MadeProgress,
                        Pattern::RequiredField(label, alloc_in(arena, value)),
                        s5,
                    ),
                )
            },
        }
    } else if let Some(s3) = word1(s2, QUESTION) {
        let (before, s4) = match space0_e(arena, s3, min_indent) {
            Err((_, problem, s)) => {
                return Err((Progress::MadeProgress, record_space_problem(problem, true), s));
            },
            Ok((_, spaces, s)) => (spaces, s),
        };
        match expr(s4, min_indent) {
            Err((_, e, s)) => Err(
                (Progress::MadeProgress, PRecord::Syntax(alloc_in(arena, e), s.line, s.column), s),
            ),
            Ok((_, default, s5)) => {
                let value = if before.len() == 0 {
                    default
                } else {
                    Expr::SpaceBefore(alloc_in(arena, default), before)
                };
                let loc_val = Located::at(s4.region_until(&s5), value);
                Ok(
                    (
                        Progress::MadeProgress,
                        Pattern::OptionalField(label, alloc_in(arena, loc_val)),
                        s5,
                    ),
                )
            },
        }
    } else {
        // Without a value the field binds a variable named like the label.
        assert(Pattern::Identifier(label).has_model(PatternModel::Identifier(label.spec_bytes())));
        let value = if spaces.len() > 0 {
            Pattern::SpaceAfter(alloc_in(arena, Pattern::Identifier(label)), spaces)
        } else {
            Pattern::Identifier(label)
        };
        Ok((Progress::MadeProgress, value, s2))
    }
}

/// Parses a record pattern.
#[verifier::loop_isolation(false)]
pub fn record_pattern_help<'a>(arena: &'a Bump, state: State<'a>, min_indent: u16) -> (r:
    ParseResult<'a, Pattern<'a>, PRecord<'a>>)
    requires
        state.wf(),
    ensures
        outcome_has_model(r, record_pattern_help_spec(state, min_indent)),
        r matches Ok((_, _, s)) ==> state.moves_on_to(s),
    decreases left(state), 30int,
{
    let opened = match word1(state, OPEN_BRACE) {
        None => {
            return Err((Progress::NoProgress, PRecord::Open(state.line, state.column), state));
        },
        Some(s) => s,
    };
    let mut fields = patterns_new_in(arena);
    let ghost mut models: Seq<Located<PatternModel>> = Seq::empty();
    let mut any_field = false;
    let mut current = opened;
    loop
        invariant
            current.wf(),
            opened.reaches(current),
            all_have_models(patterns_in(fields), models),
            models.len() <= current.offset - opened.offset,
            any_field <==> models.len() > 0,
            record_fields_from(opened, min_indent, Seq::empty()) == record_fields_from(
                current,
                min_indent,
                models,
            ),
        decreases left(current),
    {
        let (before, s1) = match space0_e(arena, current, min_indent) {
            Err((_, problem, s)) => {
                return Err((Progress::MadeProgress, record_space_problem(problem, false), s));
            },
            Ok((_, spaces, s)) => (spaces, s),
        };
        if let Some(s2) = word1(s1, CLOSE_BRACE) {
            let value = Pattern::RecordDestructure(fields.into_bump_slice());
            return Ok((Progress::MadeProgress, value, s2));
        }
        let ghost outcome = record_pattern_field_spec(s1, min_indent);
        let (value, s2) = match record_pattern_field(arena, s1, min_indent) {
            Err((Progress::NoProgress, _, _)) => {
                let e = if any_field {
                    PRecord::End(s1.line, s1.column)
                } else {
                    PRecord::Open(s1.line, s1.column)
                };
                return Err((Progress::MadeProgress, e, s1));
            },
            Err((Progress::MadeProgress, e, s)) => {
                return Err((Progress::MadeProgress, e, s));
            },
            Ok((_, value, s)) => (value, s),
        };
        let (after, s3) = match space0_e(arena, s2, min_indent) {
            Err((_, problem, s)) => {
                return Err((Progress::MadeProgress, record_space_problem(problem, false), s));
            },
            Ok((_, spaces, s)) => (spaces, s),
        };
        let ghost bare = located(s1, s2, outcome->Ok_0.1);
        let inner = spaces_after(
            arena,
            Located::at(s1.region_until(&s2), value),
            after,
            Ghost(bare),
        );
        let field = spaces_before(
            arena,
            inner,
            before,
            Ghost(with_spaces_after(bare, trivia_view(after@))),
        );
        let ghost field_model = with_spaces_before(
            with_spaces_after(bare, trivia_view(after@)),
            trivia_view(before@),
        );
        if let Some(s4) = word1(s3, COMMA) {
            patterns_push(&mut fields, field);
            proof {
                models = models.push(field_model);
            }
            any_field = true;
            current = s4;
        } else if let Some(s4) = word1(s3, CLOSE_BRACE) {
            patterns_push(&mut fields, field);
            proof {
                models = models.push(field_model);
            }
            let value = Pattern::RecordDestructure(fields.into_bump_slice());
            return Ok((Progress::MadeProgress, value, s4));
        } else {
            return Err((Progress::MadeProgress, PRecord::End(s3.line, s3.column), s3));
        }
    }
}

/// Parses a record pattern, at the outermost boundary.
pub fn record_pattern<'a>(arena: &'a Bump, state: State<'a>, min_indent: u16) -> (r: ParseResult<
    'a,
    Pattern<'a>,
    SyntaxError<'a>,
>)
    requires
        state.wf(),
    ensures
        outcome_has_model(r, record_pattern_spec(state, min_indent)),
        r matches Ok((_, _, s)) ==> state.moves_on_to(s),
{
    match record_pattern_help(arena, state, min_indent) {
        Ok(found) => Ok(found),
        Err((p, e, s)) => Err((p, SyntaxError::Pattern(EPattern::Record(e, s.line, s.column)), s)),
    }
}

/// Parses the parameter of a closure.
pub fn parse_closure_param<'a>(arena: &'a Bump, state: State<'a>, min_indent: u16) -> (r:
    ParseResult<'a, Located<Pattern<'a>>, EPattern<'a>>)
    requires
        state.wf(),
    ensures
        loc_outcome_has_model(r, parse_closure_param_spec(state, min_indent)),
        r matches Ok((_, _, s)) ==> state.moves_on_to(s),
{
    // An identifier is the most common parameter, as in `\foo -> ...`.
    match loc_ident_pattern_help(arena, state, min_indent, true) {
        Ok(found) => {
            return Ok(found);
        },
        Err((Progress::MadeProgress, e, s)) => {
            return Err((Progress::MadeProgress, e, s));
        },
        Err((Progress::NoProgress, _, _)) => {},
    }
    // An underscore is common too, as in `\_ -> ...`.
    match loc(state, underscore_pattern_help(state), Ghost(underscore_pattern_help_spec(state))) {
        Ok(found) => {
            return Ok(found);
        },
        Err((Progress::MadeProgress, e, s)) => {
            return Err((Progress::MadeProgress, e, s));
        },
        Err((Progress::NoProgress, _, _)) => {},
    }
    // A record can be destructured in place, as in `\{ x, y } -> ...`.
    match loc(
        state,
        record_pattern_help(arena, state, min_indent),
        Ghost(record_pattern_help_spec(state, min_indent)),
    ) {
        Ok(found) => {
            return Ok(found);
        },
        Err((Progress::MadeProgress, e, s)) => {
            return Err((Progress::MadeProgress, EPattern::Record(e, s.line, s.column), s));
        },
        Err((Progress::NoProgress, _, _)) => {},
    }
    // Between parentheses any pattern at all can stand.
    match loc_pattern_in_parens_help(arena, state, min_indent) {
        Ok(found) => Ok(found),
        Err((p, e, s)) => Err((p, EPattern::PInParens(e, s.line, s.column), s)),
    }
}

/// Parses the parameter of a closure, at the outermost boundary.
pub fn loc_closure_param<'a>(arena: &'a Bump, state: State<'a>, min_indent: u16) -> (r:
    ParseResult<'a, Located<Pattern<'a>>, SyntaxError<'a>>)
    requires
        state.wf(),
    ensures
        loc_outcome_has_model(r, loc_closure_param_spec(state, min_indent)),
        r matches Ok((_, _, s)) ==> state.moves_on_to(s),
{
    match parse_closure_param(arena, state, min_indent) {
        Ok(found) => Ok(found),
        Err((p, e, s)) => Err((p, SyntaxError::Pattern(e), s)),
    }
}


} // verus!
