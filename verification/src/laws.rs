//! What holds of every parse: where the regions of a tree lie, and how the
//! identifier token under the cursor decides the outcome.

use crate::ast::{well_located, PatternModel};
use crate::blankspace::{lemma_space0_advances, space0_spec};
use crate::expr::lemma_expr_advances;
use crate::grammar::{
    applied, left, loc_closure_param_spec, loc_ident_pattern_help_spec,
    loc_pattern_help_spec, loc_pattern_in_parens_help_spec, loc_pattern_spec, loc_spec,
    loc_tag_pattern_arg_spec, loc_tag_pattern_args_help_spec, located, number_pattern_help_spec,
    parse_closure_param_spec, pattern_alternatives_spec, record_fields_from,
    record_pattern_field_spec, record_pattern_help_spec, record_pattern_spec,
    string_pattern_help_spec, tag_args_from, underscore_pattern_help_spec,
    underscore_pattern_spec, with_spaces_after, with_spaces_before,
};
use crate::ident::{
    ident_spec, lemma_bare_name_is_access, lemma_ident_advances, lowercase_ident_spec, token_end,
    IdentModel,
};
use crate::keyword::is_keyword;
use crate::number_literal::lemma_number_advances;
use crate::parser::{
    word1_spec, EPattern, ParseResult, Progress, State, SyntaxError,
};
use crate::region::{pos_le, regions_of, Located, Region};
use crate::string_literal::lemma_string_advances;
use crate::text::{
    is_lower, run_end, ByteClass, UNDERSCORE, CLOSE_BRACE, CLOSE_PAREN, COLON, COMMA, OPEN_BRACE, OPEN_PAREN,
    QUESTION,
};
use vstd::prelude::*;

verus! {

/// A successful outcome `r` of a parse that began at `state` has moved the
/// cursor on, and its node is well located within what was read.
pub open spec fn sound_located<'a, E>(
    state: State<'a>,
    r: ParseResult<'a, Located<PatternModel>, E>,
) -> bool {
    r matches Ok((_, node, s)) ==> {
        &&& state.moves_on_to(s)
        &&& state.region_to(s).covers(node.region)
        &&& well_located(node.region, node.value)
    }
}

/// As `sound_located`, for a value that takes the whole region that was
/// read.
pub open spec fn sound_value<'a, E>(state: State<'a>, r: ParseResult<'a, PatternModel, E>) -> bool {
    r matches Ok((_, value, s)) ==> state.moves_on_to(s) && well_located(state.region_to(s), value)
}

/// The nodes `items` were read one behind the other, behind the region
/// `first` and before the cursor `end`, and each is well located.
pub open spec fn read_in_order<'a>(
    first: Region,
    items: Seq<Located<PatternModel>>,
    end: State<'a>,
) -> bool {
    &&& first.ordered()
    &&& pos_le(first.end_line as int, first.end_col as int, end.line as int, end.column as int)
    &&& forall|i: int|
        0 <= i < items.len() ==> {
            &&& well_located((#[trigger] items[i]).region, items[i].value)
            &&& first.precedes(items[i].region)
            &&& pos_le(
                items[i].region.end_line as int,
                items[i].region.end_col as int,
                end.line as int,
                end.column as int,
            )
        }
    &&& forall|i: int, j: int|
        0 <= i < j < items.len() ==> (#[trigger] items[i]).region.precedes(
            (#[trigger] items[j]).region,
        )
}

/// The nodes `items` were read between the cursors `origin` and `end`, and
/// each is well located.
pub open spec fn read_within<'a>(
    origin: State<'a>,
    items: Seq<Located<PatternModel>>,
    end: State<'a>,
) -> bool {
    forall|i: int|
        0 <= i < items.len() ==> {
            &&& well_located((#[trigger] items[i]).region, items[i].value)
            &&& origin.region_to(end).covers(items[i].region)
        }
}

/// Trivia around a node leave its region and its location as they are.
proof fn lemma_spaces_keep_location(
    node: Located<PatternModel>,
    spaces: Seq<crate::ast::TriviaModel>,
)
    requires
        well_located(node.region, node.value),
    ensures
        with_spaces_before(node, spaces).region == node.region,
        with_spaces_after(node, spaces).region == node.region,
        well_located(node.region, with_spaces_before(node, spaces).value),
        well_located(node.region, with_spaces_after(node, spaces).value),
{
}

proof fn lemma_leaves_sound<'a>(state: State<'a>)
    requires
        state.wf(),
    ensures
        sound_value(state, underscore_pattern_help_spec(state)),
        sound_value(state, string_pattern_help_spec(state)),
        sound_value(state, number_pattern_help_spec(state)),
        sound_located(state, loc_spec(state, underscore_pattern_help_spec(state))),
        sound_located(state, loc_spec(state, string_pattern_help_spec(state))),
        sound_located(state, loc_spec(state, number_pattern_help_spec(state))),
{
    lemma_number_advances(state);
    lemma_string_advances(state);
    if let Some(s1) = word1_spec(state, crate::text::UNDERSCORE) {
        lemma_ident_advances(s1);
    }
}

proof fn lemma_ident_sound<'a>(state: State<'a>, min_indent: u16, can_have_arguments: bool)
    requires
        state.wf(),
    ensures
        sound_located(state, loc_ident_pattern_help_spec(state, min_indent, can_have_arguments)),
    decreases left(state), (if can_have_arguments {
            80int
        } else {
            0int
        }),
{
    lemma_ident_advances(state);
    if let Some((ident, s1)) = ident_spec(state) {
        let first = state.region_to(s1);
        if (ident is GlobalTag || ident is PrivateTag) && can_have_arguments {
            let tag = if ident is GlobalTag {
                PatternModel::GlobalTag(ident->GlobalTag_0)
            } else {
                PatternModel::PrivateTag(ident->PrivateTag_0)
            };
            let none = Seq::<Located<PatternModel>>::empty();
            assert(read_in_order(first, none, s1));
            lemma_tag_args_sound(s1, min_indent, none, first);
            if let Ok((_, args, s2)) = tag_args_from(s1, min_indent, none) {
                lemma_applied_sound(located(state, s1, tag), args, s2);
            }
        }
    }
}

/// A tag with arguments that were read in order behind it is well located,
/// and ends where the last argument ends.
proof fn lemma_applied_sound<'a>(
    loc_tag: Located<PatternModel>,
    args: Seq<Located<PatternModel>>,
    end: State<'a>,
)
    requires
        loc_tag.value is GlobalTag || loc_tag.value is PrivateTag,
        read_in_order(loc_tag.region, args, end),
    ensures
        well_located(applied(loc_tag, args).region, applied(loc_tag, args).value),
        applied(loc_tag, args).region.start_line == loc_tag.region.start_line,
        applied(loc_tag, args).region.start_col == loc_tag.region.start_col,
        pos_le(
            applied(loc_tag, args).region.end_line as int,
            applied(loc_tag, args).region.end_col as int,
            end.line as int,
            end.column as int,
        ),
{
    if args.len() > 0 {
        let region = applied(loc_tag, args).region;
        let last = args.len() - 1;
        assert(regions_of(args).last() == args[last].region);
        assert(well_located(args[last].region, args[last].value));
        assert forall|i: int| 0 <= i < args.len() implies region.covers(
            (#[trigger] args[i]).region,
        ) && well_located(args[i].region, args[i].value) by {
            assert(well_located(args[i].region, args[i].value));
            if i < last {
                assert(args[i].region.precedes(args[last].region));
            }
        }
        assert(well_located(loc_tag.region, loc_tag.value));
    }
}

proof fn lemma_tag_args_sound<'a>(
    state: State<'a>,
    min_indent: u16,
    seen: Seq<Located<PatternModel>>,
    first: Region,
)
    requires
        state.wf(),
        read_in_order(first, seen, state),
    ensures
        tag_args_from(state, min_indent, seen) matches Ok((p, args, s)) ==> {
            &&& s.wf()
            &&& state.reaches(s)
            &&& read_in_order(first, args, s)
            &&& args.len() >= seen.len()
            &&& (args.len() == seen.len() ==> s == state && args == seen)
            &&& (p == Progress::NoProgress <==> args.len() == 0)
        },
        tag_args_from(state, min_indent, seen) matches Err((p, _, _)) ==> p
            == Progress::MadeProgress,
    decreases left(state), 70int,
{
    lemma_tag_arg_sound(state, min_indent);
    if let Ok((_, arg, s1)) = loc_tag_pattern_arg_spec(state, min_indent) {
        let next = seen.push(arg);
        assert(read_in_order(first, next, s1)) by {
            assert forall|i: int| 0 <= i < next.len() implies {
                &&& well_located((#[trigger] next[i]).region, next[i].value)
                &&& first.precedes(next[i].region)
                &&& pos_le(
                    next[i].region.end_line as int,
                    next[i].region.end_col as int,
                    s1.line as int,
                    s1.column as int,
                )
            } by {
                if i < seen.len() {
                    assert(next[i] == seen[i]);
                }
            }
            assert forall|i: int, j: int| 0 <= i < j < next.len() implies (#[trigger] next[i]).region.precedes(
                (#[trigger] next[j]).region,
            ) by {
                assert(next[i] == seen[i]);
                if j < seen.len() {
                    assert(next[j] == seen[j]);
                }
            }
        }
        lemma_tag_args_sound(s1, min_indent, next, first);
    }
}

proof fn lemma_tag_arg_sound<'a>(state: State<'a>, min_indent: u16)
    requires
        state.wf(),
    ensures
        sound_located(state, loc_tag_pattern_arg_spec(state, min_indent)),
    decreases left(state), 60int,
{
    lemma_space0_advances(state, min_indent);
    if let Ok((_, spaces, s1)) = space0_spec(state, min_indent) {
        lemma_alternatives_sound(s1, min_indent, false);
    }
}

proof fn lemma_alternatives_sound<'a>(state: State<'a>, min_indent: u16, can_have_arguments: bool)
    requires
        state.wf(),
    ensures
        sound_located(state, pattern_alternatives_spec(state, min_indent, can_have_arguments)),
    decreases left(state), (if can_have_arguments {
            90int
        } else {
            50int
        }),
{
    lemma_parens_sound(state, min_indent);
    lemma_leaves_sound(state);
    lemma_ident_sound(state, min_indent, can_have_arguments);
    lemma_record_sound(state, min_indent);
}

proof fn lemma_loc_pattern_sound<'a>(state: State<'a>, min_indent: u16)
    requires
        state.wf(),
    ensures
        sound_located(state, loc_pattern_spec(state, min_indent)),
    decreases left(state), 100int,
{
    lemma_alternatives_sound(state, min_indent, true);
}

proof fn lemma_parens_sound<'a>(state: State<'a>, min_indent: u16)
    requires
        state.wf(),
    ensures
        sound_located(state, loc_pattern_in_parens_help_spec(state, min_indent)),
    decreases left(state), 30int,
{
    if let Some(s1) = word1_spec(state, OPEN_PAREN) {
        lemma_space0_advances(s1, min_indent);
        if let Ok((_, before, s2)) = space0_spec(s1, min_indent) {
            lemma_loc_pattern_sound(s2, min_indent);
            if let Ok((_, node, s3)) = loc_pattern_spec(s2, min_indent) {
                lemma_space0_advances(s3, min_indent);
                if let Ok((_, after, s4)) = space0_spec(s3, min_indent) {
                    lemma_spaces_keep_location(node, after);
                    lemma_spaces_keep_location(with_spaces_after(node, after), before);
                }
            }
        }
    }
}

proof fn lemma_record_sound<'a>(state: State<'a>, min_indent: u16)
    requires
        state.wf(),
    ensures
        sound_value(state, record_pattern_help_spec(state, min_indent)),
        sound_located(state, loc_spec(state, record_pattern_help_spec(state, min_indent))),
    decreases left(state), 30int,
{
    if let Some(s1) = word1_spec(state, OPEN_BRACE) {
        let none = Seq::<Located<PatternModel>>::empty();
        assert(read_within(s1, none, s1));
        lemma_record_fields_sound(s1, min_indent, none, s1);
    }
}

/// Nodes read up to `before` and one more read up to `end` were all read
/// up to `end`.
proof fn lemma_read_within_push<'a>(
    origin: State<'a>,
    seen: Seq<Located<PatternModel>>,
    before: State<'a>,
    field: Located<PatternModel>,
    end: State<'a>,
)
    requires
        read_within(origin, seen, before),
        before.reaches(end),
        well_located(field.region, field.value),
        origin.region_to(end).covers(field.region),
    ensures
        read_within(origin, seen.push(field), end),
{
    let next = seen.push(field);
    assert forall|i: int| 0 <= i < next.len() implies {
        &&& well_located((#[trigger] next[i]).region, next[i].value)
        &&& origin.region_to(end).covers(next[i].region)
    } by {
        if i < seen.len() {
            assert(next[i] == seen[i]);
        }
    }
}

proof fn lemma_record_fields_sound<'a>(
    state: State<'a>,
    min_indent: u16,
    seen: Seq<Located<PatternModel>>,
    origin: State<'a>,
)
    requires
        state.wf(),
        origin.reaches(state),
        read_within(origin, seen, state),
    ensures
        record_fields_from(state, min_indent, seen) matches Ok((_, fields, s)) ==> {
            &&& state.moves_on_to(s)
            &&& read_within(origin, fields, s)
        },
    decreases left(state), 20int,
{
    lemma_space0_advances(state, min_indent);
    if let Ok((_, before, s1)) = space0_spec(state, min_indent) {
        if word1_spec(s1, CLOSE_BRACE) is None {
            lemma_record_field_sound(s1, min_indent);
            if let Ok((_, value, s2)) = record_pattern_field_spec(s1, min_indent) {
                lemma_space0_advances(s2, min_indent);
                if let Ok((_, after, s3)) = space0_spec(s2, min_indent) {
                    let field = with_spaces_before(
                        with_spaces_after(located(s1, s2, value), after),
                        before,
                    );
                    lemma_spaces_keep_location(located(s1, s2, value), after);
                    lemma_spaces_keep_location(
                        with_spaces_after(located(s1, s2, value), after),
                        before,
                    );
                    let next = seen.push(field);
                    if let Some(s4) = word1_spec(s3, COMMA) {
                        lemma_read_within_push(origin, seen, state, field, s4);
                        lemma_record_fields_sound(s4, min_indent, next, origin);
                    } else if let Some(s4) = word1_spec(s3, CLOSE_BRACE) {
                        lemma_read_within_push(origin, seen, state, field, s4);
                    }
                }
            }
        } else {
            let s2 = word1_spec(s1, CLOSE_BRACE)->Some_0;
            assert forall|i: int| 0 <= i < seen.len() implies origin.region_to(s2).covers(
                (#[trigger] seen[i]).region,
            ) by {}
        }
    }
}

proof fn lemma_record_field_sound<'a>(state: State<'a>, min_indent: u16)
    requires
        state.wf(),
    ensures
        sound_value(state, record_pattern_field_spec(state, min_indent)),
    decreases left(state), 10int,
{
    lemma_ident_advances(state);
    if let Some((label, s1)) = lowercase_ident_spec(state) {
        lemma_space0_advances(s1, min_indent);
        if let Ok((_, spaces, s2)) = space0_spec(s1, min_indent) {
            if let Some(s3) = word1_spec(s2, COLON) {
                lemma_space0_advances(s3, min_indent);
                if let Ok((_, before, s4)) = space0_spec(s3, min_indent) {
                    lemma_loc_pattern_sound(s4, min_indent);
                    if let Ok((_, value, s5)) = loc_pattern_spec(s4, min_indent) {
                        lemma_spaces_keep_location(value, before);
                    }
                }
            } else if let Some(s3) = word1_spec(s2, QUESTION) {
                lemma_space0_advances(s3, min_indent);
                if let Ok((_, before, s4)) = space0_spec(s3, min_indent) {
                    lemma_expr_advances(s4, min_indent);
                }
            } else {
                assert(well_located(state.region_to(s2), PatternModel::Identifier(label)));
            }
        }
    }
}

/// Every pattern that a parse yields is well located. The cursor has moved
/// on, the region of the pattern lies within what was read, no region in
/// the tree ends before it starts, the region of every node covers the
/// regions of its children, and no tag is applied to an empty list of
/// arguments.
pub proof fn lemma_patterns_are_well_located<'a>(state: State<'a>, min_indent: u16)
    requires
        state.wf(),
    ensures
        sound_located(state, loc_pattern_spec(state, min_indent)),
        sound_located(state, loc_pattern_help_spec(state, min_indent)),
        sound_located(state, parse_closure_param_spec(state, min_indent)),
        sound_located(state, loc_closure_param_spec(state, min_indent)),
        sound_located(state, loc_pattern_in_parens_help_spec(state, min_indent)),
        sound_located(state, loc_ident_pattern_help_spec(state, min_indent, true)),
        sound_located(state, loc_ident_pattern_help_spec(state, min_indent, false)),
        sound_located(state, loc_tag_pattern_arg_spec(state, min_indent)),
        sound_value(state, record_pattern_help_spec(state, min_indent)),
        sound_value(state, record_pattern_field_spec(state, min_indent)),
        sound_value(state, record_pattern_spec(state, min_indent)),
        sound_value(state, underscore_pattern_help_spec(state)),
        sound_value(state, underscore_pattern_spec(state)),
{
    lemma_loc_pattern_sound(state, min_indent);
    lemma_alternatives_sound(state, min_indent, true);
    lemma_ident_sound(state, min_indent, true);
    lemma_ident_sound(state, min_indent, false);
    lemma_leaves_sound(state);
    lemma_record_sound(state, min_indent);
    lemma_record_field_sound(state, min_indent);
    lemma_parens_sound(state, min_indent);
    lemma_tag_arg_sound(state, min_indent);
}

/// The arguments of a tag end softly and fail hard. What fails without
/// progress as a further argument ends the list and is left unread, blank
/// space included: the list is a success, and without an argument the
/// cursor stays where it was. An argument that fails with progress fails
/// the list with the same error at the same cursor; the list never fails
/// without progress.
pub proof fn lemma_tag_arguments_end_softly<'a>(state: State<'a>, min_indent: u16)
    requires
        state.wf(),
    ensures
        loc_tag_pattern_args_help_spec(state, min_indent) matches Ok((p, args, s)) ==> {
            &&& s.wf()
            &&& state.reaches(s)
            &&& (args.len() == 0 <==> p == Progress::NoProgress)
            &&& (args.len() == 0 ==> s == state)
            &&& read_within(state, args, s)
        },
        loc_tag_pattern_args_help_spec(state, min_indent) matches Err((p, _, _)) ==> p
            == Progress::MadeProgress,
        loc_tag_pattern_arg_spec(state, min_indent) matches Err((Progress::NoProgress, _, _))
            ==> loc_tag_pattern_args_help_spec(state, min_indent) == Ok::<
            _,
            (Progress, EPattern<'a>, State<'a>),
        >((Progress::NoProgress, Seq::<Located<PatternModel>>::empty(), state)),
        loc_tag_pattern_arg_spec(state, min_indent) matches Err((Progress::MadeProgress, e, s))
            ==> loc_tag_pattern_args_help_spec(state, min_indent) == Err::<
            (Progress, Seq<Located<PatternModel>>, State<'a>),
            _,
        >((Progress::MadeProgress, e, s)),
{
    let none = Seq::<Located<PatternModel>>::empty();
    let here = state.region_to(state);
    assert(read_in_order(here, none, state));
    lemma_tag_args_sound(state, min_indent, none, here);
    if let Ok((_, args, s)) = tag_args_from(state, min_indent, none) {
        assert forall|i: int| 0 <= i < args.len() implies state.region_to(s).covers(
            (#[trigger] args[i]).region,
        ) by {
            assert(well_located(args[i].region, args[i].value));
        }
    }
}

/// An argument of a tag that fails with progress fails the tag: the error
/// and the cursor of the argument are those of the whole pattern. Nothing
/// is read as a shorter pattern in its place.
pub proof fn lemma_argument_failure_is_fatal<'a>(state: State<'a>, min_indent: u16)
    requires
        state.wf(),
        ident_spec(state) matches Some((ident, end)) && (ident is GlobalTag || ident is PrivateTag)
            && (loc_tag_pattern_arg_spec(end, min_indent) matches Err((p, _, _)) && p
            == Progress::MadeProgress),
    ensures
        ({
            let end = ident_spec(state)->Some_0.1;
            let (_, e, s) = loc_tag_pattern_arg_spec(end, min_indent)->Err_0;
            let failed = Err::<(Progress, Located<PatternModel>, State<'a>), _>(
                (Progress::MadeProgress, e, s),
            );
            &&& loc_ident_pattern_help_spec(state, min_indent, true) == failed
            &&& loc_pattern_help_spec(state, min_indent) == failed
            &&& parse_closure_param_spec(state, min_indent) == failed
        }),
{
    lemma_ident_advances(state);
}

/// A malformed identifier token in the place of an argument fails the
/// argument with progress, behind the token, whatever blank space stands
/// before it.
pub proof fn lemma_malformed_argument_is_fatal<'a>(state: State<'a>, min_indent: u16)
    requires
        state.wf(),
        space0_spec(state, min_indent) matches Ok((_, _, s1)) && (ident_spec(s1) matches Some(
            (ident, _),
        ) && ident is Malformed),
    ensures
        ({
            let s1 = space0_spec(state, min_indent)->Ok_0.2;
            let end = ident_spec(s1)->Some_0.1;
            let failed = Err::<(Progress, Located<PatternModel>, State<'a>), _>(
                (Progress::MadeProgress, EPattern::Start(end.line, end.column), end),
            );
            &&& loc_tag_pattern_arg_spec(state, min_indent) == failed
            &&& loc_tag_pattern_args_help_spec(state, min_indent) == Err::<
                (Progress, Seq<Located<PatternModel>>, State<'a>),
                _,
            >((Progress::MadeProgress, EPattern::Start(end.line, end.column), end))
        }),
{
    lemma_space0_advances(state, min_indent);
    let s1 = space0_spec(state, min_indent)->Ok_0.2;
    lemma_malformed_token_is_fatal(s1, min_indent, false);
}

/// A lowercase name that is no reserved word, where the identifier token
/// ends with the name, parses as the identifier of that name. Its region
/// runs from the cursor to the end of the token, on one line.
pub proof fn lemma_bare_identifier<'a>(state: State<'a>, min_indent: u16, can_have_arguments: bool)
    requires
        state.wf(),
        lowercase_ident_spec(state) matches Some((_, end)) && token_end(
            state.bytes@,
            state.offset as int,
        ) == end.offset,
    ensures
        ({
            let (name, end) = lowercase_ident_spec(state)->Some_0;
            let found: ParseResult<'a, Located<PatternModel>, EPattern<'a>> = Ok(
                (Progress::MadeProgress, located(state, end, PatternModel::Identifier(name)), end),
            );
            &&& loc_ident_pattern_help_spec(state, min_indent, can_have_arguments) == found
            &&& pattern_alternatives_spec(state, min_indent, can_have_arguments) == found
            &&& loc_pattern_help_spec(state, min_indent) == found
            &&& parse_closure_param_spec(state, min_indent) == found
            &&& name == state.bytes@.subrange(state.offset as int, end.offset as int)
            &&& located(state, end, PatternModel::Identifier(name)).region == (Region {
                start_line: state.line,
                end_line: state.line,
                start_col: state.column,
                end_col: (state.column + name.len()) as usize,
            })
        }),
{
    lemma_ident_advances(state);
    crate::text::lemma_run_end(state.bytes@, state.offset as int, ByteClass::Alnum);
    lemma_bare_name_is_access(state);
}

/// A tag with nothing behind it that begins an argument is the bare tag:
/// its region is that of the token, the cursor ends behind the token, and
/// no application is built.
pub proof fn lemma_tag_without_arguments<'a>(state: State<'a>, min_indent: u16)
    requires
        state.wf(),
        ident_spec(state) matches Some((ident, end)) && (ident is GlobalTag || ident is PrivateTag)
            && (loc_tag_pattern_arg_spec(end, min_indent) matches Err((p, _, _)) && p
            == Progress::NoProgress),
    ensures
        ({
            let (ident, end) = ident_spec(state)->Some_0;
            let tag = match ident {
                IdentModel::PrivateTag(name) => PatternModel::PrivateTag(name),
                IdentModel::GlobalTag(name) => PatternModel::GlobalTag(name),
                _ => arbitrary(),
            };
            let found: ParseResult<'a, Located<PatternModel>, EPattern<'a>> = Ok(
                (Progress::MadeProgress, located(state, end, tag), end),
            );
            &&& loc_ident_pattern_help_spec(state, min_indent, true) == found
            &&& loc_pattern_help_spec(state, min_indent) == found
            &&& parse_closure_param_spec(state, min_indent) == found
        }),
{
    lemma_ident_advances(state);
}

/// A reserved word where a pattern is to begin fails without progress, at
/// the cursor where it stands, so that an enclosing alternation can go on.
pub proof fn lemma_keyword_is_no_pattern<'a>(
    state: State<'a>,
    min_indent: u16,
    can_have_arguments: bool,
)
    requires
        state.wf(),
        state.next_byte() matches Some(b) && is_lower(b),
        token_end(state.bytes@, state.offset as int) == run_end(
            state.bytes@,
            state.offset as int,
            ByteClass::Alnum,
        ),
        is_keyword(
            state.bytes@.subrange(
                state.offset as int,
                run_end(state.bytes@, state.offset as int, ByteClass::Alnum),
            ),
        ),
    ensures
        loc_ident_pattern_help_spec(state, min_indent, can_have_arguments) == Err::<
            (Progress, Located<PatternModel>, State<'a>),
            _,
        >((Progress::NoProgress, EPattern::End(state.line, state.column), state)),
        pattern_alternatives_spec(state, min_indent, can_have_arguments) == Err::<
            (Progress, Located<PatternModel>, State<'a>),
            _,
        >((Progress::NoProgress, EPattern::Start(state.line, state.column), state)),
        loc_pattern_spec(state, min_indent) == Err::<(Progress, Located<PatternModel>, State<'a>), _>(
            (
                Progress::NoProgress,
                SyntaxError::Pattern(EPattern::Start(state.line, state.column)),
                state,
            ),
        ),
        parse_closure_param_spec(state, min_indent) matches Err((p, _, s)) && p
            == Progress::NoProgress && s == state,
{
    lemma_bare_name_is_access(state);
}

/// A malformed identifier token where a pattern is to begin fails with
/// progress, behind the token: no other alternative is tried.
pub proof fn lemma_malformed_token_is_fatal<'a>(
    state: State<'a>,
    min_indent: u16,
    can_have_arguments: bool,
)
    requires
        state.wf(),
        ident_spec(state) matches Some((ident, _)) && ident is Malformed,
    ensures
        ({
            let end = ident_spec(state)->Some_0.1;
            let failed = Err::<(Progress, Located<PatternModel>, State<'a>), _>(
                (Progress::MadeProgress, EPattern::Start(end.line, end.column), end),
            );
            let failed_outermost = Err::<(Progress, Located<PatternModel>, State<'a>), _>(
                (
                    Progress::MadeProgress,
                    SyntaxError::Pattern(EPattern::Start(end.line, end.column)),
                    end,
                ),
            );
            &&& end != state
            &&& loc_ident_pattern_help_spec(state, min_indent, can_have_arguments) == failed
            &&& pattern_alternatives_spec(state, min_indent, can_have_arguments) == failed
            &&& parse_closure_param_spec(state, min_indent) == failed
            &&& loc_pattern_spec(state, min_indent) == failed_outermost
            &&& loc_closure_param_spec(state, min_indent) == failed_outermost
        }),
{
    lemma_ident_advances(state);
}

/// What stands between the parentheses at `state`, if `(`, optional blank
/// space, a pattern, optional blank space and `)` stand there: the trivia
/// before the pattern, the pattern as it parses behind the parenthesis, the
/// trivia behind it, and the cursor behind `)`.
pub open spec fn between_parens<'a>(state: State<'a>, min_indent: u16) -> Option<
    (
        Seq<crate::ast::TriviaModel>,
        Located<PatternModel>,
        Seq<crate::ast::TriviaModel>,
        State<'a>,
    ),
> {
    match word1_spec(state, OPEN_PAREN) {
        Some(s1) => match space0_spec(s1, min_indent) {
            Ok((_, before, s2)) => match loc_pattern_spec(s2, min_indent) {
                Ok((_, node, s3)) => match space0_spec(s3, min_indent) {
                    Ok((_, after, s4)) => match word1_spec(s4, CLOSE_PAREN) {
                        Some(s5) => Some((before, node, after, s5)),
                        None => None,
                    },
                    Err(_) => None,
                },
                Err(_) => None,
            },
            Err(_) => None,
        },
        None => None,
    }
}

/// A pattern between parentheses parses as the pattern itself: the
/// parentheses add nothing to its value or to its region. Only blank space
/// with a line break or a comment between the parentheses and the pattern
/// is kept around it.
pub proof fn lemma_parenthesized_pattern<'a>(state: State<'a>, min_indent: u16)
    requires
        state.wf(),
    ensures
        between_parens(state, min_indent) matches Some((before, node, after, end)) ==> {
            let found = (
                Progress::MadeProgress,
                with_spaces_before(with_spaces_after(node, after), before),
                end,
            );
            &&& loc_pattern_in_parens_help_spec(state, min_indent) matches Ok(r) && r == found
            &&& loc_pattern_help_spec(state, min_indent) matches Ok(r) && r == found
            &&& loc_pattern_spec(state, min_indent) matches Ok(r) && r == found
            &&& with_spaces_before(with_spaces_after(node, after), before).region == node.region
            &&& (before.len() == 0 && after.len() == 0 ==> with_spaces_before(
                with_spaces_after(node, after),
                before,
            ) == node)
        },
        between_parens(state, min_indent) is None ==> loc_pattern_in_parens_help_spec(
            state,
            min_indent,
        ) is Err,
{
    if let Some(s1) = word1_spec(state, OPEN_PAREN) {
        lemma_space0_advances(s1, min_indent);
        if let Ok((_, before, s2)) = space0_spec(s1, min_indent) {
            assert(s2.wf());
            if let Ok((_, node, s3)) = loc_pattern_spec(s2, min_indent) {
                lemma_loc_pattern_sound(s2, min_indent);
                if let Ok((_, after, s4)) = space0_spec(s3, min_indent) {
                    lemma_spaces_keep_location(node, after);
                    lemma_spaces_keep_location(with_spaces_after(node, after), before);
                }
            }
        }
    }
}

/// A tag in the place of an argument stands alone: nothing behind it is
/// read as its argument, which is what groups `Foo Bar 1` as `Foo` applied
/// to `Bar` and to `1`.
pub proof fn lemma_argument_tag_is_bare<'a>(state: State<'a>, min_indent: u16)
    requires
        state.wf(),
        ident_spec(state) matches Some((ident, _)) && (ident is GlobalTag || ident is PrivateTag),
    ensures
        ({
            let (ident, end) = ident_spec(state)->Some_0;
            let tag = match ident {
                IdentModel::PrivateTag(name) => PatternModel::PrivateTag(name),
                IdentModel::GlobalTag(name) => PatternModel::GlobalTag(name),
                _ => arbitrary(),
            };
            let found: ParseResult<'a, Located<PatternModel>, EPattern<'a>> = Ok(
                (Progress::MadeProgress, located(state, end, tag), end),
            );
            &&& loc_ident_pattern_help_spec(state, min_indent, false) == found
            &&& pattern_alternatives_spec(state, min_indent, false) == found
        }),
{
    lemma_ident_advances(state);
}

/// A qualified or dotted access and an accessor function parse, as a
/// malformed pattern that keeps the text of the token.
pub proof fn lemma_access_is_kept_as_malformed<'a>(
    state: State<'a>,
    min_indent: u16,
    can_have_arguments: bool,
)
    requires
        state.wf(),
        ident_spec(state) matches Some((ident, _)) && match ident {
            IdentModel::Access { module_name, path, part_count } => module_name.len() > 0
                || part_count != 1,
            IdentModel::AccessorFunction(_) => true,
            _ => false,
        },
    ensures
        ({
            let end = ident_spec(state)->Some_0.1;
            let token = state.bytes@.subrange(state.offset as int, end.offset as int);
            let found: ParseResult<'a, Located<PatternModel>, EPattern<'a>> = Ok(
                (Progress::MadeProgress, located(state, end, PatternModel::Malformed(token)), end),
            );
            &&& loc_ident_pattern_help_spec(state, min_indent, can_have_arguments) == found
            &&& pattern_alternatives_spec(state, min_indent, can_have_arguments) == found
            &&& parse_closure_param_spec(state, min_indent) == found
        }),
{
    lemma_ident_advances(state);
}

/// An underscore with no lowercase name directly behind it is the
/// anonymous underscore, and only the underscore is read.
pub proof fn lemma_anonymous_underscore<'a>(state: State<'a>)
    requires
        state.wf(),
        word1_spec(state, UNDERSCORE) matches Some(s1) && !(s1.next_byte() matches Some(b)
            && is_lower(b)),
    ensures
        underscore_pattern_help_spec(state) == Ok::<_, (Progress, EPattern<'a>, State<'a>)>(
            (
                Progress::MadeProgress,
                PatternModel::Underscore(Seq::empty()),
                state.advanced(1),
            ),
        ),
{
}

/// The fields of a record pattern come out in the order in which they were
/// read: those read first stay first.
pub proof fn lemma_record_fields_keep_order<'a>(
    state: State<'a>,
    min_indent: u16,
    seen: Seq<Located<PatternModel>>,
)
    requires
        state.wf(),
    ensures
        record_fields_from(state, min_indent, seen) matches Ok((_, fields, _)) ==> seen.len()
            <= fields.len() && fields.subrange(0, seen.len() as int) == seen,
    decreases left(state),
{
    assert(seen.subrange(0, seen.len() as int) =~= seen);
    lemma_space0_advances(state, min_indent);
    if let Ok((_, before, s1)) = space0_spec(state, min_indent) {
        if word1_spec(s1, CLOSE_BRACE) is None {
            if let Ok((_, value, s2)) = record_pattern_field_spec(s1, min_indent) {
                if let Ok((_, after, s3)) = space0_spec(s2, min_indent) {
                    let field = with_spaces_before(
                        with_spaces_after(located(s1, s2, value), after),
                        before,
                    );
                    let next = seen.push(field);
                    assert(next.subrange(0, seen.len() as int) =~= seen);
                    if let Some(s4) = word1_spec(s3, COMMA) {
                        if state.moves_on_to(s4) {
                            lemma_record_fields_keep_order(s4, min_indent, next);
                            if let Ok((_, fields, _)) = record_fields_from(s4, min_indent, next) {
                                assert(fields.subrange(0, next.len() as int) == next);
                                assert(fields.subrange(0, seen.len() as int) =~= next.subrange(
                                    0,
                                    seen.len() as int,
                                ));
                            }
                        }
                    }
                }
            }
        }
    }
}

/// The arguments of a tag come out in the order in which they were read:
/// those read first stay first.
pub proof fn lemma_tag_arguments_keep_order<'a>(
    state: State<'a>,
    min_indent: u16,
    seen: Seq<Located<PatternModel>>,
)
    requires
        state.wf(),
    ensures
        tag_args_from(state, min_indent, seen) matches Ok((_, args, _)) ==> seen.len()
            <= args.len() && args.subrange(0, seen.len() as int) == seen,
    decreases left(state),
{
    assert(seen.subrange(0, seen.len() as int) =~= seen);
    if let Ok((_, arg, s1)) = loc_tag_pattern_arg_spec(state, min_indent) {
        let next = seen.push(arg);
        assert(next.subrange(0, seen.len() as int) =~= seen);
        if state.moves_on_to(s1) {
            lemma_tag_arguments_keep_order(s1, min_indent, next);
            if let Ok((_, args, _)) = tag_args_from(s1, min_indent, next) {
                assert(args.subrange(0, next.len() as int) == next);
                assert(args.subrange(0, seen.len() as int) =~= next.subrange(
                    0,
                    seen.len() as int,
                ));
            }
        }
    }
}


} // verus!
