use bumpalo::Bump;
use roc_parse::ast::{Base, CommentOrNewline, Expr, Pattern, StrLiteral};
use roc_parse::parser::{EPattern, PInParens, PRecord, Progress, State, SyntaxError};
use roc_parse::pattern::{
    loc_closure_param, loc_ident_pattern_help, loc_parse_tag_pattern_arg, loc_pattern,
    loc_pattern_help, loc_pattern_in_parens_help, loc_tag_pattern_arg, loc_tag_pattern_args_help,
    lowercase_ident_pattern, number_pattern_help, parse_closure_param, string_pattern_help,
    underscore_pattern, underscore_pattern_help, PatternType,
};
use roc_parse::region::{Located, Region};

fn on_line(start_col: usize, end_col: usize) -> Region {
    Region::new(0, 0, start_col, end_col)
}

fn at<T>(start_col: usize, end_col: usize, value: T) -> Located<T> {
    Located::at(on_line(start_col, end_col), value)
}

#[test]
fn bare_identifier_is_an_identifier_with_the_region_of_its_token() {
    let arena = Bump::new();
    let state = State::new(b"foo");
    let (progress, found, rest) = loc_pattern(&arena, state, 0).unwrap();
    assert_eq!(progress, Progress::MadeProgress);
    assert_eq!(found, at(0, 3, Pattern::Identifier("foo")));
    assert_eq!(rest.offset, 3);
    assert_eq!(rest.column, 3);
    assert_eq!(rest.line, 0);
}

#[test]
fn identifier_stops_before_what_is_no_part_of_it() {
    let arena = Bump::new();
    let state = State::new(b"abc1 -> x");
    let (_, found, rest) = loc_pattern_help(&arena, state, 0).unwrap();
    assert_eq!(found, at(0, 4, Pattern::Identifier("abc1")));
    assert_eq!(rest.offset, 4);
}

#[test]
fn tag_without_arguments_is_a_bare_tag() {
    let arena = Bump::new();
    let (progress, found, rest) = loc_pattern(&arena, State::new(b"Foo"), 0).unwrap();
    assert_eq!(progress, Progress::MadeProgress);
    assert_eq!(found, at(0, 3, Pattern::GlobalTag("Foo")));
    assert_eq!(rest.offset, 3);
    let (_, found, _) = loc_pattern(&arena, State::new(b"@Foo"), 0).unwrap();
    assert_eq!(found, at(0, 4, Pattern::PrivateTag("@Foo")));
}

#[test]
fn tag_before_an_operator_takes_no_arguments_and_leaves_the_space() {
    let arena = Bump::new();
    let (_, found, rest) = loc_pattern(&arena, State::new(b"Foo -> 1"), 0).unwrap();
    assert_eq!(found, at(0, 3, Pattern::GlobalTag("Foo")));
    assert_eq!(rest.offset, 3);
    assert_eq!(rest.column, 3);
}

#[test]
fn tag_application_groups_to_the_left() {
    let arena = Bump::new();
    let (progress, found, rest) = loc_pattern(&arena, State::new(b"Foo Bar 1"), 0).unwrap();
    assert_eq!(progress, Progress::MadeProgress);
    let head = at(0, 3, Pattern::GlobalTag("Foo"));
    let args = [at(4, 7, Pattern::GlobalTag("Bar")), at(8, 9, Pattern::NumLiteral("1"))];
    assert_eq!(found, at(0, 9, Pattern::Apply(&head, &args)));
    let nested_args = [at(8, 9, Pattern::NumLiteral("1"))];
    let nested_head = at(4, 7, Pattern::GlobalTag("Bar"));
    let nested = [at(4, 9, Pattern::Apply(&nested_head, &nested_args))];
    assert_ne!(found.value, Pattern::Apply(&head, &nested));
    assert_eq!(rest.offset, 9);
}

#[test]
fn private_tag_takes_arguments_too() {
    let arena = Bump::new();
    let (_, found, _) = loc_pattern(&arena, State::new(b"@Foo x _"), 0).unwrap();
    let head = at(0, 4, Pattern::PrivateTag("@Foo"));
    let args = [at(5, 6, Pattern::Identifier("x")), at(7, 8, Pattern::Underscore(""))];
    assert_eq!(found, at(0, 8, Pattern::Apply(&head, &args)));
}

#[test]
fn argument_in_parentheses_may_take_arguments_of_its_own() {
    let arena = Bump::new();
    let (_, found, rest) = loc_pattern(&arena, State::new(b"Foo (Bar 1) x"), 0).unwrap();
    let head = at(0, 3, Pattern::GlobalTag("Foo"));
    let inner_head = at(5, 8, Pattern::GlobalTag("Bar"));
    let inner_args = [at(9, 10, Pattern::NumLiteral("1"))];
    let args = [
        at(5, 10, Pattern::Apply(&inner_head, &inner_args)),
        at(12, 13, Pattern::Identifier("x")),
    ];
    assert_eq!(found, at(0, 13, Pattern::Apply(&head, &args)));
    assert_eq!(rest.offset, 13);
}

#[test]
fn tag_in_argument_position_takes_no_arguments() {
    let arena = Bump::new();
    let (_, found, rest) = loc_parse_tag_pattern_arg(&arena, State::new(b"Bar 1"), 0).unwrap();
    assert_eq!(found, at(0, 3, Pattern::GlobalTag("Bar")));
    assert_eq!(rest.offset, 3);
    let (_, found, rest) =
        loc_ident_pattern_help(&arena, State::new(b"Bar 1"), 0, false).unwrap();
    assert_eq!(found, at(0, 3, Pattern::GlobalTag("Bar")));
    assert_eq!(rest.offset, 3);
}

#[test]
fn arguments_end_where_no_pattern_begins() {
    let arena = Bump::new();
    let state = State::new(b" x 2 +");
    let (progress, args, rest) = loc_tag_pattern_args_help(&arena, state, 0).unwrap();
    assert_eq!(progress, Progress::MadeProgress);
    assert_eq!(
        args.into_bump_slice(),
        &[at(1, 2, Pattern::Identifier("x")), at(3, 4, Pattern::NumLiteral("2"))]
    );
    assert_eq!(rest.offset, 4);

    let state = State::new(b" + 1");
    let (progress, args, rest) = loc_tag_pattern_args_help(&arena, state, 0).unwrap();
    assert_eq!(progress, Progress::NoProgress);
    assert_eq!(args.into_bump_slice(), &[]);
    assert_eq!(rest, state);
}

#[test]
fn argument_that_fails_with_progress_fails_the_tag() {
    let arena = Bump::new();
    let (progress, error, at_state) = loc_pattern(&arena, State::new(b"Foo ("), 0).unwrap_err();
    assert_eq!(progress, Progress::MadeProgress);
    let nothing = SyntaxError::Pattern(EPattern::Start(0, 5));
    assert_eq!(
        error,
        SyntaxError::Pattern(EPattern::PInParens(PInParens::Syntax(&nothing, 0, 5), 0, 5))
    );
    assert_eq!(at_state.offset, 5);

    let (progress, error, at_state) = loc_pattern_help(&arena, State::new(b"F(x"), 0).unwrap_err();
    assert_eq!(progress, Progress::MadeProgress);
    assert_eq!(error, EPattern::PInParens(PInParens::End(0, 3), 0, 3));
    assert_eq!(at_state.offset, 3);

    let (progress, error, at_state) = loc_pattern(&arena, State::new(b"Foo b..c"), 0).unwrap_err();
    assert_eq!(progress, Progress::MadeProgress);
    assert_eq!(error, SyntaxError::Pattern(EPattern::Start(0, 8)));
    assert_eq!(at_state.offset, 8);

    let (progress, error, at_state) =
        loc_pattern(&arena, State::new(b"Foo x { a"), 0).unwrap_err();
    assert_eq!(progress, Progress::MadeProgress);
    assert_eq!(error, SyntaxError::Pattern(EPattern::Record(PRecord::End(0, 9), 0, 9)));
    assert_eq!(at_state.offset, 9);

    let (progress, error, _) = loc_closure_param(&arena, State::new(b"Foo \"unclosed"), 0).unwrap_err();
    assert_eq!(progress, Progress::MadeProgress);
    assert_eq!(error, SyntaxError::Pattern(EPattern::Start(0, 13)));
}

#[test]
fn arguments_fail_with_the_failure_of_an_argument() {
    let arena = Bump::new();
    let state = State::new(b" x (y");
    let (progress, error, at_state) = match loc_tag_pattern_args_help(&arena, state, 0) {
        Err(failed) => failed,
        Ok(_) => panic!("an unclosed parenthesis is no argument"),
    };
    assert_eq!(progress, Progress::MadeProgress);
    assert_eq!(error, EPattern::PInParens(PInParens::End(0, 5), 0, 5));
    assert_eq!(at_state.offset, 5);

    let state = State::new(b"  (x");
    let (progress, error, at_state) = loc_tag_pattern_arg(&arena, state, 0).unwrap_err();
    assert_eq!(progress, Progress::MadeProgress);
    assert_eq!(error, EPattern::PInParens(PInParens::End(0, 4), 0, 4));
    assert_eq!(at_state.offset, 4);

    let state = State::new(b" foo.");
    let (progress, error, at_state) = loc_tag_pattern_arg(&arena, state, 0).unwrap_err();
    assert_eq!(progress, Progress::MadeProgress);
    assert_eq!(error, EPattern::Start(0, 5));
    assert_eq!(at_state.offset, 5);
}

#[test]
fn failed_argument_leaves_the_cursor_where_it_was() {
    let arena = Bump::new();
    let state = State::new(b"  + x");
    let failed = loc_tag_pattern_arg(&arena, state, 0).unwrap_err();
    assert_eq!(failed, (Progress::NoProgress, EPattern::Start(0, 2), state));

    let state = State::new(b"  if");
    let failed = loc_tag_pattern_arg(&arena, state, 0).unwrap_err();
    assert_eq!(failed.0, Progress::NoProgress);
    assert_eq!(failed.2, state);

    let state = State::new(b"\tfoo");
    let failed = loc_tag_pattern_arg(&arena, state, 0).unwrap_err();
    assert_eq!(
        failed,
        (
            Progress::NoProgress,
            EPattern::Space(roc_parse::parser::BadInputError::HasTab, 0, 0),
            state
        )
    );

    let state = State::new(b"\nfoo");
    let failed = loc_tag_pattern_arg(&arena, state, 4).unwrap_err();
    assert_eq!(failed, (Progress::NoProgress, EPattern::IndentStart(0, 0), state));
}

#[test]
fn argument_keeps_line_breaks_and_comments_before_it() {
    let arena = Bump::new();
    let source = b"Foo\n  # why\n  bar";
    let (_, found, rest) = loc_pattern(&arena, State::new(source), 0).unwrap();
    let head = at(0, 3, Pattern::GlobalTag("Foo"));
    let spaces = [CommentOrNewline::Newline, CommentOrNewline::LineComment(" why")];
    let inner = Pattern::Identifier("bar");
    let args =
        [Located::at(Region::new(2, 2, 2, 5), Pattern::SpaceBefore(&inner, &spaces))];
    assert_eq!(found, Located::at(Region::new(0, 2, 0, 5), Pattern::Apply(&head, &args)));
    assert_eq!(rest.line, 2);
    assert_eq!(rest.column, 5);
    assert_eq!(rest.indent_col, 2);
    assert_eq!(rest.offset, source.len());
}

#[test]
fn argument_left_of_the_indentation_is_no_argument() {
    let arena = Bump::new();
    let (_, found, rest) = loc_pattern(&arena, State::new(b"Foo\n bar"), 4).unwrap();
    assert_eq!(found, at(0, 3, Pattern::GlobalTag("Foo")));
    assert_eq!(rest.offset, 3);
    assert_eq!(rest.line, 0);
}

#[test]
fn underscore_forms() {
    let state = State::new(b"_");
    let (progress, found, rest) = underscore_pattern(state).unwrap();
    assert_eq!(progress, Progress::MadeProgress);
    assert_eq!(found, Pattern::Underscore(""));
    assert_eq!(rest.offset, 1);

    let (_, found, rest) = underscore_pattern(State::new(b"_foo")).unwrap();
    assert_eq!(found, Pattern::Underscore("foo"));
    assert_eq!(rest.offset, 4);

    let (_, found, rest) = underscore_pattern(State::new(b"_Foo")).unwrap();
    assert_eq!(found, Pattern::Underscore(""));
    assert_eq!(rest.offset, 1);

    let (_, found, rest) = underscore_pattern_help(State::new(b"_ foo")).unwrap();
    assert_eq!(found, Pattern::Underscore(""));
    assert_eq!(rest.offset, 1);

    let (_, found, rest) = underscore_pattern_help(State::new(b"_if")).unwrap();
    assert_eq!(found, Pattern::Underscore(""));
    assert_eq!(rest.offset, 1);
}

#[test]
fn underscore_is_located_by_the_pattern_parser() {
    let arena = Bump::new();
    let (_, found, _) = loc_pattern(&arena, State::new(b"_rest"), 0).unwrap();
    assert_eq!(found, at(0, 5, Pattern::Underscore("rest")));
}

#[test]
fn missing_underscore_fails_without_progress() {
    let state = State::new(b"x");
    assert_eq!(
        underscore_pattern_help(state),
        Err((Progress::NoProgress, EPattern::Underscore(0, 0), state))
    );
    assert_eq!(
        underscore_pattern(state),
        Err((Progress::NoProgress, SyntaxError::Pattern(EPattern::Underscore(0, 0)), state))
    );
}

#[test]
fn lowercase_name_of_a_pattern() {
    let state = State::new(b"abc def");
    let (progress, name, rest) = lowercase_ident_pattern(state).unwrap();
    assert_eq!(progress, Progress::MadeProgress);
    assert_eq!(name, "abc");
    assert_eq!(rest.offset, 3);
    let state = State::new(b"Abc");
    assert_eq!(
        lowercase_ident_pattern(state),
        Err((Progress::NoProgress, EPattern::End(0, 0), state))
    );
    let state = State::new(b"when");
    assert_eq!(
        lowercase_ident_pattern(state),
        Err((Progress::NoProgress, EPattern::End(0, 0), state))
    );
}

#[test]
fn qualified_access_is_kept_as_malformed() {
    let arena = Bump::new();
    let (progress, found, rest) = loc_pattern(&arena, State::new(b"Foo.bar"), 0).unwrap();
    assert_eq!(progress, Progress::MadeProgress);
    assert_eq!(found, at(0, 7, Pattern::Malformed("Foo.bar")));
    assert_eq!(rest.offset, 7);

    let (_, found, _) = loc_pattern(&arena, State::new(b"foo.bar.baz"), 0).unwrap();
    assert_eq!(found, at(0, 11, Pattern::Malformed("foo.bar.baz")));

    let (_, found, _) = loc_pattern(&arena, State::new(b"if.then"), 0).unwrap();
    assert_eq!(found, at(0, 7, Pattern::Malformed("if.then")));
}

#[test]
fn accessor_function_is_kept_as_malformed() {
    let arena = Bump::new();
    let (_, found, rest) = loc_pattern(&arena, State::new(b".field x"), 0).unwrap();
    assert_eq!(found, at(0, 6, Pattern::Malformed(".field")));
    assert_eq!(rest.offset, 6);
}

#[test]
fn keyword_fails_without_progress() {
    let arena = Bump::new();
    for word in ["if", "then", "else", "when", "as", "is", "expect"] {
        let state = State::new(word.as_bytes());
        assert_eq!(
            loc_ident_pattern_help(&arena, state, 0, true),
            Err((Progress::NoProgress, EPattern::End(0, 0), state))
        );
        assert_eq!(
            loc_pattern_help(&arena, state, 0),
            Err((Progress::NoProgress, EPattern::Start(0, 0), state))
        );
        assert_eq!(
            loc_pattern(&arena, state, 0),
            Err((Progress::NoProgress, SyntaxError::Pattern(EPattern::Start(0, 0)), state))
        );
    }
    let state = State::new(b"when x is");
    assert_eq!(
        loc_pattern(&arena, state, 0),
        Err((Progress::NoProgress, SyntaxError::Pattern(EPattern::Start(0, 0)), state))
    );
}

#[test]
fn name_that_begins_like_a_keyword_is_an_identifier() {
    let arena = Bump::new();
    let (_, found, _) = loc_pattern(&arena, State::new(b"iffy"), 0).unwrap();
    assert_eq!(found, at(0, 4, Pattern::Identifier("iffy")));
}

#[test]
fn malformed_token_fails_with_progress() {
    let arena = Bump::new();
    for source in ["foo..bar", "foo.", "foo.Bar", "Foo.Bar", "foo_bar", "@foo", "..", "Foo."] {
        let state = State::new(source.as_bytes());
        let (progress, error, at_state) = loc_pattern(&arena, state, 0).unwrap_err();
        assert_eq!(progress, Progress::MadeProgress);
        assert_eq!(error, SyntaxError::Pattern(EPattern::Start(0, source.len())));
        assert_eq!(at_state.offset, source.len());
        let (progress, error, _) = loc_closure_param(&arena, state, 0).unwrap_err();
        assert_eq!(progress, Progress::MadeProgress);
        assert_eq!(error, SyntaxError::Pattern(EPattern::Start(0, source.len())));
    }
}

#[test]
fn nothing_pattern_like_fails_without_progress() {
    let arena = Bump::new();
    for source in ["", "+", ")", "}", ",", "-", " x"] {
        let state = State::new(source.as_bytes());
        assert_eq!(
            loc_pattern(&arena, state, 0),
            Err((Progress::NoProgress, SyntaxError::Pattern(EPattern::Start(0, 0)), state))
        );
    }
}

#[test]
fn number_patterns() {
    let arena = Bump::new();
    let (progress, found, rest) = number_pattern_help(&arena, State::new(b"42 ")).unwrap();
    assert_eq!(progress, Progress::MadeProgress);
    assert_eq!(found, Pattern::NumLiteral("42"));
    assert_eq!(rest.offset, 2);

    let (_, found, _) = number_pattern_help(&arena, State::new(b"-7")).unwrap();
    assert_eq!(found, Pattern::NumLiteral("-7"));

    let (_, found, rest) = number_pattern_help(&arena, State::new(b"3.14)")).unwrap();
    assert_eq!(found, Pattern::FloatLiteral("3.14"));
    assert_eq!(rest.offset, 4);

    let (_, found, rest) = number_pattern_help(&arena, State::new(b"0x1F")).unwrap();
    assert_eq!(
        found,
        Pattern::NonBase10Literal { string: "1F", base: Base::Hex, is_negative: false }
    );
    assert_eq!(rest.offset, 4);

    let (_, found, _) = number_pattern_help(&arena, State::new(b"-0b101")).unwrap();
    assert_eq!(
        found,
        Pattern::NonBase10Literal { string: "101", base: Base::Binary, is_negative: true }
    );

    let (_, found, _) = number_pattern_help(&arena, State::new(b"0o17")).unwrap();
    assert_eq!(
        found,
        Pattern::NonBase10Literal { string: "17", base: Base::Octal, is_negative: false }
    );

    let state = State::new(b"x1");
    assert_eq!(
        number_pattern_help(&arena, state),
        Err((Progress::NoProgress, EPattern::Start(0, 0), state))
    );
}

#[test]
fn number_is_located_by_the_pattern_parser() {
    let arena = Bump::new();
    let (_, found, _) = loc_pattern(&arena, State::new(b"-12"), 0).unwrap();
    assert_eq!(found, at(0, 3, Pattern::NumLiteral("-12")));
}

#[test]
fn string_patterns() {
    let (progress, found, rest) = string_pattern_help(State::new(b"\"hello\" x")).unwrap();
    assert_eq!(progress, Progress::MadeProgress);
    assert_eq!(found, Pattern::StrLiteral(StrLiteral::PlainLine("hello")));
    assert_eq!(rest.offset, 7);

    let (_, found, _) = string_pattern_help(State::new(b"\"\"")).unwrap();
    assert_eq!(found, Pattern::StrLiteral(StrLiteral::PlainLine("")));

    let (_, found, rest) = string_pattern_help(State::new(b"\"a\\\"b\"")).unwrap();
    assert_eq!(found, Pattern::StrLiteral(StrLiteral::PlainLine("a\\\"b")));
    assert_eq!(rest.offset, 6);

    let state = State::new(b"x");
    assert_eq!(
        string_pattern_help(state),
        Err((Progress::NoProgress, EPattern::Start(0, 0), state))
    );
}

#[test]
fn string_left_open_fails_with_progress_where_its_line_ends() {
    let arena = Bump::new();
    let state = State::new(b"\"abc\nd\"");
    let (progress, error, at_state) = string_pattern_help(state).unwrap_err();
    assert_eq!(progress, Progress::MadeProgress);
    assert_eq!(error, EPattern::Start(0, 4));
    assert_eq!(at_state.offset, 4);
    let (progress, error, _) = loc_pattern(&arena, state, 0).unwrap_err();
    assert_eq!(progress, Progress::MadeProgress);
    assert_eq!(error, SyntaxError::Pattern(EPattern::Start(0, 4)));
}

#[test]
fn string_that_is_not_utf8_fails_behind_its_quote() {
    let state = State::new(b"\"a\xffb\"");
    let (progress, error, at_state) = string_pattern_help(state).unwrap_err();
    assert_eq!(progress, Progress::MadeProgress);
    assert_eq!(error, EPattern::Start(0, 1));
    assert_eq!(at_state.offset, 1);
}

#[test]
fn string_is_located_by_the_pattern_parser() {
    let arena = Bump::new();
    let (_, found, _) = loc_pattern(&arena, State::new("\"hé\"".as_bytes()), 0).unwrap();
    assert_eq!(found, at(0, 5, Pattern::StrLiteral(StrLiteral::PlainLine("hé"))));
}

#[test]
fn closure_parameters() {
    let arena = Bump::new();
    let (_, found, _) = loc_closure_param(&arena, State::new(b"foo ->"), 0).unwrap();
    assert_eq!(found, at(0, 3, Pattern::Identifier("foo")));

    let (_, found, _) = parse_closure_param(&arena, State::new(b"_ ->"), 0).unwrap();
    assert_eq!(found, at(0, 1, Pattern::Underscore("")));

    let (_, found, _) = loc_closure_param(&arena, State::new(b"{ x, y } ->"), 0).unwrap();
    // A field without a value takes the blank space behind its label.
    let fields = [at(2, 3, Pattern::Identifier("x")), at(5, 7, Pattern::Identifier("y"))];
    assert_eq!(found, at(0, 8, Pattern::RecordDestructure(&fields)));

    let (_, found, rest) = loc_closure_param(&arena, State::new(b"(UserId id) ->"), 0).unwrap();
    let head = at(1, 7, Pattern::GlobalTag("UserId"));
    let args = [at(8, 10, Pattern::Identifier("id"))];
    assert_eq!(found, at(1, 10, Pattern::Apply(&head, &args)));
    assert_eq!(rest.offset, 11);
}

#[test]
fn closure_parameter_is_no_literal() {
    let arena = Bump::new();
    let state = State::new(b"1");
    let (progress, error, at_state) = loc_closure_param(&arena, state, 0).unwrap_err();
    assert_eq!(progress, Progress::NoProgress);
    assert_eq!(
        error,
        SyntaxError::Pattern(EPattern::PInParens(PInParens::Open(0, 0), 0, 0))
    );
    assert_eq!(at_state, state);
    let state = State::new(b"\"s\"");
    assert_eq!(parse_closure_param(&arena, state, 0).unwrap_err().0, Progress::NoProgress);
}

#[test]
fn parentheses_add_nothing_to_the_pattern() {
    let arena = Bump::new();
    let (progress, found, rest) =
        loc_pattern_in_parens_help(&arena, State::new(b"(foo)"), 0).unwrap();
    assert_eq!(progress, Progress::MadeProgress);
    assert_eq!(found, at(1, 4, Pattern::Identifier("foo")));
    assert_eq!(rest.offset, 5);

    let direct = loc_pattern(&arena, State::new(b"Foo Bar 1"), 0).unwrap().1;
    let wrapped = loc_pattern(&arena, State::new(b"(Foo Bar 1)"), 0).unwrap().1;
    let head = at(1, 4, Pattern::GlobalTag("Foo"));
    let args = [at(5, 8, Pattern::GlobalTag("Bar")), at(9, 10, Pattern::NumLiteral("1"))];
    assert_eq!(wrapped, at(1, 10, Pattern::Apply(&head, &args)));
    match (direct.value, wrapped.value) {
        (Pattern::Apply(h1, a1), Pattern::Apply(h2, a2)) => {
            assert_eq!(h1.value, h2.value);
            assert_eq!(a1.len(), a2.len());
            assert_eq!(a1[0].value, a2[0].value);
            assert_eq!(a1[1].value, a2[1].value);
        }
        _ => panic!("both are applications"),
    }

    let (_, found, rest) = loc_pattern(&arena, State::new(b"( _x )"), 0).unwrap();
    assert_eq!(found, at(2, 4, Pattern::Underscore("x")));
    assert_eq!(rest.offset, 6);

    let (_, found, _) = loc_pattern(&arena, State::new(b"((x))"), 0).unwrap();
    assert_eq!(found, at(2, 3, Pattern::Identifier("x")));
}

#[test]
fn parentheses_keep_line_breaks_and_comments_around_the_pattern() {
    let arena = Bump::new();
    let source = b"(\n x # c\n)";
    let (_, found, rest) = loc_pattern(&arena, State::new(source), 0).unwrap();
    let before = [CommentOrNewline::Newline];
    let after = [CommentOrNewline::LineComment(" c")];
    let inner = Pattern::Identifier("x");
    let with_after = Pattern::SpaceAfter(&inner, &after);
    assert_eq!(
        found,
        Located::at(Region::new(1, 1, 1, 2), Pattern::SpaceBefore(&with_after, &before))
    );
    assert_eq!(rest.offset, source.len());
    assert_eq!(rest.line, 2);
    assert_eq!(rest.column, 1);
}

#[test]
fn every_region_covers_the_regions_below_it() {
    let arena = Bump::new();
    let source = b"Pair { a, b: Some (Ok x) } _";
    let (_, found, rest) = loc_pattern(&arena, State::new(source), 0).unwrap();
    assert_eq!(rest.offset, source.len());
    assert_eq!(found.region, on_line(0, 28));
    match found.value {
        Pattern::Apply(head, args) => {
            assert!(found.region.contains(&head.region));
            assert_eq!(args.len(), 2);
            for arg in args {
                assert!(found.region.contains(&arg.region));
            }
            assert_eq!(args[0].region, on_line(5, 26));
            match args[0].value {
                Pattern::RecordDestructure(fields) => {
                    assert_eq!(fields.len(), 2);
                    for field in fields {
                        assert!(args[0].region.contains(&field.region));
                    }
                    assert_eq!(fields[1].region, on_line(10, 24));
                    match fields[1].value {
                        Pattern::RequiredField(label, value) => {
                            assert_eq!(label, "b");
                            assert!(fields[1].region.contains(&value.region));
                            assert_eq!(value.region, on_line(13, 23));
                        }
                        _ => panic!("a required field"),
                    }
                }
                _ => panic!("a record"),
            }
        }
        _ => panic!("an application"),
    }
}

#[test]
fn pattern_types_are_distinct() {
    assert_ne!(PatternType::TopLevelDef, PatternType::DefExpr);
    assert_ne!(PatternType::FunctionArg, PatternType::WhenBranch);
    let copy = PatternType::WhenBranch;
    assert_eq!(copy, PatternType::WhenBranch);
}

#[test]
fn optional_field_default_is_an_expression() {
    let arena = Bump::new();
    let (_, found, _) = loc_pattern(&arena, State::new(b"{ n ? 0x10 }"), 0).unwrap();
    let default = at(
        6,
        10,
        Expr::NonBase10Int { string: "10", base: Base::Hex, is_negative: false },
    );
    let fields = [at(2, 10, Pattern::OptionalField("n", &default))];
    assert_eq!(found, at(0, 12, Pattern::RecordDestructure(&fields)));
}

#[test]
fn pattern_in_a_fragment_has_the_regions_of_its_source() {
    let arena = Bump::new();
    let state = State::at(b"x = Foo bar", 4, 7, 40).unwrap();
    let (_, found, rest) = loc_pattern(&arena, state, 0).unwrap();
    let head = Located::at(Region::new(7, 7, 40, 43), Pattern::GlobalTag("Foo"));
    let args = [Located::at(Region::new(7, 7, 44, 47), Pattern::Identifier("bar"))];
    assert_eq!(found, Located::at(Region::new(7, 7, 40, 47), Pattern::Apply(&head, &args)));
    assert_eq!(rest.offset, 11);
    assert_eq!(rest.line, 7);
    assert_eq!(rest.column, 47);
}
