use bumpalo::Bump;
use roc_parse::ast::{Base, CommentOrNewline, Expr, Pattern, StrLiteral};
use roc_parse::blankspace::{space0_e, SpaceProblem};
use roc_parse::expr::{expr, expr_to_pattern};
use roc_parse::ident::{ident, lowercase_ident, Ident};
use roc_parse::keyword::{is_reserved, spells_keyword};
use roc_parse::number_literal::number_literal;
use roc_parse::parser::{
    word1, BadInputError, EExpr, EString, Progress, State, SyntaxError,
};
use roc_parse::region::{Located, Region};
use roc_parse::text::{ascii_text, chomp, utf8_text, ByteClass};

#[test]
fn cursor_begins_at_the_start_of_the_input() {
    let state = State::new(b"ab");
    assert_eq!(state.offset, 0);
    assert_eq!(state.line, 0);
    assert_eq!(state.column, 0);
    assert_eq!(state.indent_col, 0);
    assert_eq!(state.peek(), Some(b'a'));
    let next = state.advance(2);
    assert_eq!(next.offset, 2);
    assert_eq!(next.column, 2);
    assert_eq!(next.line, 0);
    assert_eq!(next.peek(), None);
    assert_eq!(state.region_until(&next), Region::new(0, 0, 0, 2));
}

#[test]
fn word1_takes_one_byte_or_nothing() {
    let state = State::new(b"(x");
    let next = word1(state, b'(').unwrap();
    assert_eq!(next.offset, 1);
    assert_eq!(next.column, 1);
    assert_eq!(word1(state, b')'), None);
    assert_eq!(word1(State::new(b""), b'('), None);
}

#[test]
fn regions_span_and_contain() {
    let outer = Region::new(1, 3, 4, 2);
    let inner = Region::new(1, 2, 6, 9);
    assert!(outer.contains(&inner));
    assert!(!inner.contains(&outer));
    assert!(outer.contains(&outer));
    assert!(!outer.contains(&Region::new(1, 3, 3, 2)));
    assert!(!outer.contains(&Region::new(1, 3, 4, 3)));
    assert!(!outer.contains(&Region::new(0, 3, 9, 2)));
    assert_eq!(Region::zero(), Region::new(0, 0, 0, 0));
    assert_eq!(
        Region::span_across(&Region::new(1, 1, 2, 5), &Region::new(3, 4, 0, 7)),
        Region::new(1, 4, 2, 7)
    );
}

#[test]
fn across_all_runs_from_the_first_region_to_the_last() {
    let first = Region::new(0, 0, 0, 3);
    let rest = [
        Located::at(Region::new(0, 0, 4, 7), 'a'),
        Located::at(Region::new(1, 1, 2, 5), 'b'),
        Located::at(Region::new(2, 3, 0, 1), 'c'),
    ];
    assert_eq!(Region::across_all(&first, &rest), Region::new(0, 3, 0, 1));
    let none: [Located<char>; 0] = [];
    assert_eq!(Region::across_all(&first, &none), first);
    let merged = Region::across_all(&first, &rest);
    assert!(merged.contains(&first));
    for item in &rest {
        assert!(merged.contains(&item.region));
    }
}

#[test]
fn byte_classes() {
    assert!(ByteClass::Alnum.has(b'a'));
    assert!(ByteClass::Alnum.has(b'Z'));
    assert!(ByteClass::Alnum.has(b'0'));
    assert!(!ByteClass::Alnum.has(b'_'));
    assert!(ByteClass::IdentTail.has(b'_'));
    assert!(ByteClass::IdentTail.has(b'.'));
    assert!(!ByteClass::IdentTail.has(b'@'));
    assert!(ByteClass::Digit.has(b'9'));
    assert!(!ByteClass::Digit.has(b'a'));
    assert!(ByteClass::Hex.has(b'f'));
    assert!(ByteClass::Hex.has(b'A'));
    assert!(!ByteClass::Hex.has(b'g'));
    assert!(ByteClass::Octal.has(b'7'));
    assert!(!ByteClass::Octal.has(b'8'));
    assert!(ByteClass::Binary.has(b'1'));
    assert!(!ByteClass::Binary.has(b'2'));
    assert!(ByteClass::NotNewline.has(b' '));
    assert!(!ByteClass::NotNewline.has(b'\n'));
}

#[test]
fn chomp_takes_the_longest_run() {
    assert_eq!(chomp(b"abc1 d", 0, ByteClass::Alnum), 4);
    assert_eq!(chomp(b"abc1 d", 4, ByteClass::Alnum), 4);
    assert_eq!(chomp(b"abc", 1, ByteClass::Alnum), 3);
    assert_eq!(chomp(b"abc", 3, ByteClass::Alnum), 3);
    assert_eq!(chomp(b"12ab", 0, ByteClass::Digit), 2);
}

#[test]
fn text_slices() {
    assert_eq!(ascii_text(b"hello world", 6, 11), "world");
    assert_eq!(ascii_text(b"hello", 2, 2), "");
    assert_eq!(utf8_text("h\u{e9}!".as_bytes(), 1, 3), Some("\u{e9}"));
    assert_eq!(utf8_text(b"a\xffb", 0, 3), None);
    assert_eq!(utf8_text("h\u{e9}!".as_bytes(), 1, 2), None);
}

#[test]
fn reserved_words() {
    for word in ["if", "then", "else", "when", "as", "is", "expect"] {
        assert!(is_reserved(word));
        assert!(spells_keyword(word.as_bytes()));
    }
    for word in ["", "i", "iff", "If", "them", "elsa", "whem", "at", "it", "expert", "expects"] {
        assert!(!is_reserved(word));
    }
}

#[test]
fn identifier_classes() {
    let (progress, found, rest) = ident(State::new(b"Foo bar")).unwrap();
    assert_eq!(progress, Progress::MadeProgress);
    assert_eq!(found, Ident::GlobalTag("Foo"));
    assert_eq!(rest.offset, 3);

    assert_eq!(ident(State::new(b"@Foo")).unwrap().1, Ident::PrivateTag("@Foo"));
    assert_eq!(ident(State::new(b".foo")).unwrap().1, Ident::AccessorFunction("foo"));
    assert_eq!(
        ident(State::new(b"foo")).unwrap().1,
        Ident::Access { module_name: "", path: "foo", part_count: 1 }
    );
    assert_eq!(
        ident(State::new(b"foo.bar.baz")).unwrap().1,
        Ident::Access { module_name: "", path: "foo.bar.baz", part_count: 3 }
    );
    assert_eq!(
        ident(State::new(b"Foo.Bar.baz")).unwrap().1,
        Ident::Access { module_name: "Foo.Bar", path: "baz", part_count: 1 }
    );
    assert_eq!(
        ident(State::new(b"Foo.bar2.baz,")).unwrap().1,
        Ident::Access { module_name: "Foo", path: "bar2.baz", part_count: 2 }
    );
}

#[test]
fn malformed_identifiers_take_the_whole_token() {
    for source in
        ["foo.", "foo..bar", "foo.Bar", "Foo.Bar", "foo_bar", "@foo", "@", ".", ".Foo", "a.1", "@Foo.bar", ".foo.bar"]
    {
        let (progress, found, rest) = ident(State::new(source.as_bytes())).unwrap();
        assert_eq!(progress, Progress::MadeProgress);
        assert_eq!(found, Ident::Malformed(source));
        assert_eq!(rest.offset, source.len());
    }
}

#[test]
fn no_identifier_begins_with_a_digit_or_a_sign() {
    for source in ["", "1a", "_a", "-a", " a", "(a"] {
        let state = State::new(source.as_bytes());
        assert_eq!(ident(state), Err((Progress::NoProgress, (), state)));
    }
}

#[test]
fn lowercase_names() {
    let (progress, name, rest) = lowercase_ident(State::new(b"fooBar2.x")).unwrap();
    assert_eq!(progress, Progress::MadeProgress);
    assert_eq!(name, "fooBar2");
    assert_eq!(rest.offset, 7);
    for source in ["Foo", "1", "", "if", "expect"] {
        let state = State::new(source.as_bytes());
        assert_eq!(lowercase_ident(state), Err((Progress::NoProgress, (), state)));
    }
}

#[test]
fn number_literals() {
    assert_eq!(number_literal(State::new(b"0")).unwrap().1, Expr::Num("0"));
    assert_eq!(number_literal(State::new(b"-15x")).unwrap().1, Expr::Num("-15"));
    assert_eq!(number_literal(State::new(b"1.5.2")).unwrap().1, Expr::Float("1.5"));
    assert_eq!(number_literal(State::new(b"-0.25")).unwrap().1, Expr::Float("-0.25"));
    let (_, found, rest) = number_literal(State::new(b"1.")).unwrap();
    assert_eq!(found, Expr::Num("1"));
    assert_eq!(rest.offset, 1);
    let (_, found, rest) = number_literal(State::new(b"0x")).unwrap();
    assert_eq!(found, Expr::Num("0"));
    assert_eq!(rest.offset, 1);
    let (_, found, rest) = number_literal(State::new(b"0b2")).unwrap();
    assert_eq!(found, Expr::Num("0"));
    assert_eq!(rest.offset, 1);
    let (_, found, rest) = number_literal(State::new(b"0xfFg")).unwrap();
    assert_eq!(found, Expr::NonBase10Int { string: "fF", base: Base::Hex, is_negative: false });
    assert_eq!(rest.offset, 4);
    assert_eq!(
        number_literal(State::new(b"-0o777")).unwrap().1,
        Expr::NonBase10Int { string: "777", base: Base::Octal, is_negative: true }
    );
    for source in ["", "-", "-x", "x", ".5"] {
        let state = State::new(source.as_bytes());
        assert_eq!(number_literal(state), Err((Progress::NoProgress, (), state)));
    }
}

#[test]
fn string_literals() {
    let (progress, found, rest) = roc_parse::string_literal::parse(State::new(b"\"ab\"c")).unwrap();
    assert_eq!(progress, Progress::MadeProgress);
    assert_eq!(found, StrLiteral::PlainLine("ab"));
    assert_eq!(rest.offset, 4);
    assert_eq!(rest.column, 4);

    let (_, found, rest) =
        roc_parse::string_literal::parse(State::new(b"\"a\\\\\" b")).unwrap();
    assert_eq!(found, StrLiteral::PlainLine("a\\\\"));
    assert_eq!(rest.offset, 5);

    let state = State::new(b"ab\"");
    assert_eq!(
        roc_parse::string_literal::parse(state),
        Err((Progress::NoProgress, EString::Open(0, 0), state))
    );
    let (progress, error, at) = roc_parse::string_literal::parse(State::new(b"\"ab")).unwrap_err();
    assert_eq!(progress, Progress::MadeProgress);
    assert_eq!(error, EString::EndlessSingle(0, 3));
    assert_eq!(at.offset, 3);
    let (_, error, at) = roc_parse::string_literal::parse(State::new(b"\"a\\\nb\"")).unwrap_err();
    assert_eq!(error, EString::EndlessSingle(0, 3));
    assert_eq!(at.offset, 3);
    let (_, error, at) = roc_parse::string_literal::parse(State::new(b"\"\xc3\"")).unwrap_err();
    assert_eq!(error, EString::BadUtf8(0, 1));
    assert_eq!(at.offset, 1);
}

#[test]
fn expressions() {
    assert_eq!(expr(State::new(b"12 "), 0).unwrap().1, Expr::Num("12"));
    assert_eq!(expr(State::new(b"\"s\""), 0).unwrap().1, Expr::Str(StrLiteral::PlainLine("s")));
    let (progress, found, rest) = expr(State::new(b"name }"), 0).unwrap();
    assert_eq!(progress, Progress::MadeProgress);
    assert_eq!(found, Expr::Var("name"));
    assert_eq!(rest.offset, 4);
    let state = State::new(b"}");
    assert_eq!(
        expr(state, 0),
        Err((Progress::NoProgress, SyntaxError::Expr(EExpr::Start(0, 0)), state))
    );
    let state = State::new(b"else");
    assert_eq!(
        expr(state, 0),
        Err((Progress::NoProgress, SyntaxError::Expr(EExpr::Start(0, 0)), state))
    );
    let (progress, error, _) = expr(State::new(b"\"s"), 0).unwrap_err();
    assert_eq!(progress, Progress::MadeProgress);
    assert_eq!(error, SyntaxError::Expr(EExpr::Str(EString::EndlessSingle(0, 2), 0, 2)));
}

#[test]
fn literal_expressions_read_as_patterns() {
    let arena = Bump::new();
    assert_eq!(expr_to_pattern(&arena, &Expr::Num("1")), Pattern::NumLiteral("1"));
    assert_eq!(expr_to_pattern(&arena, &Expr::Float("1.5")), Pattern::FloatLiteral("1.5"));
    assert_eq!(
        expr_to_pattern(&arena, &Expr::NonBase10Int { string: "ff", base: Base::Hex, is_negative: true }),
        Pattern::NonBase10Literal { string: "ff", base: Base::Hex, is_negative: true }
    );
    assert_eq!(
        expr_to_pattern(&arena, &Expr::Str(StrLiteral::PlainLine("s"))),
        Pattern::StrLiteral(StrLiteral::PlainLine("s"))
    );
    assert_eq!(expr_to_pattern(&arena, &Expr::Var("x")), Pattern::Identifier("x"));
    let spaces = [CommentOrNewline::Newline];
    let inner = Expr::Num("2");
    assert_eq!(
        expr_to_pattern(&arena, &Expr::SpaceBefore(&inner, &spaces)),
        Pattern::SpaceBefore(&Pattern::NumLiteral("2"), &spaces)
    );
}

#[test]
fn cursor_at_a_known_place() {
    let state = State::at(b"abc", 1, 10, 5).unwrap();
    assert_eq!(state.offset, 1);
    assert_eq!(state.line, 10);
    assert_eq!(state.column, 5);
    assert_eq!(state.indent_col, 0);
    assert_eq!(state.peek(), Some(b'b'));
    assert_eq!(State::at(b"abc", 3, 0, 0).unwrap().peek(), None);
    assert_eq!(State::at(b"abc", 4, 0, 0), None);
    assert_eq!(State::at(b"abc", 0, usize::MAX - 2, 0), None);
    assert_eq!(State::at(b"abc", 0, 0, usize::MAX - 2), None);
    assert!(State::at(b"abc", 0, usize::MAX - 3, usize::MAX - 3).is_some());
    assert!(State::at(b"abc", 3, usize::MAX, usize::MAX).is_some());
    assert_eq!(State::at(b"abc", 0, 0, 0), Some(State::new(b"abc")));
}

#[test]
fn blank_space_on_one_line() {
    let arena = Bump::new();
    let state = State::new(b"   x");
    let (progress, spaces, rest) = space0_e(&arena, state, 0).unwrap();
    assert_eq!(progress, Progress::MadeProgress);
    assert_eq!(spaces, &[]);
    assert_eq!(rest.offset, 3);
    assert_eq!(rest.column, 3);
    assert_eq!(rest.line, 0);
    assert_eq!(rest.indent_col, 0);

    let state = State::new(b"x");
    let (progress, spaces, rest) = space0_e(&arena, state, 0).unwrap();
    assert_eq!(progress, Progress::NoProgress);
    assert_eq!(spaces, &[]);
    assert_eq!(rest, state);

    let state = State::new(b"");
    assert_eq!(space0_e(&arena, state, 5), Ok((Progress::NoProgress, &[][..], state)));
}

#[test]
fn blank_space_across_lines() {
    let arena = Bump::new();
    let source = b" # one\n\r\n#two\n   x";
    let (progress, spaces, rest) = space0_e(&arena, State::new(source), 3).unwrap();
    assert_eq!(progress, Progress::MadeProgress);
    assert_eq!(
        spaces,
        &[
            CommentOrNewline::LineComment(" one"),
            CommentOrNewline::Newline,
            CommentOrNewline::LineComment("two"),
        ]
    );
    assert_eq!(rest.offset, source.len() - 1);
    assert_eq!(rest.line, 3);
    assert_eq!(rest.column, 3);
    assert_eq!(rest.indent_col, 3);

    let (_, spaces, rest) = space0_e(&arena, State::new(b"  # end"), 0).unwrap();
    assert_eq!(spaces, &[CommentOrNewline::LineComment(" end")]);
    assert_eq!(rest.offset, 7);
    assert_eq!(rest.line, 0);
    assert_eq!(rest.column, 7);
}

#[test]
fn blank_space_problems() {
    let arena = Bump::new();
    let state = State::new(b"  \tx");
    assert_eq!(
        space0_e(&arena, state, 0),
        Err((Progress::MadeProgress, SpaceProblem::BadInput(BadInputError::HasTab, 0, 2), state))
    );
    let state = State::new(b"\n\n \tx");
    assert_eq!(
        space0_e(&arena, state, 0),
        Err((Progress::MadeProgress, SpaceProblem::BadInput(BadInputError::HasTab, 2, 1), state))
    );
    let state = State::new(b" #\xfe\n");
    assert_eq!(
        space0_e(&arena, state, 0),
        Err((Progress::MadeProgress, SpaceProblem::BadInput(BadInputError::BadUtf8, 0, 1), state))
    );
    let state = State::new(b"  \n  x").advance(2);
    assert_eq!(
        space0_e(&arena, state, 3),
        Err((Progress::MadeProgress, SpaceProblem::Indent(0, 2), state))
    );
    let (_, _, rest) = space0_e(&arena, state, 2).unwrap();
    assert_eq!(rest.line, 1);
    assert_eq!(rest.column, 2);
}
