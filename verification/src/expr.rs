//! The expressions that may stand as the default of an optional record
//! field, and how a literal expression reads as a pattern.

use crate::arena::alloc_in;
use crate::ast::{Expr, ExprModel, Pattern, PatternModel, StrLiteral};
use crate::ident::{lowercase_ident, lowercase_ident_spec, lemma_ident_advances};
use crate::number_literal::{lemma_number_advances, number_literal, number_literal_spec};
use crate::parser::{EExpr, ParseResult, Progress, State, SyntaxError};
use crate::string_literal::{lemma_string_advances, string_literal_spec};
use bumpalo::Bump;
use vstd::prelude::*;

verus! {

/// What reading an expression at `state` yields: a number literal, else a
/// string literal, else a lowercase name as a variable. A string literal
/// that fails with progress fails the expression, at the same place; where
/// nothing begins, the expression fails without progress.
pub open spec fn expr_spec<'a>(state: State<'a>, min_indent: u16) -> ParseResult<
    'a,
    ExprModel,
    SyntaxError<'a>,
> {
    match number_literal_spec(state) {
        Some((number, s)) => Ok((Progress::MadeProgress, number, s)),
        None => match string_literal_spec(state) {
            Ok((p, text, s)) => Ok((p, ExprModel::Str(text), s)),
            Err((Progress::MadeProgress, e, s)) => Err(
                (Progress::MadeProgress, SyntaxError::Expr(EExpr::Str(e, s.line, s.column)), s),
            ),
            Err((Progress::NoProgress, _, _)) => match lowercase_ident_spec(state) {
                Some((name, s)) => Ok((Progress::MadeProgress, ExprModel::Var(name), s)),
                None => Err(
                    (
                        Progress::NoProgress,
                        SyntaxError::Expr(EExpr::Start(state.line, state.column)),
                        state,
                    ),
                ),
            },
        },
    }
}

/// The pattern that matches what the literal or variable `e` denotes.
pub open spec fn pattern_of_expr(e: ExprModel) -> PatternModel
    decreases e,
{
    match e {
        ExprModel::SpaceBefore(inner, spaces) => PatternModel::SpaceBefore(
            Box::new(pattern_of_expr(*inner)),
            spaces,
        ),
        ExprModel::Num(text) => PatternModel::NumLiteral(text),
        ExprModel::Float(text) => PatternModel::FloatLiteral(text),
        ExprModel::NonBase10Int { string, base, is_negative } => PatternModel::NonBase10Literal {
            string,
            base,
            is_negative,
        },
        ExprModel::Str(text) => PatternModel::StrLiteral(text),
        ExprModel::Var(name) => PatternModel::Identifier(name),
    }
}

/// A successful read of an expression moves the cursor forward within the
/// input; a failure without progress leaves it where it was.
pub proof fn lemma_expr_advances<'a>(state: State<'a>, min_indent: u16)
    requires
        state.wf(),
    ensures
        expr_spec(state, min_indent) matches Ok((p, _, s)) ==> p == Progress::MadeProgress
            && s.wf() && state.reaches(s) && s.offset > state.offset,
        expr_spec(state, min_indent) matches Err((p, _, s)) ==> s.wf() && state.reaches(s) && (p
            == Progress::NoProgress <==> s == state),
{
    lemma_number_advances(state);
    lemma_string_advances(state);
    lemma_ident_advances(state);
}

/// Reads one expression.
pub fn expr<'a>(state: State<'a>, min_indent: u16) -> (r: ParseResult<
    'a,
    Expr<'a>,
    SyntaxError<'a>,
>)
    requires
        state.wf(),
    ensures
        match (r, expr_spec(state, min_indent)) {
            (Ok((p, e, s)), Ok((mp, m, ms))) => p == mp && e@ == m && s == ms,
            (Err(e), Err(me)) => e == me,
            _ => false,
        },
        r matches Ok((_, _, s)) ==> s.wf() && state.reaches(s) && s.offset > state.offset,
{
    proof {
        lemma_expr_advances(state, min_indent);
    }
    match number_literal(state) {
        Ok((_, number, s)) => Ok((Progress::MadeProgress, number, s)),
        Err(_) => match crate::string_literal::parse(state) {
            Ok((p, text, s)) => Ok((p, Expr::Str(text), s)),
            Err((Progress::MadeProgress, e, s)) => Err(
                (Progress::MadeProgress, SyntaxError::Expr(EExpr::Str(e, s.line, s.column)), s),
            ),
            Err((Progress::NoProgress, _, _)) => match lowercase_ident(state) {
                Ok((_, name, s)) => Ok((Progress::MadeProgress, Expr::Var(name), s)),
                Err(_) => Err(
                    (
                        Progress::NoProgress,
                        SyntaxError::Expr(EExpr::Start(state.line, state.column)),
                        state,
                    ),
                ),
            },
        },
    }
}

/// The pattern that matches what the literal or variable `expr` denotes,
/// with the trivia that stood before it.
pub fn expr_to_pattern<'a>(arena: &'a Bump, expr: &Expr<'a>) -> (p: Pattern<'a>)
    ensures
        p.has_model(pattern_of_expr(expr@)),
    decreases expr,
{
    match *expr {
        Expr::Num(text) => Pattern::NumLiteral(text),
        Expr::Float(text) => Pattern::FloatLiteral(text),
        Expr::NonBase10Int { string, base, is_negative } => Pattern::NonBase10Literal {
            string,
            base,
            is_negative,
        },
        Expr::Str(StrLiteral::PlainLine(text)) => Pattern::StrLiteral(StrLiteral::PlainLine(text)),
        Expr::Var(name) => Pattern::Identifier(name),
        Expr::SpaceBefore(inner, spaces) => {
            let converted = expr_to_pattern(arena, inner);
            Pattern::SpaceBefore(alloc_in(arena, converted), spaces)
        },
    }
}

} // verus!
