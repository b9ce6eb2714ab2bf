//! The arena that owns every node of one parse.

use crate::ast::{CommentOrNewline, Pattern};
use crate::region::Located;
use bumpalo::Bump;
use vstd::prelude::*;

verus! {

/// `bumpalo::Bump`, the bump allocator that all nodes of a parse live in.
/// Nothing inside it is visible to proofs.
#[verifier::external_type_specification]
#[verifier::external_body]
pub struct ExBump<const MIN_ALIGN: usize>(Bump<MIN_ALIGN>);

/// Moves `value` into the arena with `Bump::alloc` and hands back a shared
/// reference to it. Trusted: the reference points at a value equal to the one
/// passed in. The call aborts only when the allocator cannot reserve memory.
#[verifier::external_body]
pub(crate) fn alloc_in<'a, T>(arena: &'a Bump, value: T) -> (r: &'a T)
    ensures
        *r == value,
{
    arena.alloc(value)
}

/// A growable list of located patterns that lives in the arena:
/// `bumpalo::collections::Vec`. Nothing inside it is visible to proofs; what
/// it holds goes by the name `patterns_in`.
#[verifier::external_body]
pub struct PatternVec<'a> {
    items: bumpalo::collections::Vec<'a, Located<Pattern<'a>>>,
}

/// The patterns that a `PatternVec` holds, in the order in which they were
/// pushed.
pub uninterp spec fn patterns_in(v: PatternVec<'_>) -> Seq<Located<Pattern<'_>>>;

/// An empty list in `arena`, made with `Vec::new_in`. Trusted: it holds
/// nothing.
#[verifier::external_body]
pub(crate) fn patterns_new_in<'a>(arena: &'a Bump) -> (v: PatternVec<'a>)
    ensures
        patterns_in(v) == Seq::<Located<Pattern<'a>>>::empty(),
{
    PatternVec { items: bumpalo::collections::Vec::new_in(arena) }
}

/// Appends `item` with `Vec::push`. Trusted: the list then holds what it
/// held before, followed by `item`. `Vec::push` panics where the number of
/// items would overflow `usize`, which `requires` leaves out; beyond that the
/// call aborts only when the arena cannot reserve memory.
#[verifier::external_body]
pub(crate) fn patterns_push<'a>(v: &mut PatternVec<'a>, item: Located<Pattern<'a>>)
    requires
        patterns_in(*old(v)).len() < usize::MAX,
    ensures
        patterns_in(*final(v)) == patterns_in(*old(v)).push(item),
{
    v.items.push(item)
}

/// Turns the list into a slice of the arena with `Vec::into_bump_slice`.
/// Trusted: the slice holds the items of the list, in their order.
#[verifier::external_body]
pub(crate) fn patterns_into_bump_slice<'a>(v: PatternVec<'a>) -> (r: &'a [Located<Pattern<'a>>])
    ensures
        r@ == patterns_in(v),
{
    v.items.into_bump_slice()
}

impl<'a> PatternVec<'a> {
    /// The items as a slice of the arena, in their order.
    pub fn into_bump_slice(self) -> (r: &'a [Located<Pattern<'a>>])
        ensures
            r@ == patterns_in(self),
    {
        patterns_into_bump_slice(self)
    }
}

/// A growable list of trivia that lives in the arena:
/// `bumpalo::collections::Vec`. Nothing inside it is visible to proofs; what
/// it holds goes by the name `trivia_in`.
#[verifier::external_body]
pub struct TriviaVec<'a> {
    items: bumpalo::collections::Vec<'a, CommentOrNewline<'a>>,
}

/// The trivia that a `TriviaVec` holds, in the order in which they were
/// pushed.
pub uninterp spec fn trivia_in(v: TriviaVec<'_>) -> Seq<CommentOrNewline<'_>>;

/// An empty list in `arena`, made with `Vec::new_in`. Trusted: it holds
/// nothing.
#[verifier::external_body]
pub(crate) fn trivia_new_in<'a>(arena: &'a Bump) -> (v: TriviaVec<'a>)
    ensures
        trivia_in(v) == Seq::<CommentOrNewline<'a>>::empty(),
{
    TriviaVec { items: bumpalo::collections::Vec::new_in(arena) }
}

/// Appends `item` with `Vec::push`. Trusted: the list then holds what it
/// held before, followed by `item`. `Vec::push` panics where the number of
/// items would overflow `usize`, which `requires` leaves out; beyond that the
/// call aborts only when the arena cannot reserve memory.
#[verifier::external_body]
pub(crate) fn trivia_push<'a>(v: &mut TriviaVec<'a>, item: CommentOrNewline<'a>)
    requires
        trivia_in(*old(v)).len() < usize::MAX,
    ensures
        trivia_in(*final(v)) == trivia_in(*old(v)).push(item),
{
    v.items.push(item)
}

/// Turns the list into a slice of the arena with `Vec::into_bump_slice`.
/// Trusted: the slice holds the items of the list, in their order.
#[verifier::external_body]
pub(crate) fn trivia_into_bump_slice<'a>(v: TriviaVec<'a>) -> (r: &'a [CommentOrNewline<'a>])
    ensures
        r@ == trivia_in(v),
{
    v.items.into_bump_slice()
}

} // verus!
