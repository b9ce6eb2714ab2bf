//! The pattern syntax tree, as arena-allocated nodes and as the mathematical
//! model that the grammar is stated over.

use crate::region::{Located, Region};
use vstd::prelude::*;
use vstd::string::StringSliceAdditionalSpecFns;

verus! {

/// The base of an integer literal.
#[derive(Clone, Copy, Debug, PartialEq, Eq, Structural)]
pub enum Base {
    Octal,
    Binary,
    Hex,
}

/// A string literal: the text between its quotes, escapes left as written.
#[derive(Clone, Copy, Debug, PartialEq, Eq)]
pub enum StrLiteral<'a> {
    PlainLine(&'a str),
}

/// A piece of trivia between two tokens.
#[derive(Clone, Copy, Debug, PartialEq, Eq)]
pub enum CommentOrNewline<'a> {
    Newline,
    /// The text of a comment, from behind its `#` to the end of its line.
    LineComment(&'a str),
}

/// What a `CommentOrNewline` stands for.
pub enum TriviaModel {
    Newline,
    LineComment(Seq<u8>),
}

impl<'a> View for CommentOrNewline<'a> {
    type V = TriviaModel;

    open spec fn view(&self) -> TriviaModel {
        match *self {
            CommentOrNewline::Newline => TriviaModel::Newline,
            CommentOrNewline::LineComment(text) => TriviaModel::LineComment(text.spec_bytes()),
        }
    }
}

/// What a slice of trivia stands for, item by item.
pub open spec fn trivia_view<'a>(items: Seq<CommentOrNewline<'a>>) -> Seq<TriviaModel> {
    Seq::new(items.len(), |i: int| items[i]@)
}

/// An expression that can stand as the default of an optional record field:
/// a literal or a variable, with the trivia that stood before it.
#[derive(Clone, Copy, Debug, PartialEq, Eq)]
pub enum Expr<'a> {
    Num(&'a str),
    Float(&'a str),
    NonBase10Int { string: &'a str, base: Base, is_negative: bool },
    Str(StrLiteral<'a>),
    Var(&'a str),
    /// An expression with the line breaks and comments that stood before it.
    SpaceBefore(&'a Expr<'a>, &'a [CommentOrNewline<'a>]),
}

/// What an `Expr` stands for: the same shape over the bytes of its text.
pub enum ExprModel {
    Num(Seq<u8>),
    Float(Seq<u8>),
    NonBase10Int { string: Seq<u8>, base: Base, is_negative: bool },
    Str(Seq<u8>),
    Var(Seq<u8>),
    SpaceBefore(Box<ExprModel>, Seq<TriviaModel>),
}

impl<'a> View for Expr<'a> {
    type V = ExprModel;

    open spec fn view(&self) -> ExprModel
        decreases self,
    {
        match *self {
            Expr::SpaceBefore(inner, spaces) => ExprModel::SpaceBefore(
                Box::new(inner@),
                trivia_view(spaces@),
            ),
            Expr::Num(text) => ExprModel::Num(text.spec_bytes()),
            Expr::Float(text) => ExprModel::Float(text.spec_bytes()),
            Expr::NonBase10Int { string, base, is_negative } => ExprModel::NonBase10Int {
                string: string.spec_bytes(),
                base,
                is_negative,
            },
            Expr::Str(StrLiteral::PlainLine(text)) => ExprModel::Str(text.spec_bytes()),
            Expr::Var(name) => ExprModel::Var(name.spec_bytes()),
        }
    }
}

/// A pattern: the shape that a function parameter, a branch of a `when` or
/// the left side of a destructuring definition matches a value against.
#[derive(Clone, Copy, Debug, PartialEq, Eq)]
pub enum Pattern<'a> {
    /// Binds a fresh variable.
    Identifier(&'a str),
    GlobalTag(&'a str),
    PrivateTag(&'a str),
    /// A tag applied to one or more arguments.
    Apply(&'a Located<Pattern<'a>>, &'a [Located<Pattern<'a>>]),
    /// The fields of a record, in the order in which they were written.
    RecordDestructure(&'a [Located<Pattern<'a>>]),
    /// `label: pattern`
    RequiredField(&'a str, &'a Located<Pattern<'a>>),
    /// `label ? default`
    OptionalField(&'a str, &'a Located<Expr<'a>>),
    NumLiteral(&'a str),
    NonBase10Literal { string: &'a str, base: Base, is_negative: bool },
    FloatLiteral(&'a str),
    StrLiteral(StrLiteral<'a>),
    /// `_` or `_name`; the name is empty for the anonymous form.
    Underscore(&'a str),
    SpaceBefore(&'a Pattern<'a>, &'a [CommentOrNewline<'a>]),
    SpaceAfter(&'a Pattern<'a>, &'a [CommentOrNewline<'a>]),
    /// Text that was read as a pattern and is none, kept for diagnostics.
    Malformed(&'a str),
}

/// What a `Pattern` stands for: the same tree, with the bytes of each text
/// and a sequence for each slice.
pub enum PatternModel {
    Identifier(Seq<u8>),
    GlobalTag(Seq<u8>),
    PrivateTag(Seq<u8>),
    Apply(Box<Located<PatternModel>>, Seq<Located<PatternModel>>),
    RecordDestructure(Seq<Located<PatternModel>>),
    RequiredField(Seq<u8>, Box<Located<PatternModel>>),
    OptionalField(Seq<u8>, Located<ExprModel>),
    NumLiteral(Seq<u8>),
    NonBase10Literal { string: Seq<u8>, base: Base, is_negative: bool },
    FloatLiteral(Seq<u8>),
    StrLiteral(Seq<u8>),
    Underscore(Seq<u8>),
    SpaceBefore(Box<PatternModel>, Seq<TriviaModel>),
    SpaceAfter(Box<PatternModel>, Seq<TriviaModel>),
    Malformed(Seq<u8>),
}

impl<'a> Pattern<'a> {
    /// This node stands for `m`: both have the same shape, texts with the
    /// same bytes, and children that stand for the children of `m`.
    pub open spec fn has_model(self, m: PatternModel) -> bool
        decreases m,
    {
        match m {
            PatternModel::Identifier(name) => self matches Pattern::Identifier(s) && s.spec_bytes()
                == name,
            PatternModel::GlobalTag(name) => self matches Pattern::GlobalTag(s) && s.spec_bytes()
                == name,
            PatternModel::PrivateTag(name) => self matches Pattern::PrivateTag(s) && s.spec_bytes()
                == name,
            PatternModel::Apply(head, args) => {
                &&& self matches Pattern::Apply(h, a)
                &&& h.region == head.region
                &&& h.value.has_model(head.value)
                &&& a@.len() == args.len()
                &&& forall|i: int|
                    0 <= i < args.len() ==> {
                        &&& (#[trigger] a@[i]).region == args[i].region
                        &&& a@[i].value.has_model(args[i].value)
                    }
            },
            PatternModel::RecordDestructure(fields) => {
                &&& self matches Pattern::RecordDestructure(f)
                &&& f@.len() == fields.len()
                &&& forall|i: int|
                    0 <= i < fields.len() ==> {
                        &&& (#[trigger] f@[i]).region == fields[i].region
                        &&& f@[i].value.has_model(fields[i].value)
                    }
            },
            PatternModel::RequiredField(label, value) => {
                &&& self matches Pattern::RequiredField(l, v)
                &&& l.spec_bytes() == label
                &&& v.region == value.region
                &&& v.value.has_model(value.value)
            },
            PatternModel::OptionalField(label, default) => {
                &&& self matches Pattern::OptionalField(l, d)
                &&& l.spec_bytes() == label
                &&& d.region == default.region
                &&& d.value@ == default.value
            },
            PatternModel::NumLiteral(text) => self matches Pattern::NumLiteral(s) && s.spec_bytes()
                == text,
            PatternModel::NonBase10Literal { string, base, is_negative } => {
                &&& self matches Pattern::NonBase10Literal { string: s, base: b, is_negative: n }
                &&& s.spec_bytes() == string
                &&& b == base
                &&& n == is_negative
            },
            PatternModel::FloatLiteral(text) => self matches Pattern::FloatLiteral(s)
                && s.spec_bytes() == text,
            PatternModel::StrLiteral(text) => self matches Pattern::StrLiteral(
                StrLiteral::PlainLine(s),
            ) && s.spec_bytes() == text,
            PatternModel::Underscore(name) => self matches Pattern::Underscore(s) && s.spec_bytes()
                == name,
            PatternModel::SpaceBefore(inner, spaces) => {
                &&& self matches Pattern::SpaceBefore(p, s)
                &&& p.has_model(*inner)
                &&& trivia_view(s@) == spaces
            },
            PatternModel::SpaceAfter(inner, spaces) => {
                &&& self matches Pattern::SpaceAfter(p, s)
                &&& p.has_model(*inner)
                &&& trivia_view(s@) == spaces
            },
            PatternModel::Malformed(text) => self matches Pattern::Malformed(s) && s.spec_bytes()
                == text,
        }
    }
}

impl<'a> View for Pattern<'a> {
    type V = PatternModel;

    /// The model that this node stands for. A slice of an arena gives no
    /// measure to recurse on, so the view is chosen by `has_model`, which
    /// recurses on the model; `lemma_view_is_model` ties the two together.
    open spec fn view(&self) -> PatternModel {
        choose|m: PatternModel| self.has_model(m)
    }
}

/// The view of a node is the one model that it stands for.
pub proof fn lemma_view_is_model<'a>(node: Pattern<'a>, m: PatternModel)
    requires
        node.has_model(m),
    ensures
        node@ == m,
{
    lemma_model_unique(node, m, node@);
}

/// The tree `value`, read from `region`, is well located: no region in it
/// ends before it starts, the region of every node covers the regions of its
/// children, and a tag is applied to at least one argument.
pub open spec fn well_located(region: Region, value: PatternModel) -> bool
    decreases value,
{
    &&& region.ordered()
    &&& match value {
        PatternModel::Apply(head, args) => {
            &&& args.len() > 0
            &&& region.covers(head.region)
            &&& well_located(head.region, head.value)
            &&& forall|i: int|
                0 <= i < args.len() ==> {
                    &&& region.covers((#[trigger] args[i]).region)
                    &&& well_located(args[i].region, args[i].value)
                }
        },
        PatternModel::RecordDestructure(fields) => forall|i: int|
            0 <= i < fields.len() ==> {
                &&& region.covers((#[trigger] fields[i]).region)
                &&& well_located(fields[i].region, fields[i].value)
            },
        PatternModel::RequiredField(_, field) => {
            &&& region.covers(field.region)
            &&& well_located(field.region, field.value)
        },
        PatternModel::OptionalField(_, default) => {
            &&& region.covers(default.region)
            &&& default.region.ordered()
        },
        PatternModel::SpaceBefore(inner, _) => well_located(region, *inner),
        PatternModel::SpaceAfter(inner, _) => well_located(region, *inner),
        _ => true,
    }
}

/// The located node `node` stands for `m`: same region, and a value that
/// stands for the value of `m`.
pub open spec fn located_has_model<'a>(
    node: Located<Pattern<'a>>,
    m: Located<PatternModel>,
) -> bool {
    node.region == m.region && node.value.has_model(m.value)
}

/// Each node of `nodes` stands for the model at the same index of `ms`.
pub open spec fn all_have_models<'a>(
    nodes: Seq<Located<Pattern<'a>>>,
    ms: Seq<Located<PatternModel>>,
) -> bool {
    &&& nodes.len() == ms.len()
    &&& forall|i: int| 0 <= i < ms.len() ==> located_has_model(#[trigger] nodes[i], ms[i])
}

/// A node stands for at most one model.
pub proof fn lemma_model_unique<'a>(node: Pattern<'a>, m1: PatternModel, m2: PatternModel)
    requires
        node.has_model(m1),
        node.has_model(m2),
    ensures
        m1 == m2,
    decreases m1,
{
    match m1 {
        PatternModel::Apply(head1, args1) => {
            let (head2, args2) = (m2->Apply_0, m2->Apply_1);
            let (h, a) = (node->Apply_0, node->Apply_1);
            lemma_model_unique(h.value, head1.value, head2.value);
            assert forall|i: int| 0 <= i < args1.len() implies args1[i] == args2[i] by {
                assert(a@[i].region == args1[i].region);
                assert(a@[i].region == args2[i].region);
                lemma_model_unique(a@[i].value, args1[i].value, args2[i].value);
            }
            assert(args1 =~= args2);
        },
        PatternModel::RecordDestructure(fields1) => {
            let fields2 = m2->RecordDestructure_0;
            let f = node->RecordDestructure_0;
            assert forall|i: int| 0 <= i < fields1.len() implies fields1[i] == fields2[i] by {
                assert(f@[i].region == fields1[i].region);
                assert(f@[i].region == fields2[i].region);
                lemma_model_unique(f@[i].value, fields1[i].value, fields2[i].value);
            }
            assert(fields1 =~= fields2);
        },
        PatternModel::RequiredField(_, value1) => {
            lemma_model_unique(node->RequiredField_1.value, value1.value, m2->RequiredField_1.value);
        },
        PatternModel::SpaceBefore(inner1, _) => {
            lemma_model_unique(*node->SpaceBefore_0, *inner1, *m2->SpaceBefore_0);
        },
        PatternModel::SpaceAfter(inner1, _) => {
            lemma_model_unique(*node->SpaceAfter_0, *inner1, *m2->SpaceAfter_0);
        },
        _ => {},
    }
}

} // verus!
