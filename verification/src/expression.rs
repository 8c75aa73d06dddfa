//! The output data model: a dialect selector and the tree of parsed inline
//! nodes, together with its spec-level counterpart used in every contract.

use vstd::prelude::*;

verus! {

/// The two supported note-markup dialects. Every parsing function takes the
/// dialect explicitly; nothing is global.
#[derive(Clone, Copy, Debug, PartialEq, Eq, Structural)]
pub enum ContentStyle {
    Roam,
    Logseq,
}

/// One parsed inline node. Styled spans, block quotes and attribute values
/// hold their recursively parsed contents.
#[derive(Debug, PartialEq, Eq)]
pub enum Expression {
    Text(String),
    RawHtml(String),
    RawHyperlink(String),
    Image { alt: String, url: String },
    Video { url: String },
    BraceDirective(String),
    Table,
    Todo { done: bool },
    PageEmbed(String),
    BlockEmbed(String),
    TripleBacktick(String),
    SingleBacktick(String),
    Hashtag(String, bool),
    Link(String),
    MarkdownInternalLink { label: String, page: String },
    MarkdownExternalLink { title: String, url: String },
    BlockRef(String),
    Attribute { name: String, value: Vec<Expression> },
    Bold(Vec<Expression>),
    Italic(Vec<Expression>),
    Strike(Vec<Expression>),
    Highlight(Vec<Expression>),
    Latex(String),
    BlockQuote(Vec<Expression>),
    HRule,
}

/// The spec-level image of an [`Expression`]: the same shape over sequences
/// of characters.
pub enum SpecExpr {
    Text(Seq<char>),
    RawHtml(Seq<char>),
    RawHyperlink(Seq<char>),
    Image { alt: Seq<char>, url: Seq<char> },
    Video { url: Seq<char> },
    BraceDirective(Seq<char>),
    Table,
    Todo { done: bool },
    PageEmbed(Seq<char>),
    BlockEmbed(Seq<char>),
    TripleBacktick(Seq<char>),
    SingleBacktick(Seq<char>),
    Hashtag(Seq<char>, bool),
    Link(Seq<char>),
    MarkdownInternalLink { label: Seq<char>, page: Seq<char> },
    MarkdownExternalLink { title: Seq<char>, url: Seq<char> },
    BlockRef(Seq<char>),
    Attribute { name: Seq<char>, value: Seq<SpecExpr> },
    Bold(Seq<SpecExpr>),
    Italic(Seq<SpecExpr>),
    Strike(Seq<SpecExpr>),
    Highlight(Seq<SpecExpr>),
    Latex(Seq<char>),
    BlockQuote(Seq<SpecExpr>),
    HRule,
}

/// The spec-level image of a sequence of expressions.
pub open spec fn view_exprs(v: Seq<Expression>) -> Seq<SpecExpr>
    decreases v,
{
    if v.len() == 0 {
        Seq::empty()
    } else {
        view_exprs(v.drop_last()).push(v.last()@)
    }
}

impl View for Expression {
    type V = SpecExpr;

    open spec fn view(&self) -> SpecExpr
        decreases self,
    {
        match self {
            Expression::Text(s) => SpecExpr::Text(s@),
            Expression::RawHtml(s) => SpecExpr::RawHtml(s@),
            Expression::RawHyperlink(s) => SpecExpr::RawHyperlink(s@),
            Expression::Image { alt, url } => SpecExpr::Image { alt: alt@, url: url@ },
            Expression::Video { url } => SpecExpr::Video { url: url@ },
            Expression::BraceDirective(s) => SpecExpr::BraceDirective(s@),
            Expression::Table => SpecExpr::Table,
            Expression::Todo { done } => SpecExpr::Todo { done: *done },
            Expression::PageEmbed(s) => SpecExpr::PageEmbed(s@),
            Expression::BlockEmbed(s) => SpecExpr::BlockEmbed(s@),
            Expression::TripleBacktick(s) => SpecExpr::TripleBacktick(s@),
            Expression::SingleBacktick(s) => SpecExpr::SingleBacktick(s@),
            Expression::Hashtag(s, dot) => SpecExpr::Hashtag(s@, *dot),
            Expression::Link(s) => SpecExpr::Link(s@),
            Expression::MarkdownInternalLink { label, page } => SpecExpr::MarkdownInternalLink {
                label: label@,
                page: page@,
            },
            Expression::MarkdownExternalLink { title, url } => SpecExpr::MarkdownExternalLink {
                title: title@,
                url: url@,
            },
            Expression::BlockRef(s) => SpecExpr::BlockRef(s@),
            Expression::Attribute { name, value } => SpecExpr::Attribute {
                name: name@,
                value: view_exprs(value@),
            },
            Expression::Bold(v) => SpecExpr::Bold(view_exprs(v@)),
            Expression::Italic(v) => SpecExpr::Italic(view_exprs(v@)),
            Expression::Strike(v) => SpecExpr::Strike(view_exprs(v@)),
            Expression::Highlight(v) => SpecExpr::Highlight(view_exprs(v@)),
            Expression::Latex(s) => SpecExpr::Latex(s@),
            Expression::BlockQuote(v) => SpecExpr::BlockQuote(view_exprs(v@)),
            Expression::HRule => SpecExpr::HRule,
        }
    }
}

pub proof fn lemma_view_exprs_push(v: Seq<Expression>, e: Expression)
    ensures
        view_exprs(v.push(e)) == view_exprs(v).push(e@),
{
    assert(v.push(e).drop_last() =~= v);
    assert(v.push(e).last() == e);
}

pub proof fn lemma_view_exprs_concat(a: Seq<Expression>, b: Seq<Expression>)
    ensures
        view_exprs(a + b) == view_exprs(a) + view_exprs(b),
    decreases b,
{
    if b.len() == 0 {
        assert(a + b =~= a);
        assert(view_exprs(a) + view_exprs(b) =~= view_exprs(a));
    } else {
        lemma_view_exprs_concat(a, b.drop_last());
        assert((a + b).drop_last() =~= a + b.drop_last());
        assert((a + b).last() == b.last());
        assert(view_exprs(a) + view_exprs(b) =~= (view_exprs(a) + view_exprs(
            b.drop_last(),
        )).push(b.last()@));
    }
}

/// The nodes nested one level inside `e`: the contents of a styled span or
/// block quote, or an attribute's value; other nodes contain nothing.
pub open spec fn spec_contained(e: SpecExpr) -> Seq<SpecExpr> {
    match e {
        SpecExpr::Bold(v) => v,
        SpecExpr::Italic(v) => v,
        SpecExpr::Strike(v) => v,
        SpecExpr::Highlight(v) => v,
        SpecExpr::BlockQuote(v) => v,
        SpecExpr::Attribute { value, .. } => value,
        _ => Seq::empty(),
    }
}

impl Expression {
    /// The expressions contained one level inside this node.
    pub fn contained_expressions(&self) -> (r: &[Expression])
        ensures
            view_exprs(r@) == spec_contained(self@),
    {
        match self {
            Expression::Bold(exprs) => exprs.as_slice(),
            Expression::Italic(exprs) => exprs.as_slice(),
            Expression::Strike(exprs) => exprs.as_slice(),
            Expression::Highlight(exprs) => exprs.as_slice(),
            Expression::BlockQuote(exprs) => exprs.as_slice(),
            Expression::Attribute { value, .. } => value.as_slice(),
            _ => &[],
        }
    }
}

} // verus!
