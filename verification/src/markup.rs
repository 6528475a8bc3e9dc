//! The markup model: style-tagged spans of text, grouped into documents.
//!
//! Documents are pure values produced once per evaluator statement (and once
//! for the final result) and are never mutated afterwards; a renderer turns
//! them into flat strings.

use vstd::prelude::*;

verus! {

/// The closed set of style categories that a span of evaluator output can
/// carry.  Every renderer must handle each category explicitly: a new
/// category cannot be added without updating every renderer, since the
/// renderers match on this enum without a default arm.
#[derive(Clone, Copy, PartialEq, Eq, Structural, Debug)]
pub enum StyleTag {
    Whitespace,
    Emphasized,
    Dimmed,
    Text,
    String,
    Keyword,
    Value,
    Unit,
    Identifier,
    TypeIdentifier,
    Operator,
    Decorator,
}

/// Mathematical image of a span: its style category and its text as a
/// sequence of characters.
pub struct SpanModel {
    pub tag: StyleTag,
    pub text: Seq<char>,
}

/// The smallest unit of styled output: one style category and one immutable
/// piece of text.
pub struct Span {
    pub tag: StyleTag,
    pub text: String,
}

impl View for Span {
    type V = SpanModel;

    open spec fn view(&self) -> SpanModel {
        SpanModel { tag: self.tag, text: self.text@ }
    }
}

impl Span {
    pub fn new(tag: StyleTag, text: String) -> (s: Span)
        ensures
            s@ == (SpanModel { tag, text: text@ }),
    {
        Span { tag, text }
    }
}

/// An ordered sequence of spans.  The order is the rendering order and is
/// significant.
pub struct Document {
    pub spans: Vec<Span>,
}

impl View for Document {
    type V = Seq<SpanModel>;

    open spec fn view(&self) -> Seq<SpanModel> {
        self.spans@.map_values(|s: Span| s@)
    }
}

impl Document {
    pub fn new() -> (d: Document)
        ensures
            d@ == Seq::<SpanModel>::empty(),
    {
        let d = Document { spans: Vec::new() };
        proof {
            assert(d@ =~= Seq::<SpanModel>::empty());
        }
        d
    }

    pub fn push(&mut self, span: Span)
        ensures
            final(self)@ == old(self)@.push(span@),
    {
        let ghost before = self@;
        let ghost pushed = span@;
        self.spans.push(span);
        proof {
            assert(self@ =~= before.push(pushed));
        }
    }

    pub fn len(&self) -> (n: usize)
        ensures
            n == self@.len(),
    {
        self.spans.len()
    }
}

/// A stable numbering of the style categories.  The trusted boundary uses it
/// to state which category an evaluator markup part carries without putting
/// the enum itself into an uninterpreted function's signature.
pub open spec fn tag_code(t: StyleTag) -> int {
    match t {
        StyleTag::Whitespace => 0,
        StyleTag::Emphasized => 1,
        StyleTag::Dimmed => 2,
        StyleTag::Text => 3,
        StyleTag::String => 4,
        StyleTag::Keyword => 5,
        StyleTag::Value => 6,
        StyleTag::Unit => 7,
        StyleTag::Identifier => 8,
        StyleTag::TypeIdentifier => 9,
        StyleTag::Operator => 10,
        StyleTag::Decorator => 11,
    }
}

} // verus!
