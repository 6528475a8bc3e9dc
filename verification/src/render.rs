//! Renderers: pure functions from a document and a target style to a flat
//! string.
//!
//! Two targets exist.  `Plain` maps every span to its bare text.  `Protocol`
//! wraps some categories in the control bytes of a chat styling protocol
//! (`\x02` bold toggle, `\x03NN` foreground colour, `\x1d` italic toggle,
//! `\x0f` reset).  Rendering is span-by-span concatenation in document
//! order; no state crosses from one span to the next.

use vstd::prelude::*;

use crate::markup::{Document, Span, SpanModel, StyleTag};

verus! {

/// The output target a document is rendered for.
#[derive(Clone, Copy, PartialEq, Eq, Structural, Debug)]
pub enum RenderTarget {
    Plain,
    Protocol,
}

/// The control bytes the protocol target puts in front of a span's text.
/// Empty exactly for the categories that stay undecorated.
pub open spec fn style_prefix(tag: StyleTag) -> Seq<char> {
    match tag {
        StyleTag::Whitespace => Seq::<char>::empty(),
        StyleTag::Emphasized => seq!['\x02'],
        StyleTag::Dimmed => Seq::<char>::empty(),
        StyleTag::Text => Seq::<char>::empty(),
        StyleTag::String => seq!['\x03', '0', '3'],
        StyleTag::Keyword => seq!['\x03', '1', '3'],
        StyleTag::Value => seq!['\x03', '0', '8'],
        StyleTag::Unit => seq!['\x03', '1', '1'],
        StyleTag::Identifier => Seq::<char>::empty(),
        StyleTag::TypeIdentifier => seq!['\x03', '1', '2', '\x1d'],
        StyleTag::Operator => seq!['\x02'],
        StyleTag::Decorator => seq!['\x03', '0', '3'],
    }
}

/// Whether the protocol target decorates this category at all.
pub open spec fn decorated(tag: StyleTag) -> bool {
    style_prefix(tag).len() > 0
}

/// The control bytes the protocol target puts after a span's text: a single
/// reset byte whenever the span was decorated, nothing otherwise.
pub open spec fn style_suffix(tag: StyleTag) -> Seq<char> {
    if decorated(tag) {
        seq!['\x0f']
    } else {
        Seq::<char>::empty()
    }
}

/// What one span renders to under the given target.
pub open spec fn span_render(target: RenderTarget, s: SpanModel) -> Seq<char> {
    match target {
        RenderTarget::Plain => s.text,
        RenderTarget::Protocol => style_prefix(s.tag) + s.text + style_suffix(s.tag),
    }
}

/// Whether a text contains a line break.
pub open spec fn contains_newline(s: Seq<char>) -> bool {
    exists|i: int| 0 <= i < s.len() && s[i] == '\n'
}

/// The indentation unit the multiline mode inserts.
pub open spec fn indent_unit() -> Seq<char> {
    seq![' ', ' ']
}

/// What one span contributes to a rendered document: its own rendering,
/// followed in multiline mode by an indentation unit whenever its text
/// contains a line break.
pub open spec fn span_piece(target: RenderTarget, s: SpanModel, multiline: bool) -> Seq<char> {
    span_render(target, s) + if multiline && contains_newline(s.text) {
        indent_unit()
    } else {
        Seq::<char>::empty()
    }
}

/// The concatenation of all span contributions, in document order.
pub open spec fn doc_pieces(target: RenderTarget, doc: Seq<SpanModel>, multiline: bool) -> Seq<char>
    decreases doc.len(),
{
    if doc.len() == 0 {
        Seq::<char>::empty()
    } else {
        span_piece(target, doc.first(), multiline) + doc_pieces(target, doc.drop_first(), multiline)
    }
}

/// What a whole document renders to in single-line mode.
pub open spec fn render_doc_spec(target: RenderTarget, doc: Seq<SpanModel>) -> Seq<char> {
    doc_pieces(target, doc, false)
}

/// What a whole document renders to: in multiline mode one indentation unit
/// leads the output and one follows every span whose text holds a line
/// break; in single-line mode the plain span-by-span concatenation.
pub open spec fn format_spec(target: RenderTarget, doc: Seq<SpanModel>, multiline: bool) -> Seq<char> {
    if multiline {
        indent_unit() + doc_pieces(target, doc, multiline)
    } else {
        doc_pieces(target, doc, false)
    }
}

/// The concatenation of a document's span texts, in order.
pub open spec fn doc_text(doc: Seq<SpanModel>) -> Seq<char>
    decreases doc.len(),
{
    if doc.len() == 0 {
        Seq::<char>::empty()
    } else {
        doc.first().text + doc_text(doc.drop_first())
    }
}

/// Whether a character is one of the styling control bytes the protocol
/// target emits.
pub open spec fn is_control_char(c: char) -> bool {
    c == '\x02' || c == '\x03' || c == '\x0f' || c == '\x1d'
}

/// Whether a text is free of styling control bytes.
pub open spec fn control_free(s: Seq<char>) -> bool {
    forall|i: int| 0 <= i < s.len() ==> !is_control_char(s[i])
}

/// Whether the protocol target leaves this category undecorated.
pub open spec fn undecorated_tag(tag: StyleTag) -> bool {
    tag == StyleTag::Whitespace || tag == StyleTag::Dimmed || tag == StyleTag::Text
        || tag == StyleTag::Identifier
}

/// Law: the plain target renders a document to exactly the concatenation of
/// its span texts in order, and when every span text is free of styling
/// control bytes, so is the rendered string.
pub proof fn lemma_plain_render(doc: Seq<SpanModel>)
    ensures
        render_doc_spec(RenderTarget::Plain, doc) == doc_text(doc),
        (forall|i: int| 0 <= i < doc.len() ==> control_free(#[trigger] doc[i].text))
            ==> control_free(render_doc_spec(RenderTarget::Plain, doc)),
    decreases doc.len(),
{
    if doc.len() == 0 {
    } else {
        lemma_plain_render(doc.drop_first());
        assert(span_piece(RenderTarget::Plain, doc.first(), false) == doc.first().text);
        assert(render_doc_spec(RenderTarget::Plain, doc)
            == doc.first().text + render_doc_spec(RenderTarget::Plain, doc.drop_first()));
        if forall|i: int| 0 <= i < doc.len() ==> control_free(#[trigger] doc[i].text) {
            assert(doc.first() == doc[0]);
            assert(forall|i: int|
                0 <= i < doc.drop_first().len() ==> control_free(
                    #[trigger] doc.drop_first()[i].text,
                )) by {
                assert(forall|i: int|
                    0 <= i < doc.drop_first().len() ==> #[trigger] doc.drop_first()[i] == doc[i
                        + 1]);
            }
            let rendered = render_doc_spec(RenderTarget::Plain, doc);
            let rest = render_doc_spec(RenderTarget::Plain, doc.drop_first());
            assert forall|i: int| 0 <= i < rendered.len() implies !is_control_char(
                rendered[i],
            ) by {
                if i < doc.first().text.len() {
                    assert(rendered[i] == doc.first().text[i]);
                } else {
                    assert(rendered[i] == rest[i - doc.first().text.len()]);
                }
            }
        }
    }
}

/// Law: under the protocol target every span renders to its table prefix,
/// its own text, and its table suffix; the four undecorated categories
/// render to their bare text, and every decorated one is closed by exactly
/// one reset byte.
pub proof fn lemma_protocol_span(tag: StyleTag, text: Seq<char>)
    ensures
        span_render(RenderTarget::Protocol, SpanModel { tag, text })
            == style_prefix(tag) + text + style_suffix(tag),
        undecorated_tag(tag) <==> !decorated(tag),
        !decorated(tag) ==> span_render(RenderTarget::Protocol, SpanModel { tag, text }) == text,
        decorated(tag) ==> style_suffix(tag) == seq!['\x0f'],
{
    if !decorated(tag) {
        assert(style_prefix(tag) + text + style_suffix(tag) =~= text);
    }
}

/// Law: both renderers give every constructible style category an explicit
/// entry.  The plain target maps each of the twelve to its bare text; the
/// protocol target maps each to the wrapping listed here, which spells out
/// the whole table.
pub proof fn lemma_style_table()
    ensures
        forall|s: SpanModel| #[trigger] span_render(RenderTarget::Plain, s) == s.text,
        style_prefix(StyleTag::Whitespace) == Seq::<char>::empty(),
        style_prefix(StyleTag::Emphasized) == seq!['\x02'],
        style_prefix(StyleTag::Dimmed) == Seq::<char>::empty(),
        style_prefix(StyleTag::Text) == Seq::<char>::empty(),
        style_prefix(StyleTag::String) == seq!['\x03', '0', '3'],
        style_prefix(StyleTag::Keyword) == seq!['\x03', '1', '3'],
        style_prefix(StyleTag::Value) == seq!['\x03', '0', '8'],
        style_prefix(StyleTag::Unit) == seq!['\x03', '1', '1'],
        style_prefix(StyleTag::Identifier) == Seq::<char>::empty(),
        style_prefix(StyleTag::TypeIdentifier) == seq!['\x03', '1', '2', '\x1d'],
        style_prefix(StyleTag::Operator) == seq!['\x02'],
        style_prefix(StyleTag::Decorator) == seq!['\x03', '0', '3'],
        forall|t: StyleTag| decorated(t) ==> #[trigger] style_suffix(t) == seq!['\x0f'],
        forall|t: StyleTag| !decorated(t) ==> #[trigger] style_suffix(t) == Seq::<char>::empty(),
{
}

proof fn lemma_doc_pieces_snoc(target: RenderTarget, doc: Seq<SpanModel>, s: SpanModel, multiline: bool)
    ensures
        doc_pieces(target, doc.push(s), multiline)
            == doc_pieces(target, doc, multiline) + span_piece(target, s, multiline),
    decreases doc.len(),
{
    if doc.len() == 0 {
        assert(doc.push(s).first() == s);
        assert(doc.push(s).drop_first() =~= Seq::<SpanModel>::empty());
        assert(doc_pieces(target, doc.push(s).drop_first(), multiline) == Seq::<char>::empty());
        assert(doc_pieces(target, doc.push(s), multiline)
            == span_piece(target, s, multiline) + Seq::<char>::empty());
        assert(span_piece(target, s, multiline) + Seq::<char>::empty()
            =~= span_piece(target, s, multiline));
        assert(doc_pieces(target, doc, multiline) + span_piece(target, s, multiline)
            =~= span_piece(target, s, multiline));
    } else {
        assert(doc.push(s).first() == doc.first());
        assert(doc.push(s).drop_first() =~= doc.drop_first().push(s));
        lemma_doc_pieces_snoc(target, doc.drop_first(), s, multiline);
        assert(doc_pieces(target, doc.push(s), multiline)
            =~= doc_pieces(target, doc, multiline) + span_piece(target, s, multiline));
    }
}

/// Appends the protocol prefix of `tag` to `out`.  Every category has its
/// own arm: adding a category forces an update here.
fn push_prefix(out: &mut String, tag: StyleTag)
    ensures
        final(out)@ == old(out)@ + style_prefix(tag),
{
    proof {
        reveal_strlit("");
        reveal_strlit("\x02");
        reveal_strlit("\x0303");
        reveal_strlit("\x0313");
        reveal_strlit("\x0308");
        reveal_strlit("\x0311");
        reveal_strlit("\x0312\x1d");
    }
    match tag {
        StyleTag::Whitespace => out.append(""),
        StyleTag::Emphasized => out.append("\x02"),
        StyleTag::Dimmed => out.append(""),
        StyleTag::Text => out.append(""),
        StyleTag::String => out.append("\x0303"),
        StyleTag::Keyword => out.append("\x0313"),
        StyleTag::Value => out.append("\x0308"),
        StyleTag::Unit => out.append("\x0311"),
        StyleTag::Identifier => out.append(""),
        StyleTag::TypeIdentifier => out.append("\x0312\x1d"),
        StyleTag::Operator => out.append("\x02"),
        StyleTag::Decorator => out.append("\x0303"),
    }
    proof {
        assert(out@ =~= old(out)@ + style_prefix(tag));
    }
}

/// Appends the protocol suffix of `tag` to `out`: the reset byte for the
/// decorated categories, nothing for the others.
fn push_suffix(out: &mut String, tag: StyleTag)
    ensures
        final(out)@ == old(out)@ + style_suffix(tag),
{
    proof {
        reveal_strlit("");
        reveal_strlit("\x0f");
    }
    match tag {
        StyleTag::Whitespace => out.append(""),
        StyleTag::Emphasized => out.append("\x0f"),
        StyleTag::Dimmed => out.append(""),
        StyleTag::Text => out.append(""),
        StyleTag::String => out.append("\x0f"),
        StyleTag::Keyword => out.append("\x0f"),
        StyleTag::Value => out.append("\x0f"),
        StyleTag::Unit => out.append("\x0f"),
        StyleTag::Identifier => out.append(""),
        StyleTag::TypeIdentifier => out.append("\x0f"),
        StyleTag::Operator => out.append("\x0f"),
        StyleTag::Decorator => out.append("\x0f"),
    }
    proof {
        assert(out@ =~= old(out)@ + style_suffix(tag));
    }
}

/// Renders one span for the given target.
pub fn format_span(target: RenderTarget, span: &Span) -> (r: String)
    ensures
        r@ == span_render(target, span@),
{
    let mut out = String::new();
    match target {
        RenderTarget::Plain => {
            // The plain target maps every category to its bare text; the
            // explicit arms keep the mapping total by construction.
            match span.tag {
                StyleTag::Whitespace => out.append(span.text.as_str()),
                StyleTag::Emphasized => out.append(span.text.as_str()),
                StyleTag::Dimmed => out.append(span.text.as_str()),
                StyleTag::Text => out.append(span.text.as_str()),
                StyleTag::String => out.append(span.text.as_str()),
                StyleTag::Keyword => out.append(span.text.as_str()),
                StyleTag::Value => out.append(span.text.as_str()),
                StyleTag::Unit => out.append(span.text.as_str()),
                StyleTag::Identifier => out.append(span.text.as_str()),
                StyleTag::TypeIdentifier => out.append(span.text.as_str()),
                StyleTag::Operator => out.append(span.text.as_str()),
                StyleTag::Decorator => out.append(span.text.as_str()),
            }
            proof {
                assert(out@ =~= span_render(target, span@));
            }
        }
        RenderTarget::Protocol => {
            push_prefix(&mut out, span.tag);
            out.append(span.text.as_str());
            push_suffix(&mut out, span.tag);
            proof {
                assert(out@ =~= span_render(target, span@));
            }
        }
    }
    out
}

/// Whether this text contains a line break.
fn has_newline(s: &str) -> (r: bool)
    ensures
        r == contains_newline(s@),
{
    let n = s.unicode_len();
    let mut i: usize = 0;
    while i < n
        invariant
            n == s@.len(),
            i <= n,
            forall|j: int| 0 <= j < i ==> s@[j] != '\n',
        decreases n - i,
    {
        if s.get_char(i) == '\n' {
            proof {
                assert(s@[i as int] == '\n');
            }
            return true;
        }
        i += 1;
    }
    false
}

/// Renders a whole document for the given target.  In multiline mode the
/// output is led by one indentation unit and one more follows every span
/// whose text holds a line break, mirroring the evaluator's own formatter;
/// the session pipeline always renders in single-line mode.
pub fn format_document(doc: &Document, target: RenderTarget, multiline: bool) -> (r: String)
    ensures
        r@ == format_spec(target, doc@, multiline),
{
    let mut out = String::new();
    proof {
        reveal_strlit("  ");
    }
    if multiline {
        out.append("  ");
    }
    let ghost lead: Seq<char> = if multiline { indent_unit() } else { Seq::<char>::empty() };
    proof {
        assert(out@ =~= lead);
        assert(doc@.take(0) =~= Seq::<SpanModel>::empty());
    }
    let n = doc.spans.len();
    let mut i: usize = 0;
    while i < n
        invariant
            n == doc.spans.len(),
            i <= n,
            lead == if multiline { indent_unit() } else { Seq::<char>::empty() },
            out@ == lead + doc_pieces(target, doc@.take(i as int), multiline),
        decreases n - i,
    {
        let ghost seen = doc@.take(i as int);
        proof {
            assert(doc@[i as int] == doc.spans@[i as int]@);
        }
        let piece = format_span(target, &doc.spans[i]);
        out.append(piece.as_str());
        let added_indent: bool = multiline && has_newline(doc.spans[i].text.as_str());
        if added_indent {
            out.append("  ");
        }
        proof {
            reveal_strlit("  ");
            assert(piece@ == span_render(target, doc@[i as int]));
            assert(added_indent == (multiline && contains_newline(doc@[i as int].text)));
            assert(out@ =~= lead + doc_pieces(target, seen, multiline)
                + span_piece(target, doc@[i as int], multiline));
            assert(doc@.take(i as int + 1) =~= seen.push(doc@[i as int]));
            lemma_doc_pieces_snoc(target, seen, doc@[i as int], multiline);
            assert(out@ =~= lead + doc_pieces(target, doc@.take(i as int + 1), multiline));
        }
        i += 1;
    }
    proof {
        assert(doc@.take(n as int) =~= doc@);
    }
    out
}

} // verus!
