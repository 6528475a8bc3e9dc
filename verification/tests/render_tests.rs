use numbat_session::markup::{Document, Span, StyleTag};
use numbat_session::render::{format_document, format_span, RenderTarget};
use numbat_session::trim::trim_str;

fn span(tag: StyleTag, text: &str) -> Span {
    Span { tag, text: String::from(text) }
}

#[test]
fn plain_renders_concatenated_texts() {
    let doc = Document {
        spans: vec![
            span(StyleTag::Value, "1"),
            span(StyleTag::Whitespace, " "),
            span(StyleTag::Operator, "+"),
            span(StyleTag::Whitespace, " "),
            span(StyleTag::Value, "1"),
        ],
    };
    let out = format_document(&doc, RenderTarget::Plain, false);
    assert_eq!(out, "1 + 1");
}

#[test]
fn plain_output_has_no_control_bytes() {
    let doc = Document {
        spans: vec![
            span(StyleTag::Emphasized, "bold"),
            span(StyleTag::String, "text"),
            span(StyleTag::TypeIdentifier, "Length"),
            span(StyleTag::Keyword, "let"),
        ],
    };
    let out = format_document(&doc, RenderTarget::Plain, false);
    assert_eq!(out, "boldtextLengthlet");
    for c in out.chars() {
        assert!(c != '\x02' && c != '\x03' && c != '\x0f' && c != '\x1d');
    }
}

#[test]
fn protocol_wraps_every_tag_exactly() {
    let cases: Vec<(StyleTag, &str)> = vec![
        (StyleTag::Whitespace, "t"),
        (StyleTag::Emphasized, "\x02t\x0f"),
        (StyleTag::Dimmed, "t"),
        (StyleTag::Text, "t"),
        (StyleTag::String, "\x0303t\x0f"),
        (StyleTag::Keyword, "\x0313t\x0f"),
        (StyleTag::Value, "\x0308t\x0f"),
        (StyleTag::Unit, "\x0311t\x0f"),
        (StyleTag::Identifier, "t"),
        (StyleTag::TypeIdentifier, "\x0312\x1dt\x0f"),
        (StyleTag::Operator, "\x02t\x0f"),
        (StyleTag::Decorator, "\x0303t\x0f"),
    ];
    for (tag, expected) in cases {
        let out = format_span(RenderTarget::Protocol, &span(tag, "t"));
        assert_eq!(out, expected);
    }
}

#[test]
fn protocol_leaves_undecorated_tags_alone() {
    for tag in [StyleTag::Whitespace, StyleTag::Dimmed, StyleTag::Text, StyleTag::Identifier] {
        let out = format_span(RenderTarget::Protocol, &span(tag, "same"));
        assert_eq!(out, "same");
    }
}

#[test]
fn protocol_document_concatenates_in_order() {
    let doc = Document {
        spans: vec![
            span(StyleTag::Value, "1"),
            span(StyleTag::Whitespace, " "),
            span(StyleTag::Operator, "+"),
            span(StyleTag::Whitespace, " "),
            span(StyleTag::Value, "1"),
        ],
    };
    let out = format_document(&doc, RenderTarget::Protocol, false);
    assert_eq!(out, "\x03081\x0f \x02+\x0f \x03081\x0f");
}

#[test]
fn multiline_mode_indents() {
    let doc = Document {
        spans: vec![span(StyleTag::Text, "a\nb"), span(StyleTag::Text, "c")],
    };
    let out = format_document(&doc, RenderTarget::Plain, true);
    assert_eq!(out, "  a\nb  c");
}

#[test]
fn document_push_and_len() {
    let mut doc = Document::new();
    assert_eq!(doc.len(), 0);
    doc.push(Span::new(StyleTag::Text, String::from("x")));
    doc.push(Span::new(StyleTag::Value, String::from("3")));
    assert_eq!(doc.len(), 2);
    assert_eq!(format_document(&doc, RenderTarget::Plain, false), "x3");
}

#[test]
fn trim_removes_leading_and_trailing_whitespace() {
    assert_eq!(trim_str("  1 + 1  "), "1 + 1");
    assert_eq!(trim_str("\t\n a b \r\n"), "a b");
    assert_eq!(trim_str("   \t\n  "), "");
    assert_eq!(trim_str(""), "");
    assert_eq!(trim_str("inner  spaces kept"), "inner  spaces kept");
    assert_eq!(trim_str("\u{a0}wide\u{3000}"), "wide");
}
