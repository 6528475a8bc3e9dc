//! The session: one exclusively owned evaluation context, the per-call
//! eval pipeline, and the output capture sink.
//!
//! A session is created once, bootstrapped by silently evaluating a fixed
//! directive that loads the standard definitions, and then mutated by every
//! `eval` call in strict sequence.  Exclusive access is enforced by
//! ownership: `eval` takes the session by mutable borrow, so a second
//! in-flight call on the same session cannot be expressed at all.

use vstd::prelude::*;

use crate::evaluator::{
    markup_len, markup_model, markup_part_tag, markup_part_text, new_context, result_markup,
    run_evaluator, statement_markup,
};
use crate::markup::{Document, Span, SpanModel, tag_code};
use crate::render::{RenderTarget, format_document, render_doc_spec};
use crate::trim::{lemma_trim_idempotent, trim_spec, trim_str};

verus! {

/// Whether `doc` is the faithful image of an evaluator markup value with
/// model `model`: same length, same category codes, same texts, in order.
pub open spec fn doc_matches_model(doc: Seq<SpanModel>, model: Seq<(int, Seq<char>)>) -> bool {
    &&& doc.len() == model.len()
    &&& forall|i: int| 0 <= i < doc.len() ==> tag_code(#[trigger] doc[i].tag) == model[i].0
    &&& forall|i: int| 0 <= i < doc.len() ==> (#[trigger] doc[i].text) == model[i].1
}

/// Converts one evaluator markup value into a document, part by part.
pub fn document_of_markup(m: &numbat::markup::Markup) -> (doc: Document)
    ensures
        doc_matches_model(doc@, markup_model(*m)),
{
    let n = markup_len(m);
    let mut doc = Document::new();
    let mut i: usize = 0;
    while i < n
        invariant
            n == markup_model(*m).len(),
            i <= n,
            doc@.len() == i,
            forall|j: int|
                0 <= j < i ==> tag_code(#[trigger] doc@[j].tag) == markup_model(*m)[j].0,
            forall|j: int| 0 <= j < i ==> (#[trigger] doc@[j].text) == markup_model(*m)[j].1,
        decreases n - i,
    {
        let tag = markup_part_tag(m, i).unwrap();
        let text = markup_part_text(m, i).unwrap();
        doc.push(Span::new(tag, text));
        i += 1;
    }
    doc
}

/// Converts a list of evaluator markup values into documents, in order.
pub fn documents_of_markups(ms: &Vec<numbat::markup::Markup>) -> (docs: Vec<Document>)
    ensures
        docs@.len() == ms@.len(),
        forall|i: int|
            0 <= i < docs@.len() ==> doc_matches_model(
                (#[trigger] docs@[i])@,
                markup_model(ms@[i]),
            ),
{
    let mut docs: Vec<Document> = Vec::new();
    let n = ms.len();
    let mut i: usize = 0;
    while i < n
        invariant
            n == ms@.len(),
            i <= n,
            docs@.len() == i,
            forall|j: int|
                0 <= j < i ==> doc_matches_model((#[trigger] docs@[j])@, markup_model(ms@[j])),
        decreases n - i,
    {
        docs.push(document_of_markup(&ms[i]));
        i += 1;
    }
    docs
}

/// The concatenation of several documents, each rendered in single-line
/// mode for the given target, in order.
pub open spec fn docs_concat(target: RenderTarget, docs: Seq<Seq<SpanModel>>) -> Seq<char>
    decreases docs.len(),
{
    if docs.len() == 0 {
        Seq::<char>::empty()
    } else {
        render_doc_spec(target, docs.first()) + docs_concat(target, docs.drop_first())
    }
}

/// The session's returned string for one successful evaluation: every
/// statement document rendered in order, then the result document, all for
/// the same target, concatenated, and trimmed of leading and trailing
/// whitespace.
pub open spec fn rendered_output(
    target: RenderTarget,
    stmts: Seq<Seq<SpanModel>>,
    value: Seq<SpanModel>,
) -> Seq<char> {
    trim_spec(docs_concat(target, stmts) + render_doc_spec(target, value))
}

proof fn lemma_docs_concat_snoc(target: RenderTarget, docs: Seq<Seq<SpanModel>>, d: Seq<SpanModel>)
    ensures
        docs_concat(target, docs.push(d)) == docs_concat(target, docs) + render_doc_spec(target, d),
    decreases docs.len(),
{
    if docs.len() == 0 {
        assert(docs.push(d).first() == d);
        assert(docs.push(d).drop_first() =~= Seq::<Seq<SpanModel>>::empty());
        assert(docs_concat(target, docs.push(d).drop_first()) == Seq::<char>::empty());
        assert(docs_concat(target, docs.push(d))
            == render_doc_spec(target, d) + Seq::<char>::empty());
        assert(render_doc_spec(target, d) + Seq::<char>::empty() =~= render_doc_spec(target, d));
        assert(docs_concat(target, docs) + render_doc_spec(target, d)
            =~= render_doc_spec(target, d));
    } else {
        assert(docs.push(d).first() == docs.first());
        assert(docs.push(d).drop_first() =~= docs.drop_first().push(d));
        lemma_docs_concat_snoc(target, docs.drop_first(), d);
        assert(docs_concat(target, docs.push(d))
            =~= docs_concat(target, docs) + render_doc_spec(target, d));
    }
}

/// Renders every statement document and the result document for the given
/// target, concatenates them in order, and trims the result.
pub fn render_output(
    stmt_docs: &Vec<Document>,
    value_doc: &Document,
    target: RenderTarget,
) -> (r: String)
    ensures
        r@ == rendered_output(target, stmt_docs@.map_values(|d: Document| d@), value_doc@),
{
    let ghost models: Seq<Seq<SpanModel>> = stmt_docs@.map_values(|d: Document| d@);
    let mut out = String::new();
    let n = stmt_docs.len();
    let mut i: usize = 0;
    proof {
        assert(models.take(0) =~= Seq::<Seq<SpanModel>>::empty());
        assert(out@ =~= docs_concat(target, models.take(0)));
    }
    while i < n
        invariant
            n == stmt_docs@.len(),
            i <= n,
            models == stmt_docs@.map_values(|d: Document| d@),
            out@ == docs_concat(target, models.take(i as int)),
        decreases n - i,
    {
        let piece = format_document(&stmt_docs[i], target, false);
        out.append(piece.as_str());
        proof {
            assert(models[i as int] == stmt_docs@[i as int]@);
            assert(piece@ == render_doc_spec(target, models[i as int]));
            assert(models.take(i as int + 1) =~= models.take(i as int).push(models[i as int]));
            lemma_docs_concat_snoc(target, models.take(i as int), models[i as int]);
            assert(out@ =~= docs_concat(target, models.take(i as int + 1)));
        }
        i += 1;
    }
    proof {
        assert(models.take(n as int) =~= models);
    }
    let value_piece = format_document(value_doc, target, false);
    out.append(value_piece.as_str());
    trim_str(out.as_str())
}

/// A persistent evaluation session: one opaque evaluation context, owned
/// exclusively, plus the capture sink of the last call's printed output.
pub struct Session {
    ctx: numbat::Context,
    captured: Vec<Document>,
}

impl Session {
    /// The capture sink's contents, as specification: the documents printed
    /// as side effects during the most recent `eval` call.
    pub closed spec fn captured_docs(&self) -> Seq<Document> {
        self.captured@
    }

    /// Creates a fresh session.  The context is bootstrapped by one silent
    /// internal evaluation of the directive that loads the standard
    /// definitions; the bootstrap's outcome and its printed side effects
    /// are discarded, success and failure alike, so the session always
    /// becomes usable and a fresh session's capture sink is empty: no text
    /// the bootstrap produced can ever reach a caller.
    pub fn new() -> (s: Session)
        ensures
            s.captured_docs().len() == 0,
    {
        let mut ctx = new_context();
        let mut boot_prints: Vec<numbat::markup::Markup> = Vec::new();
        // The bootstrap result is deliberately swallowed: a failing
        // bootstrap still yields a usable session.
        let _ = run_evaluator(&mut ctx, "use prelude", true, &mut boot_prints);
        Session { ctx, captured: Vec::new() }
    }

    /// Evaluates `input` against this session's context and renders the
    /// outcome for `target`.  On success the returned string is exactly the
    /// statement documents and the result document of this call, rendered
    /// in order and trimmed; text printed during evaluation goes to the
    /// capture sink instead and is never part of the returned string.  On
    /// failure the evaluator's own message is returned unchanged, no
    /// rollback or other repair is attempted here — the context stays
    /// exactly as the evaluator left it — and the session remains usable.
    pub fn eval(&mut self, input: &str, target: RenderTarget) -> (r: Result<String, String>)
        ensures
            r matches Ok(out) ==> exists|stmts: Seq<Seq<SpanModel>>, value: Seq<SpanModel>|
                out@ == rendered_output(target, stmts, value),
            r matches Ok(out) ==> trim_spec(out@) == out@,
    {
        let mut prints: Vec<numbat::markup::Markup> = Vec::new();
        let outcome = run_evaluator(&mut self.ctx, input, false, &mut prints);
        self.captured = documents_of_markups(&prints);
        match outcome {
            Err(message) => Err(message),
            Ok((statements, result)) => {
                let mut stmt_docs: Vec<Document> = Vec::new();
                let n = statements.len();
                let mut i: usize = 0;
                while i < n
                    invariant i <= n && n == statements@.len(),
                    decreases n - i,
                {
                    let markup = statement_markup(&statements[i]);
                    stmt_docs.push(document_of_markup(&markup));
                    i += 1;
                }
                let value_markup = result_markup(&self.ctx, &statements, &result);
                let value_doc = document_of_markup(&value_markup);
                let rendered = render_output(&stmt_docs, &value_doc, target);
                proof {
                    assert(rendered@ == rendered_output(
                        target,
                        stmt_docs@.map_values(|d: Document| d@),
                        value_doc@,
                    ));
                    lemma_trim_idempotent(
                        docs_concat(target, stmt_docs@.map_values(|d: Document| d@))
                            + render_doc_spec(target, value_doc@),
                    );
                }
                Ok(rendered)
            }
        }
    }

    /// The markup printed as a side effect during the most recent `eval`
    /// call, in emission order: a channel of its own, distinct from the
    /// returned string.
    pub fn captured(&self) -> (docs: &Vec<Document>)
        ensures
            docs@ == self.captured_docs(),
    {
        &self.captured
    }
}

} // verus!
