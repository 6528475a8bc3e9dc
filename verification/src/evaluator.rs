//! The trusted boundary to the numbat evaluator.
//!
//! The evaluator is an external collaborator: it parses, type-checks and
//! runs the input and hands back style-tagged markup.  Everything here is
//! either a type declaration for one of its opaque types or a thin wrapper
//! whose contract states only what the collaborator's source shows.

use vstd::prelude::*;

use std::sync::mpsc::channel;

use numbat::markup::Markup;
use numbat::pretty_print::{FormatOptions, PrettyPrint};
use numbat::resolver::CodeSource;
use numbat::InterpreterSettings;

use crate::markup::{StyleTag, tag_code};

verus! {

#[verifier::external_type_specification]
#[verifier::external_body]
pub struct ExContext(numbat::Context);

#[verifier::external_type_specification]
#[verifier::external_body]
pub struct ExMarkup(numbat::markup::Markup);

#[verifier::external_type_specification]
#[verifier::external_body]
pub struct ExStatement<'a>(numbat::Statement<'a>);

#[verifier::external_type_specification]
#[verifier::external_body]
pub struct ExInterpreterResult(numbat::InterpreterResult);

/// What an evaluator markup value holds: one pair per formatted part, in
/// order, of the part's style category (as its stable code, see
/// `tag_code`) and the part's text.
pub uninterp spec fn markup_model(m: numbat::markup::Markup) -> Seq<(int, Seq<char>)>;

/// Relies on `numbat::Context::new` with the builtin module importer: a
/// fresh, empty evaluation context.
#[verifier::external_body]
pub(crate) fn new_context() -> numbat::Context {
    numbat::Context::new(numbat::module_importer::BuiltinModuleImporter::default())
}

/// Relies on `numbat::Context::interpret_with_settings`: runs the evaluator
/// on `input`, mutating the context; on success the executed statements and
/// the final result value come back, on failure the evaluator's own message,
/// unchanged.  Markup printed as a side effect during the run is appended to
/// `sink` in emission order.  Nothing is promised of the outcome: it depends
/// on the context's state, and the caller must cope with every value.
#[verifier::external_body]
pub(crate) fn run_evaluator<'a>(
    ctx: &mut numbat::Context,
    input: &'a str,
    internal: bool,
    sink: &mut Vec<numbat::markup::Markup>,
) -> Result<(Vec<numbat::Statement<'a>>, numbat::InterpreterResult), String> {
    let (tx, rx) = channel();
    let mut settings = InterpreterSettings {
        print_fn: Box::new(move |m: &Markup| { tx.send(m.clone()).ok(); }),
    };
    let source = if internal { CodeSource::Internal } else { CodeSource::Text };
    let r = ctx.interpret_with_settings(&mut settings, input, source);
    sink.extend(rx.try_iter());
    r.map_err(|e| e.to_string())
}

/// Relies on `Statement::pretty_print`: the statement's pretty-printed
/// form, as markup.
#[verifier::external_body]
pub(crate) fn statement_markup(s: &numbat::Statement) -> numbat::markup::Markup {
    s.pretty_print()
}

/// Relies on `InterpreterResult::to_markup`, fed the context's dimension
/// registry and the last executed statement (the registry's type is private
/// to the collaborator, so the lookup and the call stand together): the
/// result value rendered to markup, with type and unit annotations.
#[verifier::external_body]
pub(crate) fn result_markup(
    ctx: &numbat::Context,
    stmts: &Vec<numbat::Statement>,
    res: &numbat::InterpreterResult,
) -> numbat::markup::Markup {
    res.to_markup(stmts.last(), ctx.dimension_registry(), true, true, &FormatOptions::default())
}

/// Relies on `Vec::len` of the markup's list of formatted parts.
#[verifier::external_body]
pub(crate) fn markup_len(m: &numbat::markup::Markup) -> (n: usize)
    ensures
        n == markup_model(*m).len(),
{
    m.0.len()
}

/// Relies on the markup's list of formatted parts and on matching
/// `numbat::markup::FormatType`'s twelve variants, one arm each: the style
/// category of part `i`, or nothing when `i` is out of range.
#[verifier::external_body]
pub(crate) fn markup_part_tag(m: &numbat::markup::Markup, i: usize) -> (t: Option<StyleTag>)
    ensures
        (t is Some) == (i < markup_model(*m).len()),
        t matches Some(tag) ==> tag_code(tag) == markup_model(*m)[i as int].0,
{
    m.0.get(i).map(|p| match p.1 {
        numbat::markup::FormatType::Whitespace => StyleTag::Whitespace,
        numbat::markup::FormatType::Emphasized => StyleTag::Emphasized,
        numbat::markup::FormatType::Dimmed => StyleTag::Dimmed,
        numbat::markup::FormatType::Text => StyleTag::Text,
        numbat::markup::FormatType::String => StyleTag::String,
        numbat::markup::FormatType::Keyword => StyleTag::Keyword,
        numbat::markup::FormatType::Value => StyleTag::Value,
        numbat::markup::FormatType::Unit => StyleTag::Unit,
        numbat::markup::FormatType::Identifier => StyleTag::Identifier,
        numbat::markup::FormatType::TypeIdentifier => StyleTag::TypeIdentifier,
        numbat::markup::FormatType::Operator => StyleTag::Operator,
        numbat::markup::FormatType::Decorator => StyleTag::Decorator,
    })
}

/// Relies on the markup's list of formatted parts and on
/// `numbat::markup::CompactStrCow`'s `Display`: the text of part `i`, or
/// nothing when `i` is out of range.
#[verifier::external_body]
pub(crate) fn markup_part_text(m: &numbat::markup::Markup, i: usize) -> (t: Option<String>)
    ensures
        (t is Some) == (i < markup_model(*m).len()),
        t matches Some(s) ==> s@ == markup_model(*m)[i as int].1,
{
    m.0.get(i).map(|p| p.2.to_string())
}

} // verus!
