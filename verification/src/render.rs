//! Rendering a markup source to its displayable form.
//!
//! The conversion itself is the renderer library's work; this module names its
//! result, so that contracts can say that equal sources render to identical
//! output, and computes the name of the sibling file that receives it.

use vstd::prelude::*;

use vstd::string::StrSliceExecFns;
use vstd::string::StringExecFns;

verus! {

/// The rendered form of a markup text, with footnotes, strikethrough, tables
/// and task lists enabled. Its value is not written out here: it is a
/// function of the source text alone, and contracts speak of it by name.
pub uninterp spec fn html_of(markup: Seq<char>) -> Seq<char>;

/// Relies on `pulldown_cmark::Parser::new_ext` and
/// `pulldown_cmark::html::push_html`: the rendered output depends on the
/// source text and the fixed option set alone.
#[verifier::external_body]
pub fn render_markup(markup: &str) -> (r: String)
    ensures
        r@ == html_of(markup@),
{
    let options = pulldown_cmark::Options::ENABLE_FOOTNOTES
        | pulldown_cmark::Options::ENABLE_STRIKETHROUGH
        | pulldown_cmark::Options::ENABLE_TABLES
        | pulldown_cmark::Options::ENABLE_TASKLISTS;
    let parser = pulldown_cmark::Parser::new_ext(markup, options);
    let mut out = String::new();
    pulldown_cmark::html::push_html(&mut out, parser);
    out
}

/// Rendering is deterministic in the source text: equal markup sources render
/// to identical output, so re-rendering unchanged content reproduces the same
/// bytes at the same sibling file.
pub proof fn lemma_render_deterministic(markup1: Seq<char>, markup2: Seq<char>)
    requires
        markup1 == markup2,
    ensures
        html_of(markup1) == html_of(markup2),
{
}

/// The file name that receives the rendered output: the source's stem with
/// the render-format extension in place of the markup extension.
pub fn render_output_name(stem: &str) -> (r: String)
    ensures
        r@ == stem@ + ".html"@,
{
    let mut out = stem.to_owned();
    out.append(".html");
    out
}

} // verus!
