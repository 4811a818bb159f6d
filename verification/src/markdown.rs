//! Markdown → sanitized HTML, the prose renderer shared by stored post bodies
//! and the editor preview: pulldown-cmark renders, ammonia sanitizes.
use vstd::prelude::*;

verus! {

/// The HTML that pulldown-cmark renders for a Markdown source (with tables,
/// footnotes, strikethrough and task lists enabled).
pub uninterp spec fn spec_markdown_html(md: Seq<char>) -> Seq<char>;

/// The HTML that `ammonia::clean` keeps of an HTML fragment.
pub uninterp spec fn spec_sanitized(html: Seq<char>) -> Seq<char>;

/// Renders Markdown to HTML with `pulldown_cmark::html::push_html` over a
/// `Parser::new_ext` event stream. Claimed: the output is a function of the
/// source text alone (named `spec_markdown_html`); nothing more is stated.
#[verifier::external_body]
fn markdown_to_html(md: &str) -> (html: String)
    ensures
        html@ == spec_markdown_html(md@),
{
    let opts = pulldown_cmark::Options::ENABLE_TABLES | pulldown_cmark::Options::ENABLE_FOOTNOTES
        | pulldown_cmark::Options::ENABLE_STRIKETHROUGH | pulldown_cmark::Options::ENABLE_TASKLISTS;
    let mut html = String::new();
    pulldown_cmark::html::push_html(&mut html, pulldown_cmark::Parser::new_ext(md, opts));
    html
}

/// Sanitizes an HTML fragment with `ammonia::clean` (default whitelist).
/// Claimed: the output is a function of the input alone (named
/// `spec_sanitized`); nothing more is stated.
#[verifier::external_body]
fn sanitize_html(html: &str) -> (clean: String)
    ensures
        clean@ == spec_sanitized(html@),
{
    ammonia::clean(html)
}

/// What `render_markdown` produces for a Markdown source.
pub open spec fn spec_render_markdown(md: Seq<char>) -> Seq<char> {
    spec_sanitized(spec_markdown_html(md))
}

/// Markdown → HTML → sanitized HTML.
pub fn render_markdown(md: &str) -> (html: String)
    ensures
        html@ == spec_render_markdown(md@),
{
    let raw = markdown_to_html(md);
    sanitize_html(raw.as_str())
}

} // verus!
