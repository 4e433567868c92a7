//! HTML documents: selection by `scraper`, entity decoding by
//! `html_escape`, conversion to Markdown by `htmd`.
//!
//! The results are named, not restated: parsing HTML and matching CSS
//! selectors take a standard each to describe.

use crate::pattern::str_views;
use crate::text::opt_view;
use vstd::prelude::*;

verus! {

/// Whether `scraper::Selector::parse` accepts the selector.
pub uninterp spec fn selector_parses(selector: Seq<char>) -> bool;

/// The text inside the first element that `selector` selects in the
/// document parsed from `html`: its text nodes, joined. `None` where it
/// selects nothing.
pub uninterp spec fn selected_text(html: Seq<char>, selector: Seq<char>) -> Option<Seq<char>>;

/// `text` with its HTML character references replaced by the characters
/// they stand for.
pub uninterp spec fn decoded_entities(text: Seq<char>) -> Seq<char>;

/// The Markdown that `htmd` writes for the document parsed from `html`,
/// leaving out the elements named in `skip_tags`.
pub uninterp spec fn markdown_of(html: Seq<char>, skip_tags: Seq<Seq<char>>) -> Seq<char>;

/// `Selector::parse` on `selector`, `Html::parse_document` on `html`, then
/// the first item of `Html::select` and the items of `ElementRef::text`
/// joined. The outer `None` comes exactly when the selector does not parse.
#[verifier::external_body]
pub(crate) fn select_first_text(html: &str, selector: &str) -> (r: Option<Option<String>>)
    ensures
        r is Some <==> selector_parses(selector@),
        r matches Some(found) ==> opt_view(found) == selected_text(html@, selector@),
{
    let selector = scraper::Selector::parse(selector).ok()?;
    let document = scraper::Html::parse_document(html);
    Some(document.select(&selector).next().map(|node| node.text().collect::<Vec<_>>().join("")))
}

/// `html_escape::decode_html_entities`: the decoded text, which depends on
/// the argument alone.
#[verifier::external_body]
pub(crate) fn decode_entities(text: &str) -> (r: String)
    ensures
        r@ == decoded_entities(text@),
{
    html_escape::decode_html_entities(text).into_owned()
}

/// `HtmlToMarkdown::convert` of a converter built by
/// `HtmlToMarkdownBuilder::skip_tags` and `build`: the Markdown, which
/// depends on the two arguments alone. `skip_tags` refuses an empty list of
/// tags, so there is to be one tag at least. `convert` returns `Ok` on
/// every text: the one step of it that could fail, `html_to_tree`, never
/// does.
#[verifier::external_body]
pub(crate) fn html_to_markdown(html: &str, skip_tags: Vec<&str>) -> (r: String)
    requires
        skip_tags@.len() > 0,
    ensures
        r@ == markdown_of(html@, str_views(skip_tags@)),
{
    htmd::HtmlToMarkdown::builder().skip_tags(skip_tags).build().convert(html).unwrap_or_default()
}

} // verus!
