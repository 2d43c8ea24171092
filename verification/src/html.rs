//! What the pages are read for, through the `scraper` crate's HTML parser
//! and CSS selectors.
use vstd::prelude::*;

verus! {

/// The selector of a page's anchors.
pub const ANCHOR_SELECTOR: &'static str = "a";

/// The selector of a search page's "next page" link.
pub const NEXT_PAGE_SELECTOR: &'static str = "a#pnnext";

/// The selector of the elements whose text is a page's visible text.
pub const BODY_TEXT_SELECTOR: &'static str = "body > *:not(script):not(style):not(form)";

/// The attribute of an anchor that holds its link.
pub const LINK_ATTRIBUTE: &'static str = "href";

/// The selectors the library uses, all of which `Selector::parse` accepts.
pub open spec fn is_known_selector(selector: Seq<char>) -> bool {
    selector == ANCHOR_SELECTOR@ || selector == NEXT_PAGE_SELECTOR@ || selector == BODY_TEXT_SELECTOR@
}

/// Name for the attribute `attr` of every element matching `selector`
/// (`None` for an element without it), in the order in which
/// `scraper::Html::select` walks the tree it parses from `html`.
pub uninterp spec fn html_select_attrs(
    html: Seq<char>,
    selector: Seq<char>,
    attr: Seq<char>,
) -> Seq<Option<Seq<char>>>;

/// Name for whether some element matches `selector` in the tree that the
/// `scraper` crate parses from `html`.
pub uninterp spec fn html_selects_any(html: Seq<char>, selector: Seq<char>) -> bool;

/// Name for the text nodes under the elements matching `selector`, in the
/// order in which `scraper::Html::select` and `ElementRef::text` walk the
/// tree that the `scraper` crate parses from `html`.
pub uninterp spec fn html_select_texts(html: Seq<char>, selector: Seq<char>) -> Seq<Seq<char>>;

/// Calls `scraper::Html::parse_document(html)`, `Selector::parse(selector)`,
/// `Html::select` and `ElementRef::attr(attr)`. The contract claims that the
/// result is the named list; HTML parsing is left unstated. The selectors
/// admitted are valid, so `unwrap` does not panic.
#[verifier::external_body]
pub(crate) fn select_attrs(html: &str, selector: &str, attr: &str) -> (r: Vec<Option<String>>)
    requires
        is_known_selector(selector@),
    ensures
        r.deep_view() == html_select_attrs(html@, selector@, attr@),
{
    let document = scraper::Html::parse_document(html);
    let selector = scraper::Selector::parse(selector).unwrap();
    document.select(&selector).map(|e| e.attr(attr).map(|h| h.to_string())).collect()
}

/// Calls `scraper::Html::parse_document(html)`, `Selector::parse(selector)`
/// and `Html::select`. The contract claims that the answer is the named
/// result; HTML parsing is left unstated. The selectors admitted are valid,
/// so `unwrap` does not panic.
#[verifier::external_body]
pub(crate) fn selects_any(html: &str, selector: &str) -> (b: bool)
    requires
        is_known_selector(selector@),
    ensures
        b == html_selects_any(html@, selector@),
{
    let document = scraper::Html::parse_document(html);
    let selector = scraper::Selector::parse(selector).unwrap();
    document.select(&selector).next().is_some()
}

/// Calls `scraper::Html::parse_document(html)`, `Selector::parse(selector)`,
/// `Html::select` and `ElementRef::text`. The contract claims that the result
/// is the named list; HTML parsing is left unstated. The selectors admitted
/// are valid, so `unwrap` does not panic.
#[verifier::external_body]
pub(crate) fn select_texts(html: &str, selector: &str) -> (r: Vec<String>)
    requires
        is_known_selector(selector@),
    ensures
        r.deep_view() == html_select_texts(html@, selector@),
{
    let document = scraper::Html::parse_document(html);
    let selector = scraper::Selector::parse(selector).unwrap();
    document.select(&selector).flat_map(|e| e.text()).map(|t| t.to_string()).collect()
}

/// The `href` of every anchor of a page, in order (`None` for an anchor
/// without one).
pub open spec fn page_anchor_hrefs(html: Seq<char>) -> Seq<Option<Seq<char>>> {
    html_select_attrs(html, ANCHOR_SELECTOR@, LINK_ATTRIBUTE@)
}

/// Whether a search page links to a next page.
pub open spec fn page_has_next_link(html: Seq<char>) -> bool {
    html_selects_any(html, NEXT_PAGE_SELECTOR@)
}

/// The text pieces of a page's visible elements, in order.
pub open spec fn page_body_texts(html: Seq<char>) -> Seq<Seq<char>> {
    html_select_texts(html, BODY_TEXT_SELECTOR@)
}

/// The `href` of every anchor of a page.
pub fn anchor_hrefs(html: &str) -> (r: Vec<Option<String>>)
    ensures
        r.deep_view() == page_anchor_hrefs(html@),
{
    select_attrs(html, ANCHOR_SELECTOR, LINK_ATTRIBUTE)
}

/// Whether a search page links to a next page.
pub fn has_next_link(html: &str) -> (b: bool)
    ensures
        b == page_has_next_link(html@),
{
    selects_any(html, NEXT_PAGE_SELECTOR)
}

/// The text pieces of a page's visible elements.
pub fn body_texts(html: &str) -> (r: Vec<String>)
    ensures
        r.deep_view() == page_body_texts(html@),
{
    select_texts(html, BODY_TEXT_SELECTOR)
}

} // verus!
