//! Reading HTML documents, delegated to the `scraper` and `select` crates.

use vstd::prelude::*;

verus! {

/// The views of a sequence of optional strings.
pub open spec fn option_views(v: Seq<Option<String>>) -> Seq<Option<Seq<char>>> {
    v.map_values(|x: Option<String>| match x {
        Some(s) => Some(s@),
        None => None,
    })
}

/// Whether `scraper::Selector::parse` accepts the CSS selector `selector`.
pub uninterp spec fn css_selector_parses(selector: Seq<char>) -> bool;

/// For each element of the parsed `document` that `selector` selects, in
/// the order in which `select` yields them, its `href` attribute if it has one
/// (`scraper::Html::select` with `ElementRef::attr`).
pub uninterp spec fn selected_hrefs(document: Seq<char>, selector: Seq<char>) -> Seq<
    Option<Seq<char>>,
>;

/// For each element of the parsed `document` that `selector` selects, in
/// the order in which `select` yields them, the concatenation of its text nodes
/// (`scraper::Html::select` with `ElementRef::text`).
pub uninterp spec fn selected_texts(document: Seq<char>, selector: Seq<char>) -> Seq<Seq<char>>;

/// For each `a` element of `document`, in the order in which `find` yields
/// them, its `href` attribute if it has one (`select::document::Document::find` with
/// `Name("a")` and `Node::attr`).
pub uninterp spec fn anchor_hrefs(document: Seq<char>) -> Seq<Option<Seq<char>>>;

/// Parses `selector` with `scraper::Selector::parse`. The contract claims
/// that the result says whether that succeeds, which depends on the selector
/// alone.
#[verifier::external_body]
pub(crate) fn css_selector_valid(selector: &str) -> (r: bool)
    ensures
        r == css_selector_parses(selector@),
{
    ::scraper::Selector::parse(selector).is_ok()
}

/// Parses `document` with `scraper::Html::parse_document` and the selector
/// with `scraper::Selector::parse`; lists, for each selected element, its
/// `href` attribute. The contract claims `None` exactly when the selector
/// does not parse, and otherwise the named list, which depends on the two
/// texts alone.
#[verifier::external_body]
pub(crate) fn select_hrefs(document: &str, selector: &str) -> (r: Option<Vec<Option<String>>>)
    ensures
        r is Some <==> css_selector_parses(selector@),
        r matches Some(v) ==> option_views(v@) == selected_hrefs(document@, selector@),
{
    let sel = ::scraper::Selector::parse(selector).ok()?;
    let html = ::scraper::Html::parse_document(document);
    let mut out: Vec<Option<String>> = Vec::new();
    for element in html.select(&sel) {
        out.push(element.attr("href").map(|h| h.to_string()));
    }
    Some(out)
}

/// Parses `document` with `scraper::Html::parse_document` and the selector
/// with `scraper::Selector::parse`; lists, for each selected element, its
/// text (`ElementRef::text`, concatenated). The contract claims `None`
/// exactly when the selector does not parse, and otherwise the named list,
/// which depends on the two texts alone.
#[verifier::external_body]
pub(crate) fn select_texts(document: &str, selector: &str) -> (r: Option<Vec<String>>)
    ensures
        r is Some <==> css_selector_parses(selector@),
        r matches Some(v) ==> crate::text::views(v@) == selected_texts(document@, selector@),
{
    let sel = ::scraper::Selector::parse(selector).ok()?;
    let html = ::scraper::Html::parse_document(document);
    let mut out: Vec<String> = Vec::new();
    for element in html.select(&sel) {
        out.push(element.text().collect::<String>());
    }
    Some(out)
}

/// Parses `document` with `select::document::Document::from` and lists,
/// for each of its `a` elements as `find` yields them, its `href` attribute.
/// The contract claims the named list, which depends on the text alone.
#[verifier::external_body]
pub(crate) fn find_anchor_hrefs(document: &str) -> (r: Vec<Option<String>>)
    ensures
        option_views(r@) == anchor_hrefs(document@),
{
    let doc = ::select::document::Document::from(document);
    let mut out: Vec<Option<String>> = Vec::new();
    for node in doc.find(::select::predicate::Name("a")) {
        out.push(node.attr("href").map(|h| h.to_string()));
    }
    out
}

} // verus!
