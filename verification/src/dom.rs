//! What the crawler asks of the `scraper` and `url` crates. HTML parsing,
//! CSS selector matching and URL parsing are theirs; their results are
//! named here and the crawler's own logic is stated over those names.
use vstd::prelude::*;

verus! {

/// The characters of each string, in order.
pub open spec fn views_of(v: Seq<String>) -> Seq<Seq<char>> {
    v.map_values(|s: String| s@)
}

/// The characters of an optional string.
pub open spec fn opt_view(o: Option<String>) -> Option<Seq<char>> {
    match o {
        Some(s) => Some(s@),
        None => None,
    }
}

/// Whether `scraper::Selector::parse` accepts `selector` as a CSS selector.
pub uninterp spec fn selector_accepted(selector: Seq<char>) -> bool;

/// The outer markup (`ElementRef::html`) of each element that `selector`
/// selects in the fragment `html`, in document order.
pub uninterp spec fn selected_markup(html: Seq<char>, selector: Seq<char>) -> Seq<Seq<char>>;

/// For each child node of the root element of the fragment `markup`, in
/// order: the value of its attribute `attr` when the child is an element
/// that has it, `None` otherwise.
pub uninterp spec fn child_attribute_values(markup: Seq<char>, attr: Seq<char>) -> Seq<
    Option<Seq<char>>,
>;

/// The text nodes under the root element of the fragment `markup`
/// (`ElementRef::text`), in document order.
pub uninterp spec fn fragment_text(markup: Seq<char>) -> Seq<Seq<char>>;

/// The host (`Url::host_str`) of `url` as `url::Url::parse` reads it;
/// `None` when the text does not parse or has no host.
pub uninterp spec fn url_host(url: Seq<char>) -> Option<Seq<char>>;

/// Whether `selector` is a CSS selector that `scraper` accepts.
/// Calls `scraper::Selector::parse` and reports whether it succeeded.
#[verifier::external_body]
pub fn selector_parses(selector: &str) -> (r: bool)
    ensures
        r == selector_accepted(selector@),
{
    scraper::Selector::parse(selector).is_ok()
}

/// The outer markup of every element that `selector` selects in `html`.
/// Parses the selector with `scraper::Selector::parse` (`None` when that
/// fails), the markup with `scraper::Html::parse_fragment`, and returns
/// `ElementRef::html` of each match of `Html::select`.
#[verifier::external_body]
pub fn select_markup(html: &str, selector: &str) -> (r: Option<Vec<String>>)
    ensures
        r is Some <==> selector_accepted(selector@),
        r matches Some(v) ==> views_of(v@) == selected_markup(html@, selector@),
{
    let sel = match scraper::Selector::parse(selector) {
        Ok(sel) => sel,
        Err(_) => return None,
    };
    let doc = scraper::Html::parse_fragment(html);
    let mut out = Vec::new();
    for node in doc.select(&sel) {
        out.push(node.html());
    }
    Some(out)
}

/// For each child of the root element of the fragment `markup`, the value
/// of its attribute `attr` if it is an element that has one.
/// Calls `scraper::Html::parse_fragment`, walks `root_element().children()`
/// and reads `Node::as_element` and `Element::attr`.
#[verifier::external_body]
pub fn child_attributes(markup: &str, attr: &str) -> (r: Vec<Option<String>>)
    ensures
        r@.map_values(|o: Option<String>| opt_view(o)) == child_attribute_values(markup@, attr@),
{
    let doc = scraper::Html::parse_fragment(markup);
    let mut out = Vec::new();
    for child in doc.root_element().children() {
        let value = match child.value().as_element() {
            Some(el) => el.attr(attr),
            None => None,
        };
        out.push(value.map(String::from));
    }
    out
}

/// The text nodes under the root element of the fragment `markup`.
/// Calls `scraper::Html::parse_fragment` and `ElementRef::text`.
#[verifier::external_body]
pub fn text_pieces(markup: &str) -> (r: Vec<String>)
    ensures
        views_of(r@) == fragment_text(markup@),
{
    let doc = scraper::Html::parse_fragment(markup);
    let mut out = Vec::new();
    for piece in doc.root_element().text() {
        out.push(String::from(piece));
    }
    out
}

/// The host of `url`. Calls `url::Url::parse` and `Url::host_str`;
/// `None` when parsing fails or the URL has no host.
#[verifier::external_body]
pub fn host_of(url: &str) -> (r: Option<String>)
    ensures
        opt_view(r) == url_host(url@),
{
    match url::Url::parse(url) {
        Ok(parsed) => parsed.host_str().map(String::from),
        Err(_) => None,
    }
}

} // verus!
