//! The HTML parser and CSS selector engine used to read result pages. What
//! they give depends on the HTML text and the selector text alone, so each
//! query has a name over those texts.
use scraper::{Html, Selector};
use vstd::prelude::*;

verus! {

/// The HTML of every element of the fragment `html` that matches `selector`,
/// in document order.
pub uninterp spec fn selected_html(html: Seq<char>, selector: Seq<char>) -> Seq<Seq<char>>;

/// Whether an element of the fragment `html` matches `selector`, and if one
/// does, the value of attribute `attr` on the first such element.
pub uninterp spec fn first_attr_of(html: Seq<char>, selector: Seq<char>, attr: Seq<char>) -> Option<
    Option<Seq<char>>,
>;

/// Whether an element of the fragment `html` matches `selector`, and if one
/// does, the first text node under the first such element.
pub uninterp spec fn first_text_of(html: Seq<char>, selector: Seq<char>) -> Option<
    Option<Seq<char>>,
>;

/// The views of a found-and-read value.
pub open spec fn found_view(o: Option<Option<String>>) -> Option<Option<Seq<char>>> {
    match o {
        Some(Some(s)) => Some(Some(s@)),
        Some(None) => Some(None),
        None => None,
    }
}

/// Relies on `scraper`'s `Selector::parse`, `Html::parse_fragment`,
/// `Html::select` and `ElementRef::html`: the serialised matches, in
/// document order; none when the selector does not compile.
#[verifier::external_body]
pub fn select_html(html: &str, selector: &str) -> (r: Vec<String>)
    ensures
        r@.len() == selected_html(html@, selector@).len(),
        forall|i: int| 0 <= i < r@.len() ==> #[trigger] r@[i]@ == selected_html(html@, selector@)[i],
{
    match Selector::parse(selector) {
        Ok(sel) => Html::parse_fragment(html).select(&sel).map(|e| e.html()).collect(),
        Err(_) => Vec::new(),
    }
}

/// Relies on `scraper`'s `Selector::parse`, `Html::parse_fragment`,
/// `Html::select` and `ElementRef::attr`: the attribute of the first match;
/// no match when the selector does not compile.
#[verifier::external_body]
pub fn first_attr(html: &str, selector: &str, attr: &str) -> (r: Option<Option<String>>)
    ensures
        found_view(r) == first_attr_of(html@, selector@, attr@),
{
    match Selector::parse(selector) {
        Ok(sel) => Html::parse_fragment(html).select(&sel).next().map(
            |e| e.attr(attr).map(|v| v.to_string()),
        ),
        Err(_) => None,
    }
}

/// Relies on `scraper`'s `Selector::parse`, `Html::parse_fragment`,
/// `Html::select` and `ElementRef::text`: the first text node under the first
/// match; no match when the selector does not compile.
#[verifier::external_body]
pub fn first_text(html: &str, selector: &str) -> (r: Option<Option<String>>)
    ensures
        found_view(r) == first_text_of(html@, selector@),
{
    match Selector::parse(selector) {
        Ok(sel) => Html::parse_fragment(html).select(&sel).next().map(
            |e| e.text().next().map(|t| t.to_string()),
        ),
        Err(_) => None,
    }
}

} // verus!
