//! The queries that the extraction makes of a parsed page.
//!
//! Nothing in this file is proved: it states what the `scraper` crate is
//! taken to do, and the rest of the crate is verified against that.

use vstd::prelude::*;
use crate::text::texts;

verus! {

/// A parsed markup tree, `scraper::Html`. Its contents are read through
/// `select_inner_html` only.
#[verifier::external_type_specification]
#[verifier::external_body]
pub struct ExHtml(scraper::Html);

/// The inner markup of the elements of `document` that the CSS selector
/// `selector` matches, in the order in which `scraper::Html::select` yields
/// them; the empty list where `selector` is not a valid selector.
pub uninterp spec fn selected_markup(document: scraper::Html, selector: Seq<char>) -> Seq<
    Seq<char>,
>;

/// The tree that `scraper::Html::parse_fragment` builds from `fragment`.
pub uninterp spec fn fragment_document(fragment: Seq<char>) -> scraper::Html;

/// Runs `scraper::Selector::parse` on `selector`, then
/// `scraper::Html::select` on `document`, and takes
/// `scraper::ElementRef::inner_html` of each element found. The contract
/// claims only that the list is a function of the tree and the selector text.
/// A selector that does not parse gives the empty list.
#[verifier::external_body]
pub(crate) fn select_inner_html(document: &scraper::Html, selector: &str) -> (out: Vec<String>)
    ensures
        texts(out@) == selected_markup(*document, selector@),
{
    match scraper::Selector::parse(selector) {
        Ok(parsed) => document.select(&parsed).map(|node| node.inner_html()).collect(),
        Err(_) => Vec::new(),
    }
}

/// Calls `scraper::Html::parse_fragment`, which accepts every text. The
/// contract claims only that the tree is a function of the text.
#[verifier::external_body]
pub(crate) fn parse_fragment(fragment: &str) -> (out: scraper::Html)
    ensures
        out == fragment_document(fragment@),
{
    scraper::Html::parse_fragment(fragment)
}

} // verus!
