//! What counts as a page's content when a campaign's patterns are tried on
//! its text.
use crate::outside::{element_texts, selected_texts};
use vstd::prelude::*;

verus! {

/// The elements of a page whose text a campaign's patterns are tried on:
/// the children of the body other than scripts, style sheets and links.
pub const CONTENT_SELECTOR: &'static str = "body > *:not(script):not(noscript):not(css):not(style):not(link)";

/// The HTML selector parser refused the content selector.
#[derive(PartialEq, Eq, Structural, Clone, Copy, Debug)]
pub struct SelectorRefused;

/// The texts of a page's content elements, one per element: what the
/// content selector picks, or `None` when the selector is refused.
pub open spec fn content_texts_spec(html: Seq<char>) -> Option<Seq<Seq<char>>> {
    selected_texts(CONTENT_SELECTOR@, html)
}

/// The texts of the content elements of the page `html`.
pub fn content_texts(html: &str) -> (texts: Result<Vec<String>, SelectorRefused>)
    ensures
        match content_texts_spec(html@) {
            Some(t) => texts matches Ok(v) && v.deep_view() == t,
            None => texts is Err,
        },
{
    match element_texts(CONTENT_SELECTOR, html) {
        Some(t) => Ok(t),
        None => Err(SelectorRefused),
    }
}

} // verus!
