//! Reading a text out of an HTML page or a JSON document.
use vstd::prelude::*;

verus! {

/// What the `scraper` crate finds in an HTML `page` for a CSS `selector`:
/// `None` where it refuses the selector; otherwise `Some` of the inner HTML
/// of the first element selected, or of `None` where no element is.
pub uninterp spec fn selected_html(page: Seq<char>, selector: Seq<char>) -> Option<
    Option<Seq<char>>,
>;

/// What `serde_json` finds in a `document` at a JSON pointer: `None` where
/// the document is no JSON; otherwise `Some` of the text found there, or
/// of `None` where nothing is there or what is there is no text.
pub uninterp spec fn json_text(document: Seq<char>, pointer: Seq<char>) -> Option<
    Option<Seq<char>>,
>;

/// A text that was looked for, or its absence, as contracts speak of it.
pub open spec fn found_text(found: Option<Option<String>>) -> Option<Option<Seq<char>>> {
    match found {
        Some(Some(text)) => Some(Some(text@)),
        Some(None) => Some(None),
        None => None,
    }
}

/// Parses the selector with `Selector::parse` and the page with
/// `Html::parse_document`, takes the first element of `Html::select` and
/// its `inner_html`. Trusted: the result is `selected_html` of the arguments.
#[verifier::external_body]
pub(crate) fn select_inner_html(page: &str, selector: &str) -> (r: Option<Option<String>>)
    ensures
        found_text(r) == selected_html(page@, selector@),
{
    match scraper::Selector::parse(selector) {
        Ok(selector) => Some(
            scraper::Html::parse_document(page).select(&selector).next().map(
                |element| element.inner_html(),
            ),
        ),
        Err(_) => None,
    }
}

/// Parses the document with `serde_json::from_str`, looks the pointer up
/// with `Value::pointer` and reads a text with `Value::as_str`. Trusted: the
/// result is `json_text` of the arguments.
#[verifier::external_body]
pub(crate) fn json_text_at(document: &str, pointer: &str) -> (r: Option<Option<String>>)
    ensures
        found_text(r) == json_text(document@, pointer@),
{
    match serde_json::from_str::<serde_json::Value>(document) {
        Ok(value) => Some(
            value.pointer(pointer).and_then(|found| found.as_str()).map(|text| text.to_owned()),
        ),
        Err(_) => None,
    }
}

} // verus!
