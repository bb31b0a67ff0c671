//! Anchor extraction: the one place the library reads HTML, through the
//! `scraper` crate's parser.

use vstd::prelude::*;

verus! {

/// The `href` attribute values of the anchor (`a`) elements of `body`, in
/// document order, as `scraper`'s HTML parser extracts them.
pub uninterp spec fn hrefs_of(body: Seq<char>) -> Seq<Seq<char>>;

/// Relies on `scraper::Html::parse_document`, `scraper::Selector::parse`
/// and `scraper::Html::select` to parse `body` as HTML and walk its `a`
/// elements: the extracted `href` values are a function of the document
/// text alone, named `hrefs_of`. (`Selector::parse("a")` cannot fail: `a`
/// is a well-formed selector.)
#[verifier::external_body]
pub(crate) fn extract_hrefs(body: &str) -> (r: Vec<String>)
    ensures
        r@.map_values(|s: String| s@) == hrefs_of(body@),
{
    let document = scraper::Html::parse_document(body);
    let selector = scraper::Selector::parse("a").unwrap();
    let mut hrefs = Vec::new();
    for element in document.select(&selector) {
        if let Some(link) = element.value().attr("href") {
            hrefs.push(link.to_owned());
        }
    }
    hrefs
}

} // verus!
