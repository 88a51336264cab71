//! Trusted access to the catalog's HTML pages through the scraper crate.
//!
//! Each function here is a pure computation on the page text: parsing the
//! document and selecting elements yields the same result for the same text,
//! so each result is named by a spec function of the text alone.

use vstd::prelude::*;

verus! {

/// The model of an optional link attribute.
pub open spec fn opt_attr(s: Option<String>) -> Option<Seq<char>> {
    match s {
        Some(x) => Some(x@),
        None => None,
    }
}

/// The text of the unique embedded data script of a page, if the page
/// carries one; a function of the page text alone.
pub uninterp spec fn embedded_payload(html: Seq<char>) -> Option<Seq<char>>;

/// Relies on scraper's Html::parse_document and element selection: the text
/// of the first script element with the well-known data marker depends on
/// the page text alone.
#[verifier::external_body]
pub fn embedded_next_data(html: &str) -> (r: Option<String>)
    ensures
        match r {
            Some(t) => embedded_payload(html@) == Some(t@),
            None => embedded_payload(html@) is None,
        },
{
    let document = scraper::Html::parse_document(html);
    let selector = scraper::Selector::parse(r#"script[id="__NEXT_DATA__"]"#).unwrap();
    document.select(&selector).next().map(|m| m.text().collect::<String>())
}

/// The book-title anchors of a results page: each anchor's text paired with
/// its link attribute, in page order; a function of the page text alone.
pub uninterp spec fn title_rows(html: Seq<char>) -> Seq<(Seq<char>, Option<Seq<char>>)>;

/// Relies on scraper's element selection: the text and the href attribute of
/// each book-title anchor, in page order.
#[verifier::external_body]
pub fn search_result_title_rows(html: &str) -> (r: Vec<(String, Option<String>)>)
    ensures
        r@.len() == title_rows(html@).len(),
        forall|i: int|
            0 <= i < r@.len() ==> #[trigger] title_rows(html@)[i] == (r@[i].0@, opt_attr(r@[i].1)),
{
    let document = scraper::Html::parse_document(html);
    let selector = scraper::Selector::parse(r#"a[class="bookTitle"]"#).unwrap();
    document.select(&selector).map(
        |el| (el.text().collect::<String>(), el.value().attr("href").map(|s| s.to_string())),
    ).collect()
}

/// The text of each author anchor of a results page, in page order; a
/// function of the page text alone.
pub uninterp spec fn author_texts(html: Seq<char>) -> Seq<Seq<char>>;

/// Relies on scraper's element selection: the text of each author anchor,
/// in page order.
#[verifier::external_body]
pub fn search_result_authors(html: &str) -> (r: Vec<String>)
    ensures
        r@.len() == author_texts(html@).len(),
        forall|i: int| 0 <= i < r@.len() ==> #[trigger] author_texts(html@)[i] == r@[i]@,
{
    let document = scraper::Html::parse_document(html);
    let selector = scraper::Selector::parse(r#"a[class="authorName"]"#).unwrap();
    document.select(&selector).map(|el| el.text().collect::<String>()).collect()
}

} // verus!
