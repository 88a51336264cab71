use grscraper::metadata_fetcher::metadata_from_page;
use grscraper::search::{collect_search_rows, find_matching_id, isbn_id_from_page};
use grscraper::ScraperError;

fn title_anchor(href: &str, text: &str) -> String {
    format!("<a class=\"bookTitle\" href=\"{}\"><span>{}</span></a>", href, text)
}

fn author_anchor(text: &str) -> String {
    format!("<a class=\"authorName\"><span>{}</span></a>", text)
}

fn results_page() -> String {
    let mut body = String::new();
    body.push_str(&title_anchor(
        "/book/show/28187-the-lightning-thief?from_search=true",
        "The Lightning Thief",
    ));
    body.push_str(&author_anchor("Rick Riordan"));
    body.push_str(&title_anchor(
        "/book/show/30312855-the-last-magician?from_search=true",
        "The Last Magician",
    ));
    body.push_str(&author_anchor("Lisa Maxwell"));
    format!("<html><body>{}</body></html>", body)
}

fn detail_page() -> String {
    let json = r#"{"props":{"pageProps":{"apolloState":{
      "ROOT_QUERY":{"getBookByLegacyId({\"legacyId\":\"30312855\"})":{"__ref":"Book:1"}},
      "Book:1":{"title":"The Last Magician","primaryContributorEdge":{"role":"Author","node":{"__ref":"Contributor:1"}},"bookSeries":[{"userPosition":"1","series":{"__ref":"Series:1"}}],"details":{"isbn":"1481432079"}},
      "Contributor:1":{"name":"Lisa Maxwell"},
      "Series:1":{"title":"The Last Magician"}
    },"params":{"book_id":"30312855-the-last-magician"}}}}"#;
    format!(
        "<html><head><script id=\"__NEXT_DATA__\" type=\"application/json\">{}</script></head></html>",
        json
    )
}

#[test]
fn rows_align_title_author_and_link() {
    let rows = collect_search_rows(&results_page()).unwrap();
    assert_eq!(rows.len(), 2);
    assert_eq!(rows[0].title, "The Lightning Thief");
    assert_eq!(rows[0].author, "Rick Riordan");
    assert_eq!(rows[0].id, "28187");
    assert_eq!(rows[1].title, "The Last Magician");
    assert_eq!(rows[1].author, "Lisa Maxwell");
    assert_eq!(rows[1].id, "30312855");
}

#[test]
fn rows_truncate_to_the_shorter_sequence() {
    let page = format!(
        "<html><body>{}{}{}</body></html>",
        title_anchor("/book/show/28187-x", "The Lightning Thief"),
        title_anchor("/book/show/30312855-y", "The Last Magician"),
        author_anchor("Rick Riordan"),
    );
    let rows = collect_search_rows(&page).unwrap();
    assert_eq!(rows.len(), 1);
    assert_eq!(rows[0].title, "The Lightning Thief");
}

#[test]
fn missing_link_is_structural_failure() {
    let page = format!(
        "<html><body><a class=\"bookTitle\">No Link</a>{}</body></html>",
        author_anchor("Somebody"),
    );
    match collect_search_rows(&page) {
        Err(ScraperError::ScrapeError(_)) => {}
        _ => panic!("expected a structural failure"),
    }
}

#[test]
fn short_link_is_structural_failure() {
    let page = format!(
        "<html><body>{}{}</body></html>",
        title_anchor("/book", "The Last Magician"),
        author_anchor("Lisa Maxwell"),
    );
    match collect_search_rows(&page) {
        Err(ScraperError::ScrapeError(_)) => {}
        _ => panic!("expected a structural failure"),
    }
}

#[test]
fn resolves_first_matching_title() {
    let id = find_matching_id(&results_page(), "The Last Magician", None).unwrap();
    assert_eq!(id, Some("30312855".to_string()));
}

#[test]
fn resolves_in_page_order() {
    // both rows contain "The", so the first row wins
    let id = find_matching_id(&results_page(), "The", None).unwrap();
    assert_eq!(id, Some("28187".to_string()));
}

#[test]
fn unmatched_title_is_empty_not_error() {
    let id = find_matching_id(&results_page(), "thistitledoesnotexist", None).unwrap();
    assert_eq!(id, None);
}

#[test]
fn author_constraint_requires_both_to_match() {
    let id = find_matching_id(
        &results_page(),
        "The Last Magician",
        Some("Lisa Maxwell"),
    )
    .unwrap();
    assert_eq!(id, Some("30312855".to_string()));
    let id = find_matching_id(
        &results_page(),
        "The Last Magician",
        Some("Rick Riordan"),
    )
    .unwrap();
    assert_eq!(id, None);
}

#[test]
fn matching_tolerates_formatting_differences() {
    let id = find_matching_id(&results_page(), "the last magician!", None).unwrap();
    assert_eq!(id, Some("30312855".to_string()));
    let id = find_matching_id(&results_page(), "TheLastMagician", Some("lisamaxwell"))
        .unwrap();
    assert_eq!(id, Some("30312855".to_string()));
}

#[test]
fn isbn_page_resolves_to_its_book_id() {
    let id = isbn_id_from_page(&detail_page()).unwrap();
    assert_eq!(id, Some("30312855".to_string()));
}

#[test]
fn isbn_page_without_blob_is_empty_not_error() {
    let id = isbn_id_from_page("<html><body>no results</body></html>").unwrap();
    assert_eq!(id, None);
}

#[test]
fn isbn_page_with_invalid_blob_is_serialization_failure() {
    let page = "<html><head><script id=\"__NEXT_DATA__\">{broken</script></head></html>";
    match isbn_id_from_page(page) {
        Err(ScraperError::SerializeError(_)) => {}
        _ => panic!("expected a serialization failure"),
    }
}

#[test]
fn isbn_page_without_book_id_is_structural_failure() {
    let page = "<html><head><script id=\"__NEXT_DATA__\">{\"props\":{}}</script></head></html>";
    match isbn_id_from_page(page) {
        Err(ScraperError::ScrapeError(_)) => {}
        _ => panic!("expected a structural failure"),
    }
}

#[test]
fn title_search_then_extraction_yields_the_fixture_record() {
    let id = find_matching_id(&results_page(), "The Last Magician", None)
        .unwrap()
        .expect("the fixture page must resolve");
    let m = metadata_from_page(&detail_page(), &id).unwrap();
    assert_eq!(m.title, "The Last Magician");
    assert_eq!(m.isbn, Some("1481432079".to_string()));
    let series = m.series.expect("series must be present");
    assert_eq!(series.title, "The Last Magician");
    assert_eq!(
        series.number.mantissa as f64 / 10f64.powi(series.number.scale as i32),
        1.0
    );
}
