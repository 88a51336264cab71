use grscraper::search::{detail_url, extract_goodreads_id, plan_queries, search_url};
use grscraper::text::{clean_string, normalize_text};
use grscraper::ScraperError;

#[test]
fn matches_is_reflexive_on_concrete_strings() {
    assert!(grscraper::text::matches("The Last Magician", "The Last Magician"));
    assert!(grscraper::text::matches("", ""));
    assert!(grscraper::text::matches("Fire", "Fire"));
}

#[test]
fn matches_ignores_punctuation_and_whitespace() {
    assert!(grscraper::text::matches("The Last Magician", "TheLastMagician"));
    assert!(grscraper::text::matches("The-Last-Magician!", "the last magician"));
    assert!(grscraper::text::matches("R. F. Kuang", "RF Kuang"));
}

#[test]
fn matches_is_case_insensitive() {
    assert!(grscraper::text::matches("THE LAST OLYMPIAN", "the last olympian"));
    assert!(grscraper::text::matches("percy jackson", "PERCY JACKSON"));
}

#[test]
fn matches_finds_query_as_substring() {
    assert!(grscraper::text::matches(
        "The Lightning Thief: Percy Jackson and the Olympians",
        "lightning thief"
    ));
    assert!(grscraper::text::matches("Babel, or the Necessity of Violence", "Babel"));
}

#[test]
fn matches_fails_without_substring() {
    assert!(!grscraper::text::matches("Fire", "Water"));
    assert!(!grscraper::text::matches("short", "a much longer query string"));
    assert!(!grscraper::text::matches("The Last Magician", "The First Magician"));
}

#[test]
fn clean_string_keeps_lowercased_alphanumerics() {
    assert_eq!(clean_string("The Last Magician!"), "thelastmagician");
    assert_eq!(clean_string("R. F. Kuang"), "rfkuang");
    assert_eq!(clean_string("  "), "");
    assert_eq!(clean_string("1,234"), "1234");
}

#[test]
fn normalize_text_trims_and_collapses_runs() {
    assert_eq!(normalize_text("  a   b\t\tc  "), "a b c");
    assert_eq!(normalize_text("plain"), "plain");
    assert_eq!(normalize_text("   "), "");
    assert_eq!(normalize_text("a \t b"), "a b");
}

#[test]
fn normalize_text_keeps_single_inner_whitespace_as_is() {
    // a lone tab is not a run of two or more and stays itself
    assert_eq!(normalize_text("a\tb"), "a\tb");
}

#[test]
fn extract_goodreads_id_takes_numeric_run_of_fourth_segment() {
    let id = extract_goodreads_id("/book/show/30312855-the-last-magician?from_search=true")
        .unwrap();
    assert_eq!(id, "30312855");
    let id = extract_goodreads_id("/book/show/6137154.Fire").unwrap();
    assert_eq!(id, "6137154");
}

#[test]
fn extract_goodreads_id_fails_on_short_links() {
    let r = extract_goodreads_id("/book/show");
    assert!(r.is_err());
    match r {
        Err(ScraperError::ScrapeError(_)) => {}
        _ => panic!("expected a structural failure"),
    }
    assert!(extract_goodreads_id("").is_err());
}

#[test]
fn extract_goodreads_id_is_empty_without_leading_digits() {
    // a fourth segment that does not start with a digit yields an empty ID
    let id = extract_goodreads_id("/book/show/the-last-magician").unwrap();
    assert_eq!(id, "");
}

#[test]
fn search_url_percent_encodes_the_query() {
    assert_eq!(
        search_url("The Last Magician"),
        "https://www.goodreads.com/search?q=The%20Last%20Magician"
    );
    assert_eq!(search_url("abc"), "https://www.goodreads.com/search?q=abc");
}

#[test]
fn detail_url_appends_the_catalog_id() {
    assert_eq!(
        detail_url("30312855"),
        "https://www.goodreads.com/book/show/30312855"
    );
}

#[test]
fn plan_queries_tries_title_then_combined() {
    let only_title = plan_queries("Fire", None);
    assert_eq!(only_title, vec!["Fire".to_string()]);
    let with_author = plan_queries("Fire", Some("Kristin Cashore"));
    assert_eq!(
        with_author,
        vec!["Fire".to_string(), "Fire Kristin Cashore".to_string()]
    );
}
