use grscraper::json::parse_json;
use grscraper::metadata_fetcher::{
    extract_contributors, extract_description, extract_genres, extract_image_url, extract_isbn,
    extract_language, extract_metadata_fields, extract_page_count, extract_publication_date,
    extract_publisher, extract_root_key, extract_series, extract_title_and_subtitle,
    metadata_from_page,
};
use grscraper::{BookContributor, Decimal, JsonValue, ScraperError};

fn fixture() -> String {
    r#"{"props":{"pageProps":{"apolloState":{
      "ROOT_QUERY":{"getBookByLegacyId({\"legacyId\":\"30312855\"})":{"__ref":"Book:1"}},
      "Book:1":{"title":"The Last Magician","description":"Stop the Magician. Steal the book.","imageUrl":"https://images.example/30312855.jpg","primaryContributorEdge":{"role":"Author","node":{"__ref":"Contributor:1"}},"secondaryContributorEdges":[{"role":"Illustrator","node":{"__ref":"Contributor:2"}}],"bookGenres":[{"genre":{"name":"Fantasy"}},{"genre":{"name":"Young Adult"}}],"bookSeries":[{"userPosition":"1","series":{"__ref":"Series:1"}}],"details":{"publisher":"Margaret K. McElderry Books","publicationTime":1500361200000,"isbn":"1481432079","isbn13":"9781481432078","asin":"B01MYCC7BP","numPages":500,"language":{"name":"English"}}},
      "Contributor:1":{"name":"Lisa Maxwell"},
      "Contributor:2":{"name":"Jane Doe"},
      "Series:1":{"title":"The Last Magician"}
    },"params":{"book_id":"30312855-the-last-magician"}}}}"#
        .to_string()
}

fn graph_of(json: &str) -> JsonValue {
    parse_json(json).expect("fixture must parse")
}

fn page_of(json: &str) -> String {
    format!(
        "<html><head><script id=\"__NEXT_DATA__\" type=\"application/json\">{}</script></head><body></body></html>",
        json
    )
}

fn dec_f32(d: &Decimal) -> f32 {
    d.mantissa as f32 / 10f32.powi(d.scale as i32)
}

#[test]
fn root_key_resolves_from_catalog_id() {
    let graph = graph_of(&fixture());
    assert_eq!(extract_root_key(&graph, "30312855").unwrap(), "Book:1");
}

#[test]
fn missing_root_key_is_structural_failure() {
    let graph = graph_of(&fixture());
    let r = extract_root_key(&graph, "99999999");
    assert!(r.is_err());
    match r {
        Err(ScraperError::ScrapeError(_)) => {}
        _ => panic!("expected a structural failure"),
    }
}

#[test]
fn title_without_colon_has_no_subtitle() {
    let graph = graph_of(&fixture());
    let (title, subtitle) = extract_title_and_subtitle(&graph, "Book:1").unwrap();
    assert_eq!(title, "The Last Magician");
    assert_eq!(subtitle, None);
}

#[test]
fn title_splits_on_first_colon_and_trims() {
    let json = fixture().replace(
        "\"title\":\"The Last Magician\"",
        "\"title\":\"The Lightning Thief: Percy Jackson and the Olympians\"",
    );
    let graph = graph_of(&json);
    let (title, subtitle) = extract_title_and_subtitle(&graph, "Book:1").unwrap();
    assert_eq!(title, "The Lightning Thief");
    assert_eq!(subtitle, Some("Percy Jackson and the Olympians".to_string()));
}

#[test]
fn string_fields_are_whitespace_normalized() {
    let json = fixture().replace(
        "\"title\":\"The Last Magician\"",
        "\"title\":\"  The   Last \\t\\tMagician \"",
    );
    let graph = graph_of(&json);
    let (title, _) = extract_title_and_subtitle(&graph, "Book:1").unwrap();
    assert_eq!(title, "The Last Magician");
}

#[test]
fn record_fields_match_independent_extraction() {
    let graph = graph_of(&fixture());
    let m = extract_metadata_fields(&graph, "30312855").unwrap();
    let rk = extract_root_key(&graph, "30312855").unwrap();
    let (title, subtitle) = extract_title_and_subtitle(&graph, &rk).unwrap();
    assert_eq!(m.title, title);
    assert_eq!(m.subtitle, subtitle);
    assert_eq!(m.description, extract_description(&graph, &rk));
    assert_eq!(m.publisher, extract_publisher(&graph, &rk));
    assert_eq!(
        m.publication_date_millis,
        extract_publication_date(&graph, &rk)
    );
    assert_eq!(m.isbn, extract_isbn(&graph, &rk));
    assert_eq!(m.contributors, extract_contributors(&graph, &rk));
    assert_eq!(m.genres, extract_genres(&graph, &rk));
    assert_eq!(m.series, extract_series(&graph, &rk));
    assert_eq!(m.page_count, extract_page_count(&graph, &rk));
    assert_eq!(m.language, extract_language(&graph, &rk));
    assert_eq!(m.image_url, extract_image_url(&graph, &rk));
}

#[test]
fn full_record_has_expected_values() {
    let graph = graph_of(&fixture());
    let m = extract_metadata_fields(&graph, "30312855").unwrap();
    assert_eq!(m.title, "The Last Magician");
    assert_eq!(m.subtitle, None);
    assert_eq!(
        m.description,
        Some("Stop the Magician. Steal the book.".to_string())
    );
    assert_eq!(m.publisher, Some("Margaret K. McElderry Books".to_string()));
    let expected_millis = chrono::DateTime::parse_from_rfc3339("2017-07-18T07:00:00Z")
        .unwrap()
        .timestamp_millis();
    assert_eq!(m.publication_date_millis, Some(expected_millis));
    assert_eq!(m.isbn, Some("1481432079".to_string()));
    assert_eq!(
        m.contributors,
        vec![
            BookContributor::new("Lisa Maxwell".to_string(), "Author".to_string()),
            BookContributor::new("Jane Doe".to_string(), "Illustrator".to_string()),
        ]
    );
    assert_eq!(
        m.genres,
        vec!["Fantasy".to_string(), "Young Adult".to_string()]
    );
    let series = m.series.expect("series must be present");
    assert_eq!(series.title, "The Last Magician");
    assert_eq!(dec_f32(&series.number), 1.0);
    assert_eq!(m.page_count, Some(500));
    assert_eq!(m.language, Some("English".to_string()));
    assert_eq!(
        m.image_url,
        Some("https://images.example/30312855.jpg".to_string())
    );
}

#[test]
fn malformed_publication_date_degrades_only_itself() {
    let json = fixture().replace(
        "\"publicationTime\":1500361200000",
        "\"publicationTime\":\"soon\"",
    );
    let graph = graph_of(&json);
    let m = extract_metadata_fields(&graph, "30312855").unwrap();
    assert_eq!(m.publication_date_millis, None);
    assert_eq!(m.title, "The Last Magician");
    assert_eq!(m.publisher, Some("Margaret K. McElderry Books".to_string()));
    assert_eq!(m.isbn, Some("1481432079".to_string()));
    assert_eq!(m.page_count, Some(500));
    assert_eq!(m.language, Some("English".to_string()));
    assert_eq!(m.genres.len(), 2);
    assert_eq!(m.contributors.len(), 2);
    assert!(m.series.is_some());
}

#[test]
fn unknown_author_placeholder_is_filtered() {
    let json = fixture().replace(
        "\"Contributor:1\":{\"name\":\"Lisa Maxwell\"}",
        "\"Contributor:1\":{\"name\":\"Unknown Author\"}",
    );
    let graph = graph_of(&json);
    let contributors = extract_contributors(&graph, "Book:1");
    assert_eq!(
        contributors,
        vec![BookContributor::new(
            "Jane Doe".to_string(),
            "Illustrator".to_string()
        )]
    );
}

#[test]
fn zero_page_count_is_absent() {
    let json = fixture().replace("\"numPages\":500", "\"numPages\":0");
    let graph = graph_of(&json);
    assert_eq!(extract_page_count(&graph, "Book:1"), None);
    let m = extract_metadata_fields(&graph, "30312855").unwrap();
    assert_eq!(m.page_count, None);
}

#[test]
fn series_range_position_takes_the_start() {
    let json = fixture().replace(
        "\"userPosition\":\"1\"",
        "\"userPosition\":\"1-2\"",
    );
    let graph = graph_of(&json);
    let series = extract_series(&graph, "Book:1").expect("series must be present");
    assert_eq!(dec_f32(&series.number), 1.0);
}

#[test]
fn fractional_series_position_is_kept() {
    let json = fixture().replace(
        "\"userPosition\":\"1\"",
        "\"userPosition\":\"1.5\"",
    );
    let graph = graph_of(&json);
    let series = extract_series(&graph, "Book:1").expect("series must be present");
    assert_eq!(dec_f32(&series.number), 1.5);
}

#[test]
fn unparseable_series_position_drops_the_series() {
    let json = fixture().replace(
        "\"userPosition\":\"1\"",
        "\"userPosition\":\"one\"",
    );
    let graph = graph_of(&json);
    assert_eq!(extract_series(&graph, "Book:1"), None);
}

#[test]
fn isbn_prefers_isbn10_then_isbn13_then_asin() {
    let graph = graph_of(&fixture());
    assert_eq!(
        extract_isbn(&graph, "Book:1"),
        Some("1481432079".to_string())
    );
    let no10 = fixture().replace("\"isbn\":\"1481432079\",", "");
    let graph = graph_of(&no10);
    assert_eq!(
        extract_isbn(&graph, "Book:1"),
        Some("9781481432078".to_string())
    );
    let neither = no10.replace("\"isbn13\":\"9781481432078\",", "");
    let graph = graph_of(&neither);
    assert_eq!(extract_isbn(&graph, "Book:1"), Some("B01MYCC7BP".to_string()));
}

#[test]
fn metadata_from_page_succeeds_on_embedded_blob() {
    let page = page_of(&fixture());
    let m = metadata_from_page(&page, "30312855").unwrap();
    assert_eq!(m.title, "The Last Magician");
    assert_eq!(m.isbn, Some("1481432079".to_string()));
}

#[test]
fn page_without_blob_is_structural_failure() {
    let r = metadata_from_page("<html><body>nothing here</body></html>", "30312855");
    match r {
        Err(ScraperError::ScrapeError(_)) => {}
        _ => panic!("expected a structural failure"),
    }
}

#[test]
fn page_with_invalid_blob_is_serialization_failure() {
    let page = page_of("{not json");
    let r = metadata_from_page(&page, "30312855");
    match r {
        Err(ScraperError::SerializeError(_)) => {}
        _ => panic!("expected a serialization failure"),
    }
}

#[test]
fn broken_reference_degrades_the_dependent_field() {
    // the series reference points to a node that does not exist
    let json = fixture().replace("{\"__ref\":\"Series:1\"}", "{\"__ref\":\"Series:9\"}");
    let graph = graph_of(&json);
    assert_eq!(extract_series(&graph, "Book:1"), None);
    // every other field is unaffected
    let m = extract_metadata_fields(&graph, "30312855").unwrap();
    assert_eq!(m.series, None);
    assert_eq!(m.title, "The Last Magician");
}

#[test]
fn out_of_range_publication_date_is_absent() {
    // far outside the range a UTC instant can represent
    let json = fixture().replace(
        "\"publicationTime\":1500361200000",
        "\"publicationTime\":-9999999999999999",
    );
    let graph = graph_of(&json);
    assert_eq!(extract_publication_date(&graph, "Book:1"), None);
}

#[test]
fn reference_resolution_follows_one_hop() {
    let graph = graph_of(&fixture());
    let apollo = graph
        .get("props")
        .and_then(|p| p.get("pageProps"))
        .and_then(|p| p.get("apolloState"))
        .expect("fixture has an apolloState map");
    let book = apollo.get("Book:1").expect("fixture has the book node");
    let node = book
        .get("primaryContributorEdge")
        .and_then(|e| e.get("node"));
    let resolved = grscraper::metadata_fetcher::resolve_reference(&graph, node)
        .expect("the reference must resolve");
    let name = resolved.get("name").and_then(|n| n.as_str());
    assert_eq!(name.map(|s| s.as_str()), Some("Lisa Maxwell"));
    // a value without the reference key resolves to nothing
    assert!(grscraper::metadata_fetcher::resolve_reference(&graph, Some(book)).is_none());
}

#[test]
fn object_lookup_takes_the_first_occurrence() {
    let v = JsonValue::Obj(vec![
        ("k".to_string(), JsonValue::Int(1)),
        ("k".to_string(), JsonValue::Int(2)),
    ]);
    match v.get("k") {
        Some(JsonValue::Int(n)) => assert_eq!(*n, 1),
        _ => panic!("expected the first entry"),
    }
    assert!(v.get("missing").is_none());
    assert!(JsonValue::Null.get("k").is_none());
}

#[test]
fn normalized_lookup_rejects_non_strings_and_empties() {
    let blank = JsonValue::Str("  ".to_string());
    assert!(grscraper::json::to_normalized_string(Some(&blank)).is_none());
    let number = JsonValue::Int(3);
    assert!(grscraper::json::to_normalized_string(Some(&number)).is_none());
    let padded = JsonValue::Str(" a  b ".to_string());
    assert_eq!(
        grscraper::json::to_normalized_string(Some(&padded)),
        Some("a b".to_string())
    );
    assert!(grscraper::json::to_normalized_string(None).is_none());
}
