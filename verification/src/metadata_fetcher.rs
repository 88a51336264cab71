//! The typed book-metadata record and its extraction from the embedded
//! object graph of a detail page.
//!
//! Exactly two conditions are fatal for an extraction: a page without the
//! embedded data blob, and a catalog ID whose graph root key cannot be
//! resolved. Every other field is independently optional: a missing or
//! malformed field degrades only itself.

use vstd::prelude::*;

use crate::decimal::Decimal;
use crate::errors::ScraperError;
use crate::decimal::{decimal_of, parse_decimal};
use crate::json::{
    get_opt, node_get, node_get_opt, node_text, opt_node, parse_json, parsed_graph,
    to_normalized_string, JsonNode, JsonValue,
};
use crate::page::{embedded_next_data, embedded_payload};
use crate::text::{
    before_char, chars_to_string, chars_vec, find_char, find_in_vec, lower_of, trim_chars,
    trimmed,
};

verus! {

/// An individual who contributed to the book, such as an author or editor.
#[derive(Debug, PartialEq)]
pub struct BookContributor {
    /// The contributor's name.
    pub name: String,
    /// The contributor's role, such as "Author" or "Illustrator".
    pub role: String,
}

/// The mathematical shape of a [`BookContributor`].
pub struct ContributorModel {
    pub name: Seq<char>,
    pub role: Seq<char>,
}

impl View for BookContributor {
    type V = ContributorModel;

    open spec fn view(&self) -> ContributorModel {
        ContributorModel { name: self.name@, role: self.role@ }
    }
}

impl BookContributor {
    /// A contributor from its parts.
    pub fn new(name: String, role: String) -> (r: Self)
        ensures
            r@ == (ContributorModel { name: name@, role: role@ }),
    {
        BookContributor { name, role }
    }
}

/// Series information: the series title and the book's position in it.
#[derive(Debug, PartialEq)]
pub struct BookSeries {
    /// The title of the series.
    pub title: String,
    /// The position of the book within the series; fractional positions such
    /// as 1.5 are kept exactly as a decimal number.
    pub number: Decimal,
}

/// The mathematical shape of a [`BookSeries`].
pub struct SeriesModel {
    pub title: Seq<char>,
    pub number: Decimal,
}

impl View for BookSeries {
    type V = SeriesModel;

    open spec fn view(&self) -> SeriesModel {
        SeriesModel { title: self.title@, number: self.number }
    }
}

impl BookSeries {
    /// A series entry from its parts.
    pub fn new(title: String, number: Decimal) -> (r: Self)
        ensures
            r@ == (SeriesModel { title: title@, number }),
    {
        BookSeries { title, number }
    }
}

/// The primary data structure holding the metadata of a book.
#[derive(Debug, PartialEq)]
pub struct BookMetadata {
    /// The main title of the book.
    pub title: String,
    /// An optional subtitle, split off the title after its first colon.
    pub subtitle: Option<String>,
    /// An optional description or summary of the book.
    pub description: Option<String>,
    /// The publisher, if available.
    pub publisher: Option<String>,
    /// The publication instant in milliseconds since the Unix epoch, UTC.
    pub publication_date_millis: Option<i64>,
    /// The ISBN, if available: ISBN-10, else ISBN-13, else the vendor
    /// catalog number, in that preference order.
    pub isbn: Option<String>,
    /// The contributors, the primary contributor first.
    pub contributors: Vec<BookContributor>,
    /// The genres, in the order the source lists them.
    pub genres: Vec<String>,
    /// The first series the book belongs to, if any.
    pub series: Option<BookSeries>,
    /// The number of pages; a literal zero in the source means unknown and
    /// becomes absent.
    pub page_count: Option<i64>,
    /// The language, if available.
    pub language: Option<String>,
    /// A URL to a cover image, if available.
    pub image_url: Option<String>,
}

/// The mathematical shape of a [`BookMetadata`].
pub struct MetadataModel {
    pub title: Seq<char>,
    pub subtitle: Option<Seq<char>>,
    pub description: Option<Seq<char>>,
    pub publisher: Option<Seq<char>>,
    pub publication_date_millis: Option<int>,
    pub isbn: Option<Seq<char>>,
    pub contributors: Seq<ContributorModel>,
    pub genres: Seq<Seq<char>>,
    pub series: Option<SeriesModel>,
    pub page_count: Option<int>,
    pub language: Option<Seq<char>>,
    pub image_url: Option<Seq<char>>,
}

/// The model of an optional machine integer.
pub open spec fn opt_int_view(n: Option<i64>) -> Option<int> {
    match n {
        Some(x) => Some(x as int),
        None => None,
    }
}

/// The model of an optional string.
pub open spec fn opt_str_view(s: Option<String>) -> Option<Seq<char>> {
    match s {
        Some(x) => Some(x@),
        None => None,
    }
}

/// The model of an optional series entry.
pub open spec fn opt_series_view(s: Option<BookSeries>) -> Option<SeriesModel> {
    match s {
        Some(x) => Some(x@),
        None => None,
    }
}

impl View for BookMetadata {
    type V = MetadataModel;

    open spec fn view(&self) -> MetadataModel {
        MetadataModel {
            title: self.title@,
            subtitle: opt_str_view(self.subtitle),
            description: opt_str_view(self.description),
            publisher: opt_str_view(self.publisher),
            publication_date_millis: opt_int_view(self.publication_date_millis),
            isbn: opt_str_view(self.isbn),
            contributors: Seq::new(self.contributors@.len(), |i: int| self.contributors@[i]@),
            genres: Seq::new(self.genres@.len(), |i: int| self.genres@[i]@),
            series: opt_series_view(self.series),
            page_count: opt_int_view(self.page_count),
            language: opt_str_view(self.language),
            image_url: opt_str_view(self.image_url),
        }
    }
}

impl BookMetadata {
    /// A metadata record from its parts.
    pub fn new(
        title: String,
        subtitle: Option<String>,
        description: Option<String>,
        publisher: Option<String>,
        publication_date_millis: Option<i64>,
        isbn: Option<String>,
        contributors: Vec<BookContributor>,
        genres: Vec<String>,
        series: Option<BookSeries>,
        page_count: Option<i64>,
        language: Option<String>,
        image_url: Option<String>,
    ) -> (r: Self)
        ensures
            r == (BookMetadata {
                title,
                subtitle,
                description,
                publisher,
                publication_date_millis,
                isbn,
                contributors,
                genres,
                series,
                page_count,
                language,
                image_url,
            }),
    {
        BookMetadata {
            title,
            subtitle,
            description,
            publisher,
            publication_date_millis,
            isbn,
            contributors,
            genres,
            series,
            page_count,
            language,
            image_url,
        }
    }
}

/// The apolloState node of the embedded document: the flat map that holds
/// every node of the object graph.
pub open spec fn apollo_state(g: JsonNode) -> Option<JsonNode> {
    node_get_opt(node_get_opt(node_get_opt(Some(g), "props"@), "pageProps"@), "apolloState"@)
}

/// The apolloState node of the graph.
fn apollo_node<'a>(graph: &'a JsonValue) -> (r: Option<&'a JsonValue>)
    ensures
        opt_node(r) == apollo_state(graph@),
{
    get_opt(get_opt(get_opt(Some(graph), "props"), "pageProps"), "apolloState")
}

/// One reference indirection: the normalized reference string under the
/// well-known reference key of `v`, looked up as a node key of the
/// apolloState map; absent if either hop fails.
pub open spec fn resolved_reference(g: JsonNode, v: Option<JsonNode>) -> Option<JsonNode> {
    match node_text(node_get_opt(v, "__ref"@)) {
        Some(k) => node_get_opt(apollo_state(g), k),
        None => None,
    }
}

/// Follows exactly one reference indirection through the graph. An
/// unresolvable reference yields absence, never a failure.
pub fn resolve_reference<'a>(graph: &'a JsonValue, v: Option<&JsonValue>) -> (r: Option<
    &'a JsonValue,
>)
    ensures
        opt_node(r) == resolved_reference(graph@, opt_node(v)),
{
    match to_normalized_string(get_opt(v, "__ref")) {
        Some(k) => get_opt(apollo_node(graph), k.as_str()),
        None => None,
    }
}

/// The key of the root query entry that resolves a catalog ID to the graph
/// root key.
pub open spec fn root_query_key(id: Seq<char>) -> Seq<char> {
    "getBookByLegacyId({\"legacyId\":\""@ + id + "\"})"@
}

/// The graph root key for a catalog ID: the reference stored in the root
/// query node, as a normalized non-empty string.
pub open spec fn root_ref(g: JsonNode, id: Seq<char>) -> Option<Seq<char>> {
    node_text(
        node_get_opt(
            node_get_opt(node_get_opt(apollo_state(g), "ROOT_QUERY"@), root_query_key(id)),
            "__ref"@,
        ),
    )
}

/// Resolves the graph root key for a catalog ID. Its absence is the one
/// field-level condition that is fatal for the whole extraction.
pub fn extract_root_key(graph: &JsonValue, catalog_id: &str) -> (r: Result<
    String,
    ScraperError,
>)
    ensures
        match r {
            Ok(k) => root_ref(graph@, catalog_id@) == Some(k@),
            Err(e) => root_ref(graph@, catalog_id@) is None && e is ScrapeError,
        },
{
    let mut key = "getBookByLegacyId({\"legacyId\":\"".to_owned();
    key.append(catalog_id);
    key.append("\"})");
    proof {
        assert(key@ =~= root_query_key(catalog_id@));
    }
    let apollo = apollo_node(graph);
    let node = get_opt(get_opt(get_opt(apollo, "ROOT_QUERY"), key.as_str()), "__ref");
    match to_normalized_string(node) {
        Some(s) => Ok(s),
        None => Err(ScraperError::ScrapeError("Failed to scrape the graph root key".to_owned())),
    }
}

/// A field of the book node named by the graph root key.
pub open spec fn book_field(g: JsonNode, rk: Seq<char>, name: Seq<char>) -> Option<JsonNode> {
    node_get_opt(node_get_opt(apollo_state(g), rk), name)
}

/// A field of the details node of the book node.
pub open spec fn detail_field(g: JsonNode, rk: Seq<char>, name: Seq<char>) -> Option<JsonNode> {
    node_get_opt(book_field(g, rk, "details"@), name)
}

fn book_field_node<'a>(graph: &'a JsonValue, rk: &str, name: &str) -> (r: Option<&'a JsonValue>)
    ensures
        opt_node(r) == book_field(graph@, rk@, name@),
{
    get_opt(get_opt(apollo_node(graph), rk), name)
}

fn detail_field_node<'a>(graph: &'a JsonValue, rk: &str, name: &str) -> (r: Option<
    &'a JsonValue,
>)
    ensures
        opt_node(r) == detail_field(graph@, rk@, name@),
{
    get_opt(book_field_node(graph, rk, "details"), name)
}

/// The title and optional subtitle: the normalized title field, split once
/// on its first colon, both parts trimmed.
pub open spec fn title_model(g: JsonNode, rk: Seq<char>) -> Option<
    (Seq<char>, Option<Seq<char>>),
> {
    match node_text(book_field(g, rk, "title"@)) {
        None => None,
        Some(t) => match find_char(t, ':') {
            None => Some((t, None)),
            Some(i) => Some((trimmed(t.take(i)), Some(trimmed(t.skip(i + 1))))),
        },
    }
}

/// Extracts the required title, and the subtitle where the title carries
/// one after a colon. A missing or empty title fails the extraction.
pub fn extract_title_and_subtitle(graph: &JsonValue, root_key: &str) -> (r: Result<
    (String, Option<String>),
    ScraperError,
>)
    ensures
        match r {
            Ok(ts) => title_model(graph@, root_key@) == Some((ts.0@, opt_str_view(ts.1))),
            Err(e) => title_model(graph@, root_key@) is None && e is ScrapeError,
        },
{
    let node = book_field_node(graph, root_key, "title");
    let whole = match to_normalized_string(node) {
        Some(t) => t,
        None => {
            return Err(ScraperError::ScrapeError("Failed to scrape book title".to_owned()));
        },
    };
    let v = chars_vec(whole.as_str());
    proof {
        crate::text::lemma_find_char(v@, ':');
    }
    match find_in_vec(&v, ':') {
        None => Ok((whole, None)),
        Some(i) => {
            let n = v.len();
            assert(i < n);
            let mut left: Vec<char> = Vec::new();
            let mut k: usize = 0;
            while k < i
                invariant
                    i < v@.len(),
                    k <= i,
                    left@ == v@.subrange(0, k as int),
                decreases i - k,
            {
                left.push(v[k]);
                assert(left@ =~= v@.subrange(0, k + 1));
                k += 1;
            }
            let mut right: Vec<char> = Vec::new();
            let mut j: usize = i + 1;
            while j < v.len()
                invariant
                    i < v@.len(),
                    i + 1 <= j <= v@.len(),
                    right@ == v@.subrange(i + 1, j as int),
                decreases v@.len() - j,
            {
                right.push(v[j]);
                assert(right@ =~= v@.subrange(i + 1, j + 1));
                j += 1;
            }
            proof {
                assert(left@ =~= v@.take(i as int));
                assert(right@ =~= v@.skip(i + 1));
            }
            let title = chars_to_string(&trim_chars(&left));
            let subtitle = chars_to_string(&trim_chars(&right));
            Ok((title, Some(subtitle)))
        },
    }
}

/// A normalized string field of the book node.
fn normalized_book_field(graph: &JsonValue, rk: &str, name: &str) -> (r: Option<String>)
    ensures
        opt_str_view(r) == node_text(book_field(graph@, rk@, name@)),
{
    to_normalized_string(book_field_node(graph, rk, name))
}

/// A normalized string field of the details node.
fn normalized_detail_field(graph: &JsonValue, rk: &str, name: &str) -> (r: Option<String>)
    ensures
        opt_str_view(r) == node_text(detail_field(graph@, rk@, name@)),
{
    to_normalized_string(detail_field_node(graph, rk, name))
}

/// The normalized description field.
pub open spec fn description_model(g: JsonNode, rk: Seq<char>) -> Option<Seq<char>> {
    node_text(book_field(g, rk, "description"@))
}

/// The optional description of the book.
pub fn extract_description(graph: &JsonValue, root_key: &str) -> (r: Option<String>)
    ensures
        opt_str_view(r) == description_model(graph@, root_key@),
{
    normalized_book_field(graph, root_key, "description")
}

/// The normalized cover image URL field.
pub open spec fn image_url_model(g: JsonNode, rk: Seq<char>) -> Option<Seq<char>> {
    node_text(book_field(g, rk, "imageUrl"@))
}

/// The optional cover image URL.
pub fn extract_image_url(graph: &JsonValue, root_key: &str) -> (r: Option<String>)
    ensures
        opt_str_view(r) == image_url_model(graph@, root_key@),
{
    normalized_book_field(graph, root_key, "imageUrl")
}

/// The normalized publisher field of the details node.
pub open spec fn publisher_model(g: JsonNode, rk: Seq<char>) -> Option<Seq<char>> {
    node_text(detail_field(g, rk, "publisher"@))
}

/// The optional publisher.
pub fn extract_publisher(graph: &JsonValue, root_key: &str) -> (r: Option<String>)
    ensures
        opt_str_view(r) == publisher_model(graph@, root_key@),
{
    normalized_detail_field(graph, root_key, "publisher")
}

/// The normalized language name under the details node.
pub open spec fn language_model(g: JsonNode, rk: Seq<char>) -> Option<Seq<char>> {
    node_text(node_get_opt(detail_field(g, rk, "language"@), "name"@))
}

/// The optional language of the book.
pub fn extract_language(graph: &JsonValue, root_key: &str) -> (r: Option<String>)
    ensures
        opt_str_view(r) == language_model(graph@, root_key@),
{
    to_normalized_string(get_opt(detail_field_node(graph, root_key, "language"), "name"))
}

/// The ISBN preference chain: ISBN-10, else ISBN-13, else the vendor catalog
/// number; the first present field wins.
pub open spec fn isbn_model(g: JsonNode, rk: Seq<char>) -> Option<Seq<char>> {
    match node_text(detail_field(g, rk, "isbn"@)) {
        Some(s) => Some(s),
        None => match node_text(detail_field(g, rk, "isbn13"@)) {
            Some(s) => Some(s),
            None => node_text(detail_field(g, rk, "asin"@)),
        },
    }
}

/// The optional ISBN, by the preference chain.
pub fn extract_isbn(graph: &JsonValue, root_key: &str) -> (r: Option<String>)
    ensures
        opt_str_view(r) == isbn_model(graph@, root_key@),
{
    if let Some(isbn) = normalized_detail_field(graph, root_key, "isbn") {
        return Some(isbn);
    }
    if let Some(isbn13) = normalized_detail_field(graph, root_key, "isbn13") {
        return Some(isbn13);
    }
    normalized_detail_field(graph, root_key, "asin")
}

/// The page count: an integer field, with a literal zero meaning unknown and
/// mapped to absence.
pub open spec fn page_count_model(g: JsonNode, rk: Seq<char>) -> Option<int> {
    match detail_field(g, rk, "numPages"@) {
        Some(JsonNode::Int(n)) => if n == 0 {
            None
        } else {
            Some(n)
        },
        _ => None,
    }
}

/// The optional page count; zero in the source means unknown and is absent.
pub fn extract_page_count(graph: &JsonValue, root_key: &str) -> (r: Option<i64>)
    ensures
        opt_int_view(r) == page_count_model(graph@, root_key@),
{
    match detail_field_node(graph, root_key, "numPages") {
        Some(v) => match v.as_int() {
            Some(n) => if n == 0 {
                None
            } else {
                Some(n)
            },
            None => None,
        },
        None => None,
    }
}

/// Whether chrono can represent a millisecond timestamp as a UTC instant.
pub uninterp spec fn ts_millis_valid(ms: int) -> bool;

/// Relies on chrono's DateTime::from_timestamp_millis: whether a millisecond
/// timestamp is representable depends on the value alone.
#[verifier::external_body]
fn timestamp_millis_representable(ms: i64) -> (r: bool)
    ensures
        r == ts_millis_valid(ms as int),
{
    chrono::DateTime::from_timestamp_millis(ms).is_some()
}

/// The publication instant in epoch milliseconds: an integer field, absent
/// where missing, malformed, or out of the range a UTC instant can hold.
pub open spec fn publication_date_model(g: JsonNode, rk: Seq<char>) -> Option<int> {
    match detail_field(g, rk, "publicationTime"@) {
        Some(JsonNode::Int(ms)) => if ts_millis_valid(ms) {
            Some(ms)
        } else {
            None
        },
        _ => None,
    }
}

/// The optional publication date, in milliseconds since the Unix epoch. A
/// present but non-numeric value degrades only this field.
pub fn extract_publication_date(graph: &JsonValue, root_key: &str) -> (r: Option<i64>)
    ensures
        opt_int_view(r) == publication_date_model(graph@, root_key@),
{
    match detail_field_node(graph, root_key, "publicationTime") {
        Some(v) => match v.as_int() {
            Some(ms) => if timestamp_millis_representable(ms) {
                Some(ms)
            } else {
                None
            },
            None => None,
        },
        None => None,
    }
}

/// One contributor entry: a role and a node reference, resolved through the
/// graph to the contributor's normalized name. An entry missing its role,
/// its reference or the resolved name is skipped.
pub open spec fn contributor_model(g: JsonNode, entry: JsonNode) -> Option<ContributorModel> {
    let role = node_text(node_get(entry, "role"@));
    let name = node_text(
        node_get_opt(resolved_reference(g, node_get(entry, "node"@)), "name"@),
    );
    match (role, name) {
        (Some(r), Some(n)) => Some(ContributorModel { name: n, role: r }),
        _ => None,
    }
}

/// The primary contributor, where the edge is an object that resolves.
pub open spec fn primary_contributor_model(g: JsonNode, rk: Seq<char>) -> Option<
    ContributorModel,
> {
    match book_field(g, rk, "primaryContributorEdge"@) {
        Some(e) => if e is Obj {
            contributor_model(g, e)
        } else {
            None
        },
        None => None,
    }
}

/// The secondary contributors of the given edge entries, in source order;
/// entries that do not resolve are skipped.
pub open spec fn secondary_contributors_model(g: JsonNode, entries: Seq<JsonNode>) -> Seq<
    ContributorModel,
>
    decreases entries.len(),
{
    if entries.len() == 0 {
        Seq::empty()
    } else {
        match contributor_model(g, entries[0]) {
            Some(c) => seq![c] + secondary_contributors_model(g, entries.drop_first()),
            None => secondary_contributors_model(g, entries.drop_first()),
        }
    }
}

/// All resolved contributors before filtering: the primary first, then the
/// secondary entries in source order.
pub open spec fn raw_contributors_model(g: JsonNode, rk: Seq<char>) -> Seq<ContributorModel> {
    let head = match primary_contributor_model(g, rk) {
        Some(c) => seq![c],
        None => Seq::<ContributorModel>::empty(),
    };
    let tail = match book_field(g, rk, "secondaryContributorEdges"@) {
        Some(JsonNode::Arr(entries)) => secondary_contributors_model(g, entries),
        _ => Seq::<ContributorModel>::empty(),
    };
    head + tail
}

/// Whether a contributor stays in the final list: placeholder nodes whose
/// name lower-cases to "unknown author" are dropped.
pub open spec fn keeps_contributor(c: ContributorModel) -> bool {
    lower_of(c.name) != "unknown author"@
}

/// The contributors that pass the placeholder filter, order kept.
pub open spec fn filter_contributors(s: Seq<ContributorModel>) -> Seq<ContributorModel>
    decreases s.len(),
{
    if s.len() == 0 {
        Seq::empty()
    } else if keeps_contributor(s[0]) {
        seq![s[0]] + filter_contributors(s.drop_first())
    } else {
        filter_contributors(s.drop_first())
    }
}

/// The final contributor list of the book.
pub open spec fn contributors_model(g: JsonNode, rk: Seq<char>) -> Seq<ContributorModel> {
    filter_contributors(raw_contributors_model(g, rk))
}

proof fn lemma_secondary_skip_step(
    g: JsonNode,
    entries: Seq<JsonNode>,
    i: int,
    acc: Seq<ContributorModel>,
)
    requires
        0 <= i < entries.len(),
        secondary_contributors_model(g, entries) == acc + secondary_contributors_model(
            g,
            entries.skip(i),
        ),
    ensures
        match contributor_model(g, entries[i]) {
            Some(c) => secondary_contributors_model(g, entries) == acc.push(c)
                + secondary_contributors_model(g, entries.skip(i + 1)),
            None => secondary_contributors_model(g, entries) == acc
                + secondary_contributors_model(g, entries.skip(i + 1)),
        },
{
    assert(entries.skip(i)[0] == entries[i]);
    assert(entries.skip(i).drop_first() =~= entries.skip(i + 1));
    match contributor_model(g, entries[i]) {
        Some(c) => {
            assert(secondary_contributors_model(g, entries.skip(i)) == seq![c]
                + secondary_contributors_model(g, entries.skip(i + 1)));
            assert(acc + (seq![c] + secondary_contributors_model(g, entries.skip(i + 1)))
                =~= acc.push(c) + secondary_contributors_model(g, entries.skip(i + 1)));
        },
        None => {},
    }
}

proof fn lemma_filter_contributors_skip_step(
    s: Seq<ContributorModel>,
    i: int,
    acc: Seq<ContributorModel>,
)
    requires
        0 <= i < s.len(),
        filter_contributors(s) == acc + filter_contributors(s.skip(i)),
    ensures
        keeps_contributor(s[i]) ==> filter_contributors(s) == acc.push(s[i])
            + filter_contributors(s.skip(i + 1)),
        !keeps_contributor(s[i]) ==> filter_contributors(s) == acc + filter_contributors(
            s.skip(i + 1),
        ),
{
    assert(s.skip(i)[0] == s[i]);
    assert(s.skip(i).drop_first() =~= s.skip(i + 1));
    if keeps_contributor(s[i]) {
        assert(acc + (seq![s[i]] + filter_contributors(s.skip(i + 1))) =~= acc.push(s[i])
            + filter_contributors(s.skip(i + 1)));
    }
}

/// Resolves one contributor edge entry to a contributor, if its role, its
/// reference and the referenced name all resolve.
fn fetch_contributor(graph: &JsonValue, entry: &JsonValue) -> (r: Option<BookContributor>)
    ensures
        match r {
            Some(c) => contributor_model(graph@, entry@) == Some(c@),
            None => contributor_model(graph@, entry@) is None,
        },
{
    let role = to_normalized_string(entry.get("role"));
    let name = to_normalized_string(
        get_opt(resolve_reference(graph, entry.get("node")), "name"),
    );
    match (role, name) {
        (Some(r), Some(n)) => Some(BookContributor::new(n, r)),
        _ => None,
    }
}

/// The model sequence of a contributor vector.
pub open spec fn contributors_view(v: Seq<BookContributor>) -> Seq<ContributorModel> {
    Seq::new(v.len(), |i: int| v[i]@)
}

/// Extracts the contributors: the primary contributor first, then the
/// secondary ones in source order; entries that do not resolve are skipped,
/// and placeholder names are filtered out.
pub fn extract_contributors(graph: &JsonValue, root_key: &str) -> (r: Vec<BookContributor>)
    ensures
        contributors_view(r@) == contributors_model(graph@, root_key@),
{
    let ghost g = graph@;
    let ghost rk = root_key@;
    let mut raw: Vec<BookContributor> = Vec::new();

    let primary = book_field_node(graph, root_key, "primaryContributorEdge");
    match primary {
        Some(edge) => {
            if edge.is_object() {
                match fetch_contributor(graph, edge) {
                    Some(c) => {
                        raw.push(c);
                    },
                    None => {},
                }
            }
        },
        None => {},
    }
    let ghost head = match primary_contributor_model(g, rk) {
        Some(c) => seq![c],
        None => Seq::<ContributorModel>::empty(),
    };
    assert(contributors_view(raw@) =~= head);

    let secondary = book_field_node(graph, root_key, "secondaryContributorEdges");
    match secondary {
        Some(arr) => {
            match arr.as_array() {
                Some(items) => {
                    let ghost gentries = arr@->Arr_0;
                    let ghost mut sec_acc: Seq<ContributorModel> = Seq::empty();
                    proof {
                        assert(gentries.skip(0) =~= gentries);
                        assert(sec_acc + secondary_contributors_model(g, gentries)
                            =~= secondary_contributors_model(g, gentries));
                    }
                    let mut i: usize = 0;
                    while i < items.len()
                        invariant
                            g == graph@,
                            items@.len() == gentries.len(),
                            forall|j: int|
                                0 <= j < gentries.len() ==> gentries[j] == #[trigger] items@[j]@,
                            i <= items@.len(),
                            contributors_view(raw@) =~= head + sec_acc,
                            secondary_contributors_model(g, gentries) == sec_acc
                                + secondary_contributors_model(g, gentries.skip(i as int)),
                        decreases items@.len() - i,
                    {
                        proof {
                            lemma_secondary_skip_step(g, gentries, i as int, sec_acc);
                        }
                        let ghost old_raw = raw@;
                        let entry = &items[i];
                        proof {
                            assert(entry@ == gentries[i as int]);
                        }
                        match fetch_contributor(graph, entry) {
                            Some(c) => {
                                raw.push(c);
                                proof {
                                    sec_acc = sec_acc.push(c@);
                                    assert(contributors_view(raw@) =~= contributors_view(
                                        old_raw,
                                    ).push(c@));
                                    assert(head + sec_acc =~= (head + sec_acc.drop_last()).push(
                                        c@,
                                    ));
                                }
                            },
                            None => {},
                        }
                        i += 1;
                    }
                    proof {
                        assert(gentries.skip(gentries.len() as int) =~= Seq::<JsonNode>::empty());
                        assert(sec_acc + Seq::<ContributorModel>::empty() =~= sec_acc);
                        assert(contributors_view(raw@) =~= head + secondary_contributors_model(
                            g,
                            gentries,
                        ));
                    }
                },
                None => {
                    proof {
                        assert(contributors_view(raw@) =~= head
                            + Seq::<ContributorModel>::empty());
                    }
                },
            }
        },
        None => {
            proof {
                assert(contributors_view(raw@) =~= head + Seq::<ContributorModel>::empty());
            }
        },
    }
    assert(contributors_view(raw@) == raw_contributors_model(g, rk));

    // drop the placeholder entries
    let ghost models = raw_contributors_model(g, rk);
    let mut out: Vec<BookContributor> = Vec::new();
    let mut k: usize = 0;
    proof {
        assert(models.skip(0) =~= models);
    }
    while k < raw.len()
        invariant
            contributors_view(raw@) == models,
            raw@.len() == models.len(),
            k <= models.len(),
            filter_contributors(models) == contributors_view(out@) + filter_contributors(
                models.skip(k as int),
            ),
        decreases models.len() - k,
    {
        proof {
            lemma_filter_contributors_skip_step(models, k as int, contributors_view(out@));
            assert(models[k as int] == raw@[k as int]@);
        }
        let lowered = crate::text::lowercase(raw[k].name.as_str());
        let keep = !crate::json::str_eq(lowered.as_str(), "unknown author");
        assert(keep == keeps_contributor(models[k as int]));
        if keep {
            let ghost old_out = out@;
            let item = BookContributor {
                name: raw[k].name.clone(),
                role: raw[k].role.clone(),
            };
            assert(item@ == models[k as int]);
            out.push(item);
            proof {
                assert(contributors_view(out@) =~= contributors_view(old_out).push(
                    models[k as int],
                ));
            }
        }
        k += 1;
    }
    proof {
        assert(models.skip(models.len() as int) =~= Seq::<ContributorModel>::empty());
        assert(contributors_view(out@) + Seq::<ContributorModel>::empty() =~= contributors_view(
            out@,
        ));
    }
    out
}

/// The normalized genre name of one genre wrapper entry.
pub open spec fn genre_name_model(entry: JsonNode) -> Option<Seq<char>> {
    node_text(node_get_opt(node_get(entry, "genre"@), "name"@))
}

/// The genre names of the given wrapper entries, in source order; entries
/// without a name are skipped.
pub open spec fn genres_list_model(entries: Seq<JsonNode>) -> Seq<Seq<char>>
    decreases entries.len(),
{
    if entries.len() == 0 {
        Seq::empty()
    } else {
        match genre_name_model(entries[0]) {
            Some(name) => seq![name] + genres_list_model(entries.drop_first()),
            None => genres_list_model(entries.drop_first()),
        }
    }
}

/// The genres of the book: absent or non-array fields yield an empty list.
pub open spec fn genres_model(g: JsonNode, rk: Seq<char>) -> Seq<Seq<char>> {
    match book_field(g, rk, "bookGenres"@) {
        Some(JsonNode::Arr(entries)) => genres_list_model(entries),
        _ => Seq::empty(),
    }
}

proof fn lemma_genres_skip_step(entries: Seq<JsonNode>, i: int, acc: Seq<Seq<char>>)
    requires
        0 <= i < entries.len(),
        genres_list_model(entries) == acc + genres_list_model(entries.skip(i)),
    ensures
        match genre_name_model(entries[i]) {
            Some(name) => genres_list_model(entries) == acc.push(name) + genres_list_model(
                entries.skip(i + 1),
            ),
            None => genres_list_model(entries) == acc + genres_list_model(entries.skip(i + 1)),
        },
{
    assert(entries.skip(i)[0] == entries[i]);
    assert(entries.skip(i).drop_first() =~= entries.skip(i + 1));
    match genre_name_model(entries[i]) {
        Some(name) => {
            assert(acc + (seq![name] + genres_list_model(entries.skip(i + 1))) =~= acc.push(name)
                + genres_list_model(entries.skip(i + 1)));
        },
        None => {},
    }
}

/// The model sequence of a genre vector.
pub open spec fn genres_view(v: Seq<String>) -> Seq<Seq<char>> {
    Seq::new(v.len(), |i: int| v[i]@)
}

/// Extracts the genres in source order; entries without a resolvable name
/// are skipped, and an absent or malformed field yields an empty list.
pub fn extract_genres(graph: &JsonValue, root_key: &str) -> (r: Vec<String>)
    ensures
        genres_view(r@) == genres_model(graph@, root_key@),
{
    let mut out: Vec<String> = Vec::new();
    let node = book_field_node(graph, root_key, "bookGenres");
    match node {
        Some(arr) => {
            match arr.as_array() {
                Some(items) => {
                    let ghost gentries = arr@->Arr_0;
                    let ghost mut acc: Seq<Seq<char>> = Seq::empty();
                    proof {
                        assert(gentries.skip(0) =~= gentries);
                        assert(acc + genres_list_model(gentries) =~= genres_list_model(
                            gentries,
                        ));
                    }
                    let mut i: usize = 0;
                    while i < items.len()
                        invariant
                            items@.len() == gentries.len(),
                            forall|j: int|
                                0 <= j < gentries.len() ==> gentries[j] == #[trigger] items@[j]@,
                            i <= items@.len(),
                            genres_view(out@) =~= acc,
                            genres_list_model(gentries) == acc + genres_list_model(
                                gentries.skip(i as int),
                            ),
                        decreases items@.len() - i,
                    {
                        proof {
                            lemma_genres_skip_step(gentries, i as int, acc);
                        }
                        let entry = &items[i];
                        proof {
                            assert(entry@ == gentries[i as int]);
                        }
                        let ghost old_out = out@;
                        match to_normalized_string(get_opt(entry.get("genre"), "name")) {
                            Some(name) => {
                                proof {
                                    acc = acc.push(name@);
                                }
                                out.push(name);
                                proof {
                                    assert(genres_view(out@) =~= genres_view(old_out).push(
                                        acc.last(),
                                    ));
                                }
                            },
                            None => {},
                        }
                        i += 1;
                    }
                    proof {
                        assert(gentries.skip(gentries.len() as int) =~= Seq::<JsonNode>::empty());
                        assert(acc + Seq::<Seq<char>>::empty() =~= acc);
                        assert(genres_view(out@) =~= genres_list_model(gentries));
                    }
                },
                None => {
                    assert(genres_view(out@) =~= Seq::<Seq<char>>::empty());
                },
            }
        },
        None => {
            assert(genres_view(out@) =~= Seq::<Seq<char>>::empty());
        },
    }
    out
}

/// The first series entry of the book: its position string split on a dash
/// and read as a decimal, its reference resolved to the series title. All
/// three parts must resolve, or the field is absent.
pub open spec fn series_model(g: JsonNode, rk: Seq<char>) -> Option<SeriesModel> {
    match book_field(g, rk, "bookSeries"@) {
        Some(JsonNode::Arr(entries)) => if entries.len() == 0 {
            None
        } else {
            match node_get(entries[0], "userPosition"@) {
                Some(JsonNode::Str(pos)) => match decimal_of(before_char(pos, '-')) {
                    Some(number) => match node_text(
                        node_get_opt(
                            resolved_reference(g, node_get(entries[0], "series"@)),
                            "title"@,
                        ),
                    ) {
                        Some(title) => Some(SeriesModel { title, number }),
                        None => None,
                    },
                    None => None,
                },
                _ => None,
            }
        },
        _ => None,
    }
}

/// Extracts the first series entry, if its position parses as a decimal and
/// its reference resolves to a title.
pub fn extract_series(graph: &JsonValue, root_key: &str) -> (r: Option<BookSeries>)
    ensures
        opt_series_view(r) == series_model(graph@, root_key@),
{
    let node = match book_field_node(graph, root_key, "bookSeries") {
        Some(v) => v,
        None => {
            return None;
        },
    };
    let items = match node.as_array() {
        Some(items) => items,
        None => {
            return None;
        },
    };
    if items.len() == 0 {
        return None;
    }
    let entry = &items[0];
    proof {
        assert(entry@ == node@->Arr_0[0]);
    }
    let pos = match entry.get("userPosition") {
        Some(p) => p,
        None => {
            return None;
        },
    };
    let pos_str = match pos.as_str() {
        Some(s) => s,
        None => {
            return None;
        },
    };
    let v = chars_vec(pos_str.as_str());
    proof {
        crate::text::lemma_find_char(v@, '-');
    }
    let token_end = match find_in_vec(&v, '-') {
        Some(i) => i,
        None => v.len(),
    };
    let mut token: Vec<char> = Vec::new();
    let mut k: usize = 0;
    while k < token_end
        invariant
            token_end <= v@.len(),
            k <= token_end,
            token@ == v@.subrange(0, k as int),
        decreases token_end - k,
    {
        token.push(v[k]);
        assert(token@ =~= v@.subrange(0, k + 1));
        k += 1;
    }
    proof {
        assert(token@ =~= before_char(pos_str@, '-'));
    }
    let token_str = chars_to_string(&token);
    let number = match parse_decimal(token_str.as_str()) {
        Some(d) => d,
        None => {
            return None;
        },
    };
    let title = match to_normalized_string(
        get_opt(resolve_reference(graph, entry.get("series")), "title"),
    ) {
        Some(t) => t,
        None => {
            return None;
        },
    };
    Some(BookSeries::new(title, number))
}

/// The complete metadata model of a graph for a catalog ID; absent exactly
/// where the graph root key or the title cannot be resolved.
pub open spec fn book_metadata_model(g: JsonNode, id: Seq<char>) -> Option<MetadataModel> {
    match root_ref(g, id) {
        None => None,
        Some(rk) => match title_model(g, rk) {
            None => None,
            Some(ts) => Some(
                MetadataModel {
                    title: ts.0,
                    subtitle: ts.1,
                    description: description_model(g, rk),
                    publisher: publisher_model(g, rk),
                    publication_date_millis: publication_date_model(g, rk),
                    isbn: isbn_model(g, rk),
                    contributors: contributors_model(g, rk),
                    genres: genres_model(g, rk),
                    series: series_model(g, rk),
                    page_count: page_count_model(g, rk),
                    language: language_model(g, rk),
                    image_url: image_url_model(g, rk),
                },
            ),
        },
    }
}

/// Extraction is pure: each field of an assembled record equals what its
/// field extractor yields independently on the same graph and root key, so
/// assembling and re-extracting agree.
pub proof fn lemma_assembled_fields_match_extractors(g: JsonNode, id: Seq<char>)
    requires
        book_metadata_model(g, id) is Some,
    ensures
        root_ref(g, id) is Some,
        ({
            let m = book_metadata_model(g, id)->Some_0;
            let rk = root_ref(g, id)->Some_0;
            &&& title_model(g, rk) == Some((m.title, m.subtitle))
            &&& m.description == description_model(g, rk)
            &&& m.publisher == publisher_model(g, rk)
            &&& m.publication_date_millis == publication_date_model(g, rk)
            &&& m.isbn == isbn_model(g, rk)
            &&& m.contributors == contributors_model(g, rk)
            &&& m.genres == genres_model(g, rk)
            &&& m.series == series_model(g, rk)
            &&& m.page_count == page_count_model(g, rk)
            &&& m.language == language_model(g, rk)
            &&& m.image_url == image_url_model(g, rk)
        }),
{
    let rk = root_ref(g, id)->Some_0;
    let ts = title_model(g, rk)->Some_0;
    assert(ts == (ts.0, ts.1));
}

/// Assembles the full metadata record from a parsed graph. Only two
/// conditions fail it: an unresolvable graph root key and a missing title;
/// every other field degrades to absence on its own.
pub fn extract_metadata_fields(graph: &JsonValue, catalog_id: &str) -> (r: Result<
    BookMetadata,
    ScraperError,
>)
    ensures
        match r {
            Ok(m) => book_metadata_model(graph@, catalog_id@) == Some(m@),
            Err(e) => book_metadata_model(graph@, catalog_id@) is None && e is ScrapeError,
        },
{
    let root_key = match extract_root_key(graph, catalog_id) {
        Ok(k) => k,
        Err(e) => {
            return Err(e);
        },
    };
    let rk = root_key.as_str();
    let (title, subtitle) = match extract_title_and_subtitle(graph, rk) {
        Ok(ts) => ts,
        Err(e) => {
            return Err(e);
        },
    };
    let description = extract_description(graph, rk);
    let image_url = extract_image_url(graph, rk);
    let contributors = extract_contributors(graph, rk);
    let genres = extract_genres(graph, rk);
    let publisher = extract_publisher(graph, rk);
    let publication_date_millis = extract_publication_date(graph, rk);
    let isbn = extract_isbn(graph, rk);
    let page_count = extract_page_count(graph, rk);
    let language = extract_language(graph, rk);
    let series = extract_series(graph, rk);

    let m = BookMetadata::new(
        title,
        subtitle,
        description,
        publisher,
        publication_date_millis,
        isbn,
        contributors,
        genres,
        series,
        page_count,
        language,
        image_url,
    );
    proof {
        assert(m@.contributors =~= contributors_model(graph@, root_key@));
        assert(m@.genres =~= genres_model(graph@, root_key@));
        assert(m@ == book_metadata_model(graph@, catalog_id@)->Some_0);
    }
    Ok(m)
}

/// Extracts the metadata record from the text of a detail page. A page
/// without the embedded data blob is a structural failure; an unparseable
/// blob is a serialization failure; an unresolvable graph root key or a
/// missing title is a structural failure; everything else degrades field by
/// field.
pub fn metadata_from_page(page: &str, catalog_id: &str) -> (r: Result<
    BookMetadata,
    ScraperError,
>)
    ensures
        match r {
            Ok(m) => {
                &&& embedded_payload(page@) is Some
                &&& parsed_graph(embedded_payload(page@)->Some_0) is Some
                &&& book_metadata_model(
                    parsed_graph(embedded_payload(page@)->Some_0)->Some_0,
                    catalog_id@,
                ) == Some(m@)
            },
            Err(e) => {
                &&& (embedded_payload(page@) is None ==> e is ScrapeError)
                &&& (embedded_payload(page@) is Some && parsed_graph(
                    embedded_payload(page@)->Some_0,
                ) is None ==> e is SerializeError)
                &&& (embedded_payload(page@) is Some && parsed_graph(
                    embedded_payload(page@)->Some_0,
                ) is Some ==> book_metadata_model(
                    parsed_graph(embedded_payload(page@)->Some_0)->Some_0,
                    catalog_id@,
                ) is None && e is ScrapeError)
            },
        },
{
    let payload = match embedded_next_data(page) {
        Some(t) => t,
        None => {
            return Err(
                ScraperError::ScrapeError("Failed to scrape book metadata".to_owned()),
            );
        },
    };
    let graph = match parse_json(payload.as_str()) {
        Ok(g) => g,
        Err(e) => {
            return Err(ScraperError::SerializeError(e));
        },
    };
    extract_metadata_fields(&graph, catalog_id)
}

} // verus!
