//! Resolution of a text query to a catalog ID through the search pages.
//!
//! A results page yields parallel sequences of title anchors and author
//! anchors; rows align index to index and truncate to the shorter sequence.
//! A row's link carries the catalog ID as the leading numeric run of its
//! fourth path segment.

use vstd::prelude::*;

use crate::errors::ScraperError;
use crate::json::{get_opt, node_get_opt, parse_json, parsed_graph, JsonNode};
use crate::page::{
    author_texts, embedded_next_data, embedded_payload, opt_attr, search_result_authors,
    search_result_title_rows, title_rows,
};
use crate::text::{
    before_char, chars_to_string, chars_vec, find_char, is_num, lemma_find_char, spec_matches,
};

verus! {

/// What percent-encoding a query yields; a function of the characters alone.
pub uninterp spec fn url_encoded(s: Seq<char>) -> Seq<char>;

/// Relies on urlencoding::encode: the percent-encoded form depends on the
/// characters alone.
#[verifier::external_body]
fn url_encode(s: &str) -> (r: String)
    ensures
        r@ == url_encoded(s@),
{
    urlencoding::encode(s).into_owned()
}

/// The URL of a search query.
pub open spec fn search_url_of(query: Seq<char>) -> Seq<char> {
    "https://www.goodreads.com/search?q="@ + url_encoded(query)
}

/// Builds the URL that searches the catalog for `query`.
pub fn search_url(query: &str) -> (r: String)
    ensures
        r@ == search_url_of(query@),
{
    let mut url = "https://www.goodreads.com/search?q=".to_owned();
    url.append(url_encode(query).as_str());
    url
}

/// The URL of the detail page of a catalog ID.
pub open spec fn detail_url_of(id: Seq<char>) -> Seq<char> {
    "https://www.goodreads.com/book/show/"@ + id
}

/// Builds the URL of the detail page for a catalog ID.
pub fn detail_url(catalog_id: &str) -> (r: String)
    ensures
        r@ == detail_url_of(catalog_id@),
{
    let mut url = "https://www.goodreads.com/book/show/".to_owned();
    url.append(catalog_id);
    url
}

/// What remains of `s` after its `n`-th occurrence of `c`, if `s` holds that
/// many.
pub open spec fn after_nth_sep(s: Seq<char>, c: char, n: nat) -> Option<Seq<char>>
    decreases n,
{
    if n == 0 {
        Some(s)
    } else {
        match find_char(s, c) {
            Some(i) => after_nth_sep(s.skip(i + 1), c, (n - 1) as nat),
            None => None,
        }
    }
}

/// The run of numeric characters at the head of `s`.
pub open spec fn numeric_prefix(s: Seq<char>) -> Seq<char>
    decreases s.len(),
{
    if s.len() > 0 && is_num(s[0]) {
        seq![s[0]] + numeric_prefix(s.drop_first())
    } else {
        Seq::empty()
    }
}

proof fn lemma_numeric_prefix_at(s: Seq<char>, k: int)
    requires
        0 <= k <= s.len(),
        forall|m: int| 0 <= m < k ==> is_num(s[m]),
        k == s.len() || !is_num(s[k]),
    ensures
        numeric_prefix(s) == s.take(k),
    decreases s.len(),
{
    if s.len() > 0 && is_num(s[0]) {
        assert(k >= 1) by {
            if k == 0 {
                assert(!is_num(s[0]));
            }
        }
        let t = s.drop_first();
        assert(forall|m: int| 0 <= m < k - 1 ==> is_num(#[trigger] t[m]));
        assert(k - 1 == t.len() || !is_num(t[k - 1]));
        lemma_numeric_prefix_at(t, k - 1);
        assert(seq![s[0]] + t.take(k - 1) =~= s.take(k));
    } else {
        assert(k == 0) by {
            if k > 0 {
                assert(is_num(s[0]));
            }
        }
        assert(s.take(0) =~= Seq::<char>::empty());
    }
}

/// The leading numeric run of the characters of `s`, as a string.
fn numeric_prefix_string(s: &str) -> (r: String)
    ensures
        r@ == numeric_prefix(s@),
{
    let v = chars_vec(s);
    let n = v.len();
    let mut out: Vec<char> = Vec::new();
    let mut k: usize = 0;
    while k < n && v[k].is_numeric()
        invariant
            n == v@.len(),
            k <= n,
            forall|m: int| 0 <= m < k ==> is_num(v@[m]),
            out@ == v@.take(k as int),
        decreases n - k,
    {
        out.push(v[k]);
        assert(out@ =~= v@.take(k + 1));
        k += 1;
    }
    proof {
        lemma_numeric_prefix_at(v@, k as int);
    }
    chars_to_string(&out)
}

/// Finds the first occurrence of `c` in `v` at or after `start`, stated over
/// the suffix beginning there.
fn find_from(v: &Vec<char>, start: usize, c: char) -> (r: Option<usize>)
    requires
        start <= v@.len(),
    ensures
        match r {
            Some(q) => start <= q < v@.len() && find_char(v@.skip(start as int), c) == Some(
                q - start,
            ),
            None => find_char(v@.skip(start as int), c) is None,
        },
{
    let ghost w = v@.skip(start as int);
    proof {
        lemma_find_char(w, c);
        assert(forall|j: int| 0 <= j < w.len() ==> w[j] == v@[start + j]);
    }
    let mut q: usize = start;
    while q < v.len()
        invariant
            start <= q <= v@.len(),
            w == v@.skip(start as int),
            forall|j: int| 0 <= j < w.len() ==> w[j] == v@[start + j],
            forall|j: int| start <= j < q ==> v@[j] != c,
            match find_char(w, c) {
                Some(i) => 0 <= i < w.len() && w[i] == c && forall|j: int|
                    0 <= j < i ==> w[j] != c,
                None => forall|j: int| 0 <= j < w.len() ==> w[j] != c,
            },
        decreases v@.len() - q,
    {
        if v[q] == c {
            proof {
                if find_char(w, c) is None {
                    assert(w[q - start] != c);
                }
                let i = find_char(w, c)->Some_0;
                if i < q - start {
                    assert(v@[start + i] != c);
                }
                if i > q - start {
                    assert(w[q - start] != c);
                }
            }
            return Some(q);
        }
        q += 1;
    }
    proof {
        if find_char(w, c) is Some {
            let i = find_char(w, c)->Some_0;
            assert(v@[start + i] != c);
        }
    }
    None
}

/// The catalog ID of a search-result link: the leading numeric run of the
/// fourth path segment, with any query string stripped; absent where the
/// link has fewer than four segments.
pub open spec fn link_id(url: Seq<char>) -> Option<Seq<char>> {
    match after_nth_sep(url, '/', 3) {
        Some(rest) => Some(numeric_prefix(before_char(rest, '?'))),
        None => None,
    }
}

/// Derives the catalog ID from a search-result link. A link with fewer than
/// four path segments is a structural failure: the page layout has changed.
pub fn extract_goodreads_id(url: &str) -> (r: Result<String, ScraperError>)
    ensures
        match r {
            Ok(id) => link_id(url@) == Some(id@),
            Err(e) => link_id(url@) is None && e is ScrapeError,
        },
{
    let v = chars_vec(url);
    let n = v.len();
    let ghost w0 = v@.skip(0);
    proof {
        reveal_with_fuel(after_nth_sep, 4);
        assert(n == v@.len());
        assert(w0 =~= v@);
        assert(after_nth_sep(v@, '/', 3) == after_nth_sep(w0, '/', 3));
    }
    let p1 = match find_from(&v, 0, '/') {
        Some(q) => q + 1,
        None => {
            return Err(
                ScraperError::ScrapeError("Failed to extract Goodreads ID".to_owned()),
            );
        },
    };
    proof {
        assert(w0.skip(p1 - 0) =~= v@.skip(p1 as int));
    }
    let p2 = match find_from(&v, p1, '/') {
        Some(q) => q + 1,
        None => {
            return Err(
                ScraperError::ScrapeError("Failed to extract Goodreads ID".to_owned()),
            );
        },
    };
    proof {
        assert(v@.skip(p1 as int).skip(p2 - p1) =~= v@.skip(p2 as int));
    }
    let p3 = match find_from(&v, p2, '/') {
        Some(q) => q + 1,
        None => {
            return Err(
                ScraperError::ScrapeError("Failed to extract Goodreads ID".to_owned()),
            );
        },
    };
    proof {
        assert(v@.skip(p2 as int).skip(p3 - p2) =~= v@.skip(p3 as int));
        assert(after_nth_sep(v@, '/', 3) == Some(v@.skip(p3 as int)));
    }
    let ghost rest = v@.skip(p3 as int);
    let e = match find_from(&v, p3, '?') {
        Some(q) => q,
        None => v.len(),
    };
    let mut seg: Vec<char> = Vec::new();
    let mut k: usize = p3;
    while k < e
        invariant
            p3 <= k <= e,
            e <= v@.len(),
            seg@ == v@.subrange(p3 as int, k as int),
        decreases e - k,
    {
        seg.push(v[k]);
        assert(seg@ =~= v@.subrange(p3 as int, k + 1));
        k += 1;
    }
    proof {
        assert(rest.take(e - p3) =~= v@.subrange(p3 as int, e as int));
        assert(seg@ == before_char(rest, '?'));
    }
    let seg_str = chars_to_string(&seg);
    Ok(numeric_prefix_string(seg_str.as_str()))
}

/// How many aligned rows a results page yields: title and author sequences
/// truncate to the shorter one.
pub open spec fn row_count(html: Seq<char>) -> int {
    if title_rows(html).len() <= author_texts(html).len() {
        title_rows(html).len() as int
    } else {
        author_texts(html).len() as int
    }
}

/// Whether every aligned row carries a link with a well-formed catalog ID.
pub open spec fn rows_ok(html: Seq<char>) -> bool {
    forall|i: int|
        0 <= i < row_count(html) ==> (#[trigger] title_rows(html)[i]).1 is Some && link_id(
            title_rows(html)[i].1->Some_0,
        ) is Some
}

/// The title, author and catalog ID of row `i` of a results page.
pub open spec fn row_model(html: Seq<char>, i: int) -> (Seq<char>, Seq<char>, Seq<char>) {
    (
        title_rows(html)[i].0,
        author_texts(html)[i],
        link_id(title_rows(html)[i].1->Some_0)->Some_0,
    )
}

/// One parsed search-result row.
#[derive(Debug)]
pub struct SearchRow {
    /// The text of the row's title anchor.
    pub title: String,
    /// The text of the row's author anchor.
    pub author: String,
    /// The catalog ID derived from the row's link.
    pub id: String,
}

/// Parses the aligned rows of a results page. A row whose link is missing
/// or malformed is a structural failure for the whole query.
pub fn collect_search_rows(html: &str) -> (r: Result<Vec<SearchRow>, ScraperError>)
    ensures
        match r {
            Ok(rows) => {
                &&& rows_ok(html@)
                &&& rows@.len() == row_count(html@)
                &&& forall|i: int|
                    0 <= i < rows@.len() ==> ((#[trigger] rows@[i]).title@, rows@[i].author@, rows@[i].id@)
                        == row_model(html@, i)
            },
            Err(e) => !rows_ok(html@) && e is ScrapeError,
        },
{
    let titles = search_result_title_rows(html);
    let authors = search_result_authors(html);
    let n = if titles.len() <= authors.len() {
        titles.len()
    } else {
        authors.len()
    };
    assert(n == row_count(html@));
    let mut rows: Vec<SearchRow> = Vec::new();
    let mut i: usize = 0;
    while i < n
        invariant
            titles@.len() == title_rows(html@).len(),
            forall|j: int|
                0 <= j < titles@.len() ==> #[trigger] title_rows(html@)[j] == (
                titles@[j].0@,
                opt_attr(titles@[j].1),
                ),
            authors@.len() == author_texts(html@).len(),
            forall|j: int| 0 <= j < authors@.len() ==> #[trigger] author_texts(html@)[j] == authors@[j]@,
            n == row_count(html@),
            n <= titles@.len() && n <= authors@.len(),
            i <= n,
            rows@.len() == i,
            forall|j: int|
                0 <= j < i ==> (#[trigger] title_rows(html@)[j]).1 is Some && link_id(
                    title_rows(html@)[j].1->Some_0,
                ) is Some,
            forall|j: int|
                0 <= j < i ==> ((#[trigger] rows@[j]).title@, rows@[j].author@, rows@[j].id@)
                    == row_model(html@, j),
        decreases n - i,
    {
        let row = &titles[i];
        let title = row.0.clone();
        let href = match &row.1 {
            Some(h) => h,
            None => {
                proof {
                    assert(!(title_rows(html@)[i as int].1 is Some));
                    assert(!rows_ok(html@));
                }
                return Err(
                    ScraperError::ScrapeError(
                        "Failed to extract link from search result".to_owned(),
                    ),
                );
            },
        };
        let id = match extract_goodreads_id(href.as_str()) {
            Ok(id) => id,
            Err(e) => {
                proof {
                    assert(title_rows(html@)[i as int].1 == Some(href@));
                    assert(link_id(title_rows(html@)[i as int].1->Some_0) is None);
                    assert(!rows_ok(html@));
                }
                return Err(e);
            },
        };
        let author_ref = &authors[i];
        let author = author_ref.clone();
        proof {
            assert(title@ == row_model(html@, i as int).0);
            assert(author@ == row_model(html@, i as int).1);
            assert(id@ == row_model(html@, i as int).2);
        }
        rows.push(SearchRow { title, author, id });
        i += 1;
    }
    Ok(rows)
}

/// The author constraint of a query: absent for a title-only search.
pub open spec fn opt_query(a: Option<&str>) -> Option<Seq<char>> {
    match a {
        Some(x) => Some(x@),
        None => None,
    }
}

/// Whether row `i` of the page satisfies the query: its title matches the
/// queried title, and, where an author is given, its author matches too.
pub open spec fn row_matches(
    html: Seq<char>,
    i: int,
    title: Seq<char>,
    author: Option<Seq<char>>,
) -> bool {
    spec_matches(row_model(html, i).0, title) && match author {
        Some(a) => spec_matches(row_model(html, i).1, a),
        None => true,
    }
}

/// The catalog ID of the first matching row at or after `i`.
pub open spec fn found_id_from(
    html: Seq<char>,
    title: Seq<char>,
    author: Option<Seq<char>>,
    i: int,
) -> Option<Seq<char>>
    decreases row_count(html) - i,
{
    if i < 0 || i >= row_count(html) {
        None
    } else if row_matches(html, i, title, author) {
        Some(row_model(html, i).2)
    } else {
        found_id_from(html, title, author, i + 1)
    }
}

/// The catalog ID of the first row of the page that matches the query.
pub open spec fn found_id(html: Seq<char>, title: Seq<char>, author: Option<Seq<char>>) -> Option<
    Seq<char>,
> {
    found_id_from(html, title, author, 0)
}

/// Scans the rows of a results page in page order and resolves the first
/// one that matches the query; a page where none matches is a legitimate
/// empty outcome, not an error.
pub fn find_matching_id(html: &str, title: &str, author: Option<&str>) -> (r: Result<
    Option<String>,
    ScraperError,
>)
    ensures
        match r {
            Ok(found) => {
                &&& rows_ok(html@)
                &&& match found {
                    Some(id) => found_id(html@, title@, opt_query(author)) == Some(id@),
                    None => found_id(html@, title@, opt_query(author)) is None,
                }
            },
            Err(e) => !rows_ok(html@) && e is ScrapeError,
        },
{
    let rows = match collect_search_rows(html) {
        Ok(rows) => rows,
        Err(e) => {
            return Err(e);
        },
    };
    let ghost a = opt_query(author);
    let mut i: usize = 0;
    while i < rows.len()
        invariant
            a == opt_query(author),
            rows_ok(html@),
            rows@.len() == row_count(html@),
            forall|j: int|
                0 <= j < rows@.len() ==> ((#[trigger] rows@[j]).title@, rows@[j].author@, rows@[j].id@)
                    == row_model(html@, j),
            i <= rows@.len(),
            found_id(html@, title@, a) == found_id_from(html@, title@, a, i as int),
        decreases rows@.len() - i,
    {
        let row = &rows[i];
        let title_hit = crate::text::matches(row.title.as_str(), title);
        let hit = title_hit && match author {
            Some(q) => crate::text::matches(row.author.as_str(), q),
            None => true,
        };
        if hit {
            proof {
                assert(row_matches(html@, i as int, title@, a));
            }
            return Ok(Some(row.id.clone()));
        }
        proof {
            assert(!row_matches(html@, i as int, title@, a));
        }
        i += 1;
    }
    Ok(None)
}

/// The catalog ID parameter of an ISBN search page's embedded document:
/// the leading numeric run of the book ID the page resolved to.
pub open spec fn isbn_book_id(g: JsonNode) -> Option<Seq<char>> {
    match node_get_opt(
        node_get_opt(
            node_get_opt(node_get_opt(Some(g), "props"@), "pageProps"@),
            "params"@,
        ),
        "book_id"@,
    ) {
        Some(JsonNode::Str(s)) => Some(numeric_prefix(s)),
        _ => None,
    }
}

/// Resolves an ISBN search page to its single catalog ID. The page carries
/// the resolved ID as a parameter of its embedded document; a page without
/// the document is a legitimate empty outcome.
pub fn isbn_id_from_page(html: &str) -> (r: Result<Option<String>, ScraperError>)
    ensures
        match r {
            Ok(found) => match embedded_payload(html@) {
                None => found is None,
                Some(txt) => {
                    &&& parsed_graph(txt) is Some
                    &&& found is Some
                    &&& isbn_book_id(parsed_graph(txt)->Some_0) == Some(found->Some_0@)
                },
            },
            Err(e) => {
                &&& embedded_payload(html@) is Some
                &&& (parsed_graph(embedded_payload(html@)->Some_0) is None ==> e
                    is SerializeError)
                &&& (parsed_graph(embedded_payload(html@)->Some_0) is Some ==> isbn_book_id(
                    parsed_graph(embedded_payload(html@)->Some_0)->Some_0,
                ) is None && e is ScrapeError)
            },
        },
{
    let payload = match embedded_next_data(html) {
        Some(t) => t,
        None => {
            return Ok(None);
        },
    };
    let graph = match parse_json(payload.as_str()) {
        Ok(g) => g,
        Err(e) => {
            return Err(ScraperError::SerializeError(e));
        },
    };
    let node = get_opt(
        get_opt(get_opt(get_opt(Some(&graph), "props"), "pageProps"), "params"),
        "book_id",
    );
    match node {
        Some(v) => match v.as_str() {
            Some(s) => Ok(Some(numeric_prefix_string(s.as_str()))),
            None => Err(
                ScraperError::ScrapeError(
                    "Failed to extract Goodreads ID from ISBN search results".to_owned(),
                ),
            ),
        },
        None => Err(
            ScraperError::ScrapeError(
                "Failed to extract Goodreads ID from ISBN search results".to_owned(),
            ),
        ),
    }
}

/// The search queries of a strategy, in the order they are tried: the title
/// alone; then, where an author is given, the title and author combined as
/// one query.
pub fn plan_queries(title: &str, author: Option<&str>) -> (r: Vec<String>)
    ensures
        match author {
            None => r@.len() == 1 && r@[0]@ == title@,
            Some(a) => r@.len() == 2 && r@[0]@ == title@ && r@[1]@ == title@ + " "@ + a@,
        },
{
    let mut queries: Vec<String> = Vec::new();
    queries.push(title.to_owned());
    match author {
        Some(a) => {
            let mut combined = title.to_owned();
            combined.append(" ");
            combined.append(a);
            queries.push(combined);
        },
        None => {},
    }
    queries
}

} // verus!
