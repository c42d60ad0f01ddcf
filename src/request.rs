//! Queries to the search engine and the URLs they are sent as.
use vstd::prelude::*;
use crate::error::ScholarError;
use crate::paper::{base_url, SCHOLAR_URL_BASE};
use crate::text::{chars_of, decimal, push_char, push_decimal};

verus! {

/// Number of results asked for when the caller does not say.
pub const DEFAULT_MAX_RESULT_COUNT: u32 = 5;

/// The largest number of results one page can hold.
pub const MAX_PAGE_RESULTS: u32 = 10;

/// `n` brought into `1..=MAX_PAGE_RESULTS`.
pub open spec fn clamp_count(n: u32) -> u32 {
    if n < 1 {
        1
    } else if n > MAX_PAGE_RESULTS {
        MAX_PAGE_RESULTS
    } else {
        n
    }
}

// ---------------------------------------------------------------- URLs

/// The URL `base` with its query set to `query`, percent-encoded and
/// serialized as URLs are.
pub uninterp spec fn url_with_query(base: Seq<char>, query: Seq<char>) -> Seq<char>;

/// Relies on `reqwest::Url` (the `url` crate): `Url::parse` of the search
/// engine's base URL, which is a valid absolute URL, then `Url::set_query`,
/// which encodes the query, and the serialization into a `String`.
#[verifier::external_body]
fn url_with_query_string(base: &str, query: &str) -> (r: String)
    requires
        base@ == base_url(),
    ensures
        r@ == url_with_query(base@, query@),
{
    let mut url = reqwest::Url::parse(base).unwrap();
    url.set_query(Some(query));
    url.into()
}

fn base_url_string() -> (r: &'static str)
    ensures
        r@ == base_url(),
{
    proof {
        reveal_strlit("https://scholar.google.com/scholar");
    }
    SCHOLAR_URL_BASE
}

// ---------------------------------------------------------------- queries

/// Something that can be sent to the search engine as a URL.
pub trait Query {
    /// The URL of the query, or why there is none.
    spec fn url_spec(&self) -> Result<Seq<char>, ScholarError>;

    /// The URL to send the query as.
    fn to_url(&self) -> (r: Result<String, ScholarError>)
        ensures
            match r {
                Ok(u) => self.url_spec() == Ok::<Seq<char>, ScholarError>(u@),
                Err(e) => self.url_spec() == Err::<Seq<char>, ScholarError>(e),
            },
    ;
}

pub open spec fn opt_text(s: Option<Seq<char>>) -> Seq<char> {
    match s {
        Some(t) => t,
        None => Seq::empty(),
    }
}

/// A search for papers, as a mathematical value.
pub struct SearchQueryView {
    pub max_result_count: u32,
    pub words: Option<Seq<char>>,
    pub authors: Option<Seq<char>>,
    pub title_only: bool,
}

/// The query of a search: free-text terms, scope (`title` or `any`),
/// authors and the number of results, in the order the search engine
/// expects.
pub open spec fn search_query_text(q: SearchQueryView) -> Seq<char> {
    "as_q="@ + opt_text(q.words) + "&as_epq=&as_eq=&as_occt="@ + (if q.title_only {
        "title"@
    } else {
        "any"@
    }) + "&as_sauthors="@ + opt_text(q.authors)
        + "&as_publication=&as_ylo=&as_yhi=&as_vis=0&btnG=&hl=en&num="@ + decimal(
        q.max_result_count as nat,
    ) + "&as_sdt=0%2C5"@
}

/// The search URL.
pub open spec fn search_url(q: SearchQueryView) -> Seq<char> {
    url_with_query(base_url(), search_query_text(q))
}

/// Query to search for papers.
pub struct SearchQuery {
    max_result_count: u32,
    words: Option<String>,
    authors: Option<String>,
    title_only: bool,
}

pub open spec fn opt_string_view(s: Option<String>) -> Option<Seq<char>> {
    match s {
        Some(t) => Some(t@),
        None => None,
    }
}

/// `s` followed by one space and `more`, or `more` alone.
pub open spec fn appended(s: Option<Seq<char>>, more: Seq<char>) -> Seq<char> {
    match s {
        Some(t) => t + " "@ + more,
        None => more,
    }
}

pub open spec fn quoted(s: Seq<char>) -> Seq<char> {
    "\""@ + s + "\""@
}

impl View for SearchQuery {
    type V = SearchQueryView;

    closed spec fn view(&self) -> SearchQueryView {
        SearchQueryView {
            max_result_count: self.max_result_count,
            words: opt_string_view(self.words),
            authors: opt_string_view(self.authors),
            title_only: self.title_only,
        }
    }
}

impl Default for SearchQuery {
    /// A search for nothing yet, asking for five results over whole texts.
    fn default() -> (r: SearchQuery)
        ensures
            r@ == (SearchQueryView {
                max_result_count: DEFAULT_MAX_RESULT_COUNT,
                words: None,
                authors: None,
                title_only: false,
            }),
    {
        SearchQuery {
            max_result_count: DEFAULT_MAX_RESULT_COUNT,
            words: None,
            authors: None,
            title_only: false,
        }
    }
}

fn concat_with_space(cur: &Option<String>, more: &str) -> (r: String)
    ensures
        r@ == appended(opt_string_view(*cur), more@),
{
    match cur {
        Some(w) => {
            let mut n = w.clone();
            n.append(" ");
            n.append(more);
            n
        },
        None => more.to_owned(),
    }
}

fn quote(s: &str) -> (r: String)
    ensures
        r@ == quoted(s@),
{
    let mut q = String::from_str("\"");
    q.append(s);
    q.append("\"");
    q
}

impl SearchQuery {
    /// Every search made through this API asks for between one and
    /// `MAX_PAGE_RESULTS` results.
    pub open spec fn wf(&self) -> bool {
        1 <= self@.max_result_count <= MAX_PAGE_RESULTS
    }

    /// Sets the number of results; it is brought into `1..=10`.
    pub fn set_count(&mut self, max_result_count: u32)
        ensures
            final(self)@ == (SearchQueryView {
                max_result_count: clamp_count(max_result_count),
                ..old(self)@
            }),
    {
        self.max_result_count = if max_result_count < 1 {
            1
        } else if max_result_count > MAX_PAGE_RESULTS {
            MAX_PAGE_RESULTS
        } else {
            max_result_count
        };
    }

    pub fn get_count(&self) -> (r: u32)
        ensures
            r == self@.max_result_count,
    {
        self.max_result_count
    }

    /// Sets the free-text terms, replacing earlier words or phrases.
    pub fn set_words(&mut self, words: &str)
        ensures
            final(self)@ == (SearchQueryView { words: Some(words@), ..old(self)@ }),
    {
        self.words = Some(words.to_owned());
    }

    /// Adds free-text terms after those set so far, with one space between.
    pub fn append_words(&mut self, words: &str)
        ensures
            final(self)@ == (SearchQueryView {
                words: Some(appended(old(self)@.words, words@)),
                ..old(self)@
            }),
    {
        let w = concat_with_space(&self.words, words);
        self.words = Some(w);
    }

    pub fn get_words(&self) -> (r: &Option<String>)
        ensures
            opt_string_view(*r) == self@.words,
    {
        &self.words
    }

    /// Sets an exact phrase, replacing earlier words or phrases.
    pub fn set_phrase(&mut self, phrase: &str)
        ensures
            final(self)@ == (SearchQueryView { words: Some(quoted(phrase@)), ..old(self)@ }),
    {
        let q = quote(phrase);
        self.set_words(&q);
    }

    /// Adds an exact phrase after the words set so far, with one space between.
    pub fn append_phrase(&mut self, phrase: &str)
        ensures
            final(self)@ == (SearchQueryView {
                words: Some(appended(old(self)@.words, quoted(phrase@))),
                ..old(self)@
            }),
    {
        let q = quote(phrase);
        self.append_words(&q);
    }

    /// Sets the authors, replacing earlier ones.
    pub fn set_authors(&mut self, authors: &str)
        ensures
            final(self)@ == (SearchQueryView { authors: Some(authors@), ..old(self)@ }),
    {
        self.authors = Some(authors.to_owned());
    }

    /// Adds authors after those set so far, with one space between.
    pub fn append_authors(&mut self, authors: &str)
        ensures
            final(self)@ == (SearchQueryView {
                authors: Some(appended(old(self)@.authors, authors@)),
                ..old(self)@
            }),
    {
        let a = concat_with_space(&self.authors, authors);
        self.authors = Some(a);
    }

    pub fn get_authors(&self) -> (r: &Option<String>)
        ensures
            opt_string_view(*r) == self@.authors,
    {
        &self.authors
    }

    /// Restricts the search to titles, or lifts that restriction.
    pub fn set_title_only(&mut self, title_only: bool)
        ensures
            final(self)@ == (SearchQueryView { title_only, ..old(self)@ }),
    {
        self.title_only = title_only;
    }

    pub fn get_title_only(&self) -> (r: bool)
        ensures
            r == self@.title_only,
    {
        self.title_only
    }

    /// A search needs words or authors.
    pub fn is_valid(&self) -> (r: bool)
        ensures
            r == (self@.words is Some || self@.authors is Some),
    {
        self.words.is_some() || self.authors.is_some()
    }
}

impl Query for SearchQuery {
    open spec fn url_spec(&self) -> Result<Seq<char>, ScholarError> {
        if self@.words is Some || self@.authors is Some {
            Ok(search_url(self@))
        } else {
            Err(ScholarError::InvalidQuery)
        }
    }

    fn to_url(&self) -> (r: Result<String, ScholarError>) {
        if !self.is_valid() {
            return Err(ScholarError::InvalidQuery);
        }
        let query = self.query_text();
        Ok(url_with_query_string(base_url_string(), query.as_str()))
    }
}

impl SearchQuery {
    /// The query part of the search URL, before percent-encoding.
    pub fn query_text(&self) -> (r: String)
        ensures
            r@ == search_query_text(self@),
    {
        let mut q = String::from_str("as_q=");
        match &self.words {
            Some(w) => q.append(w.as_str()),
            None => {},
        }
        q.append("&as_epq=&as_eq=&as_occt=");
        q.append(if self.title_only { "title" } else { "any" });
        q.append("&as_sauthors=");
        match &self.authors {
            Some(a) => q.append(a.as_str()),
            None => {},
        }
        q.append("&as_publication=&as_ylo=&as_yhi=&as_vis=0&btnG=&hl=en&num=");
        push_decimal(&mut q, self.max_result_count as u64);
        q.append("&as_sdt=0%2C5");
        q
    }
}

/// Query for the papers that cite a paper, given the URL of its citation list.
pub struct CitationQuery {
    citation_url: String,
    max_result_count: u32,
}

/// A citation query as a mathematical value.
pub struct CitationQueryView {
    pub citation_url: Seq<char>,
    pub max_result_count: u32,
}

/// Where the fragment of URL `s` starts, at or after `i`: its first `#`,
/// or the end when there is none.
pub open spec fn fragment_start(s: Seq<char>, i: int) -> int
    decreases s.len() - i,
{
    if i < 0 || i >= s.len() {
        s.len() as int
    } else if s[i] == '#' {
        i
    } else {
        fragment_start(s, i + 1)
    }
}

/// The citation list URL with language and number of results appended to
/// its query, before any fragment.
pub open spec fn citation_list_url(q: CitationQueryView) -> Seq<char> {
    let k = fragment_start(q.citation_url, 0);
    q.citation_url.take(k) + "&hl=en&num="@ + decimal(q.max_result_count as nat)
        + q.citation_url.skip(k)
}

impl View for CitationQuery {
    type V = CitationQueryView;

    closed spec fn view(&self) -> CitationQueryView {
        CitationQueryView {
            citation_url: self.citation_url@,
            max_result_count: self.max_result_count,
        }
    }
}

impl CitationQuery {
    /// A query for the list at `citation_url`, asking for five results.
    pub fn new(citation_url: &str) -> (r: CitationQuery)
        ensures
            r@ == (CitationQueryView {
                citation_url: citation_url@,
                max_result_count: DEFAULT_MAX_RESULT_COUNT,
            }),
    {
        CitationQuery {
            citation_url: citation_url.to_owned(),
            max_result_count: DEFAULT_MAX_RESULT_COUNT,
        }
    }

    /// Sets the number of results; it is brought into `1..=10`.
    pub fn set_count(&mut self, max_result_count: u32)
        ensures
            final(self)@ == (CitationQueryView {
                max_result_count: clamp_count(max_result_count),
                ..old(self)@
            }),
    {
        self.max_result_count = if max_result_count < 1 {
            1
        } else if max_result_count > MAX_PAGE_RESULTS {
            MAX_PAGE_RESULTS
        } else {
            max_result_count
        };
    }

    pub fn get_count(&self) -> (r: u32)
        ensures
            r == self@.max_result_count,
    {
        self.max_result_count
    }
}

impl Query for CitationQuery {
    open spec fn url_spec(&self) -> Result<Seq<char>, ScholarError> {
        Ok(citation_list_url(self@))
    }

    fn to_url(&self) -> (r: Result<String, ScholarError>) {
        let c = chars_of(self.citation_url.as_str());
        let ghost s = self.citation_url@;
        let mut k: usize = 0;
        while k < c.len() && c[k] != '#'
            invariant
                c@ == s,
                k <= c.len(),
                fragment_start(s, 0) == fragment_start(s, k as int),
            decreases c.len() - k,
        {
            k = k + 1;
        }
        let mut url = String::new();
        let mut i: usize = 0;
        while i < k
            invariant
                c@ == s,
                i <= k <= c.len(),
                url@ == s.take(i as int),
            decreases k - i,
        {
            assert(s.take(i + 1) == s.take(i as int).push(c@[i as int]));
            push_char(&mut url, c[i]);
            i = i + 1;
        }
        url.append("&hl=en&num=");
        push_decimal(&mut url, self.max_result_count as u64);
        let ghost mid = url@;
        let mut j: usize = k;
        while j < c.len()
            invariant
                c@ == s,
                k <= j <= c.len(),
                url@ == mid + s.subrange(k as int, j as int),
            decreases c.len() - j,
        {
            assert(s.subrange(k as int, j + 1) == s.subrange(k as int, j as int).push(c@[j as int]));
            push_char(&mut url, c[j]);
            j = j + 1;
        }
        assert(s.subrange(k as int, c.len() as int) == s.skip(k as int));
        Ok(url)
    }
}

/// Query for the paper with a given cluster id.
pub struct ClusterQuery {
    cluster_id: u64,
}

/// The page of the cluster `id`.
pub open spec fn cluster_url(id: u64) -> Seq<char> {
    url_with_query(base_url(), "cluster="@ + decimal(id as nat))
}

impl View for ClusterQuery {
    type V = u64;

    closed spec fn view(&self) -> u64 {
        self.cluster_id
    }
}

impl ClusterQuery {
    pub fn new(cluster_id: u64) -> (r: ClusterQuery)
        ensures
            r@ == cluster_id,
    {
        ClusterQuery { cluster_id }
    }
}

impl Query for ClusterQuery {
    open spec fn url_spec(&self) -> Result<Seq<char>, ScholarError> {
        Ok(cluster_url(self@))
    }

    fn to_url(&self) -> (r: Result<String, ScholarError>) {
        let mut q = String::from_str("cluster=");
        push_decimal(&mut q, self.cluster_id);
        Ok(url_with_query_string(base_url_string(), q.as_str()))
    }
}

/// A search that names words or authors is always turned into a URL, and
/// the number of results its query asks for is between one and
/// `MAX_PAGE_RESULTS`, however many were requested.
pub proof fn lemma_valid_search_has_url(q: SearchQuery)
    requires
        q.wf(),
        q@.words is Some || q@.authors is Some,
    ensures
        q.url_spec() == Ok::<Seq<char>, ScholarError>(search_url(q@)),
        search_url(q@) == url_with_query(base_url(), search_query_text(q@)),
        1 <= q@.max_result_count <= MAX_PAGE_RESULTS,
{
}

/// A search that names neither words nor authors is refused.
pub proof fn lemma_empty_search_refused(q: SearchQuery)
    requires
        q@.words is None,
        q@.authors is None,
    ensures
        q.url_spec() == Err::<Seq<char>, ScholarError>(ScholarError::InvalidQuery),
{
}

} // verus!
