use scholar::error::ScholarError;
use scholar::paper::SCHOLAR_URL_BASE;
use scholar::request::{CitationQuery, ClusterQuery, Query, SearchQuery, DEFAULT_MAX_RESULT_COUNT};

#[test]
fn search_query_to_url() {
    let mut q = SearchQuery::default();

    const TEST_COUNT: u32 = DEFAULT_MAX_RESULT_COUNT + 1;
    q.set_count(TEST_COUNT);
    q.set_phrase("quantum theory");
    q.set_authors("albert einstein");
    q.set_title_only(true);

    assert_eq!(
        q.to_url().unwrap(),
        format!(
            "{}?\
             as_q=%22quantum%20theory%22\
             &as_epq=\
             &as_eq=\
             &as_occt=title\
             &as_sauthors=albert%20einstein\
             &as_publication=\
             &as_ylo=\
             &as_yhi=\
             &as_vis=0\
             &btnG=\
             &hl=en\
             &num={}\
             &as_sdt=0%2C5",
            SCHOLAR_URL_BASE, TEST_COUNT
        )
    );
}

#[test]
fn search_query_is_valid_pass() {
    {
        let mut q = SearchQuery::default();

        q.set_words("foo");
        assert!(q.is_valid());
    }

    {
        let mut q = SearchQuery::default();

        q.set_authors("foo");
        assert!(q.is_valid());
    }
}

#[test]
fn search_query_is_valid_fail() {
    let q = SearchQuery::default();
    assert!(!q.is_valid());
}

#[test]
fn citation_query_to_url() {
    let mut q = CitationQuery::new(&format!("{}?cites=0", SCHOLAR_URL_BASE));

    assert_eq!(
        q.to_url().unwrap(),
        format!("{}?cites=0&hl=en&num={}", SCHOLAR_URL_BASE, DEFAULT_MAX_RESULT_COUNT)
    );

    const TEST_COUNT: u32 = DEFAULT_MAX_RESULT_COUNT + 1;
    q.set_count(TEST_COUNT);

    assert_eq!(
        q.to_url().unwrap(),
        format!("{}?cites=0&hl=en&num={}", SCHOLAR_URL_BASE, TEST_COUNT)
    );
}

#[test]
fn cluster_query_to_url() {
    const TEST_CLUSTER_ID: u64 = 999;
    let q = ClusterQuery::new(TEST_CLUSTER_ID);

    assert_eq!(
        q.to_url().unwrap(),
        format!("{}?cluster={}", SCHOLAR_URL_BASE, TEST_CLUSTER_ID)
    );
}

#[test]
fn search_count_is_clamped_into_range() {
    let mut q = SearchQuery::default();
    assert_eq!(q.get_count(), 5);
    q.set_count(2);
    assert_eq!(q.get_count(), 2);
    q.set_count(11);
    assert_eq!(q.get_count(), 10);
    q.set_count(0);
    assert_eq!(q.get_count(), 1);
    q.set_words("x");
    q.set_count(1000);
    assert!(q.to_url().unwrap().contains("&num=10&"));
}

#[test]
fn citation_count_is_clamped_into_range() {
    let mut q = CitationQuery::new("https://example.com?cites=1");
    q.set_count(2);
    assert_eq!(q.get_count(), 2);
    q.set_count(11);
    assert_eq!(q.get_count(), 10);
    assert_eq!(q.to_url().unwrap(), "https://example.com?cites=1&hl=en&num=10");
}

#[test]
fn empty_search_is_invalid_query() {
    let mut q = SearchQuery::default();
    q.set_title_only(true);
    q.set_count(3);
    assert_eq!(q.to_url(), Err(ScholarError::InvalidQuery));
}

#[test]
fn search_by_authors_alone_has_url() {
    let mut q = SearchQuery::default();
    q.set_authors("noether");
    assert_eq!(
        q.to_url().unwrap(),
        "https://scholar.google.com/scholar?as_q=&as_epq=&as_eq=&as_occt=any\
         &as_sauthors=noether&as_publication=&as_ylo=&as_yhi=&as_vis=0&btnG=&hl=en\
         &num=5&as_sdt=0%2C5"
    );
}

#[test]
fn search_terms_are_percent_encoded() {
    let mut q = SearchQuery::default();
    q.set_words("C# <x> 'é'");
    let url = q.to_url().unwrap();
    assert!(url.contains("as_q=C%23%20%3Cx%3E%20%27%C3%A9%27&"));
}

#[test]
fn words_and_phrases_accumulate() {
    let mut q = SearchQuery::default();
    assert!(q.get_words().is_none());
    q.append_words("foo");
    assert_eq!(q.get_words(), &Some(String::from("foo")));
    q.append_words("bar");
    assert_eq!(q.get_words(), &Some(String::from("foo bar")));
    q.set_words("baz");
    assert_eq!(q.get_words(), &Some(String::from("baz")));
    q.set_phrase("foo bar");
    assert_eq!(q.get_words(), &Some(String::from(r#""foo bar""#)));
    q.append_phrase("baz qux");
    assert_eq!(q.get_words(), &Some(String::from(r#""foo bar" "baz qux""#)));
}

#[test]
fn authors_accumulate() {
    let mut q = SearchQuery::default();
    q.append_authors("albert");
    assert_eq!(q.get_authors(), &Some(String::from("albert")));
    q.append_authors("einstein");
    assert_eq!(q.get_authors(), &Some(String::from("albert einstein")));
    q.set_authors("noether");
    assert_eq!(q.get_authors(), &Some(String::from("noether")));
    assert!(!q.get_title_only());
    q.set_title_only(true);
    assert!(q.get_title_only());
}

#[test]
fn citation_parameters_go_before_fragment() {
    let q = CitationQuery::new("https://example.com/scholar?cites=9#top");
    assert_eq!(q.to_url().unwrap(), "https://example.com/scholar?cites=9&hl=en&num=5#top");
}

#[test]
fn search_query_text_is_unencoded() {
    let mut q = SearchQuery::default();
    q.set_phrase("a b");
    assert_eq!(
        q.query_text(),
        "as_q=\"a b\"&as_epq=&as_eq=&as_occt=any&as_sauthors=&as_publication=&as_ylo=\
         &as_yhi=&as_vis=0&btnG=&hl=en&num=5&as_sdt=0%2C5"
    );
}
