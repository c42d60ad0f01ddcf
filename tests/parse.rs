use scholar::paper::Paper;
use scholar::parse::{parse_citation_count, parse_cluster_id, parse_year};

#[test]
fn parse_year_pass() {
    assert_eq!(parse_year("foo - journal, 2000 - bar").unwrap(), 2000);
    assert_eq!(parse_year("foo bar - 1999 - baz, qrux").unwrap(), 1999);
    assert_eq!(parse_year("foo - journal, 1998").unwrap(), 1998);
    assert_eq!(parse_year("foo - 1899").unwrap(), 1899);
    assert_eq!(parse_year(" - journal, 1898").unwrap(), 1898);
    assert_eq!(parse_year(" - 1800").unwrap(), 1800);
}

#[test]
fn parse_year_fail() {
    assert!(parse_year("foo - journal - bar").is_err());
    assert!(parse_year("foo - journal").is_err());
    assert!(parse_year("- journal, 1898").is_err());
    assert!(parse_year("- 1800").is_err());
}

#[test]
fn parse_year_with_non_breaking_spaces() {
    assert_eq!(parse_year("A Author\u{a0}- Physical review, 1959\u{a0}- APS").unwrap(), 1959);
    assert!(parse_year("1999 - no year after the separator").is_err());
    assert!(parse_year("foo - 1700").is_err());
    assert!(parse_year("foo - 2100").is_err());
}

#[test]
fn parse_cluster_id_pass() {
    assert_eq!(parse_cluster_id("cluster=123456").unwrap(), 123456);
    assert_eq!(parse_cluster_id("scholar?cluster=654321").unwrap(), 654321);
    assert_eq!(parse_cluster_id("scholar?cluster=222222&foo=bar").unwrap(), 222222);
}

#[test]
fn parse_cluster_id_fail() {
    assert!(parse_cluster_id("foo").is_err());
    assert!(parse_cluster_id("claster=000000").is_err());
    assert!(parse_cluster_id("cluster=aaaaaa").is_err());
}

#[test]
fn parse_cluster_id_more_cases() {
    assert_eq!(parse_cluster_id("/scholar?cites=42&as_sdt=2005").unwrap(), 42);
    assert_eq!(parse_cluster_id("cluster=x&cites=7").unwrap(), 7);
    assert_eq!(parse_cluster_id("cites=18446744073709551615").unwrap(), u64::MAX);
    assert!(parse_cluster_id("cites=18446744073709551616").is_err());
}

#[test]
fn parse_citation_count_pass() {
    assert_eq!(parse_citation_count("Cited by 111").unwrap(), 111);
    assert_eq!(parse_citation_count("引用元 222").unwrap(), 222);
}

#[test]
fn parse_citation_count_fail() {
    assert!(parse_citation_count("foo").is_err());
}

#[test]
fn parse_citation_count_takes_first_run() {
    assert_eq!(parse_citation_count("All 5 versions of 12").unwrap(), 5);
    assert_eq!(parse_citation_count("42").unwrap(), 42);
    assert!(parse_citation_count("Cited by 99999999999").is_err());
}

#[test]
fn citation_url_round_trip() {
    for id in [0u64, 7, 42, 999, 5545735591029960915, u64::MAX] {
        let url = Paper::cluster_id_to_citation_url(id);
        assert_eq!(url, format!("https://scholar.google.com/scholar?cites={}", id));
        assert_eq!(parse_cluster_id(&url).unwrap(), id);
    }
}

#[test]
fn paper_new_derives_citation_url() {
    let paper = Paper::new("foo", 42);
    assert_eq!(
        paper,
        Paper {
            title: String::from("foo"),
            link: None,
            cluster_id: 42,
            year: None,
            citation_count: None,
            citers: None,
            citers_truncated: false,
            citation_url: format!("https://scholar.google.com/scholar?cites={}", 42),
        }
    );
    let mut p = paper.clone();
    p.citers = Some(vec![Paper::new("bar", 1)]);
    assert_eq!(p.clone(), p);
}
