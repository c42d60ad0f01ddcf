use scholar::crawl::{attach_citers, citation_page_outcome, recursive_search, recursive_search_all, Config, CrawlStep, ListStep, OutputFormat};
use scholar::error::ScholarError;
use scholar::paper::Paper;
use scholar::scrape::CitationDocument;

fn config(depth: u32) -> Config {
    Config::new(Some(3), depth, OutputFormat::HumanReadable, false)
}

fn page(target: Paper, citers: Vec<Paper>) -> Result<Paper, ScholarError> {
    let mut t = target;
    t.citers = Some(citers);
    Ok(t)
}

fn fetch_url(step: CrawlStep) -> String {
    match step {
        CrawlStep::Fetch(u) => u,
        CrawlStep::Done(r) => panic!("unexpected end: {:?}", r),
    }
}

#[test]
fn depth_zero_returns_seed_without_fetching() {
    let mut seed = Paper::new("seed", 1);
    seed.citers = Some(vec![Paper::new("old", 2)]);
    let pages = vec![Err(ScholarError::Network)];
    match recursive_search(&seed, &config(0), &pages) {
        CrawlStep::Done(r) => assert_eq!(r, Ok(seed.clone())),
        CrawlStep::Fetch(u) => panic!("fetched {}", u),
    }
    match recursive_search(&seed, &config(0), &vec![]) {
        CrawlStep::Done(r) => assert_eq!(r, Ok(seed)),
        CrawlStep::Fetch(u) => panic!("fetched {}", u),
    }
}

#[test]
fn blocked_child_is_dropped_at_depth_two() {
    let seed = Paper::new("seed", 10);
    let c1 = Paper::new("child one", 11);
    let c2 = Paper::new("child two", 12);
    let c3 = Paper::new("child three", 13);
    let g = Paper::new("grandchild", 20);
    let cfg = config(2);

    let mut pages = vec![];
    let u = fetch_url(recursive_search(&seed, &cfg, &pages));
    assert_eq!(u, "https://scholar.google.com/scholar?cites=10&hl=en&num=3");
    pages.push(page(Paper::new("seed as listed", 10), vec![c1.clone(), c2.clone(), c3.clone()]));

    let u = fetch_url(recursive_search(&seed, &cfg, &pages));
    assert_eq!(u, "https://scholar.google.com/scholar?cites=11&hl=en&num=3");
    pages.push(page(c1.clone(), vec![g.clone()]));

    let u = fetch_url(recursive_search(&seed, &cfg, &pages));
    assert_eq!(u, "https://scholar.google.com/scholar?cites=12&hl=en&num=3");
    pages.push(Err(ScholarError::Blocked));

    let u = fetch_url(recursive_search(&seed, &cfg, &pages));
    assert_eq!(u, "https://scholar.google.com/scholar?cites=13&hl=en&num=3");
    pages.push(page(c3.clone(), vec![]));

    let result = match recursive_search(&seed, &cfg, &pages) {
        CrawlStep::Done(r) => r.unwrap(),
        CrawlStep::Fetch(u) => panic!("fetched {}", u),
    };
    let mut want1 = c1.clone();
    want1.citers = Some(vec![g]);
    let mut want3 = c3.clone();
    want3.citers = Some(vec![]);
    let mut want = seed.clone();
    want.citers = Some(vec![want1, want3]);
    want.citers_truncated = true;
    assert_eq!(result, want);

    let mut silent = cfg;
    silent.mark_truncated = false;
    match recursive_search(&seed, &silent, &pages) {
        CrawlStep::Done(r) => {
            want.citers_truncated = false;
            assert_eq!(r, Ok(want));
        },
        CrawlStep::Fetch(u) => panic!("fetched {}", u),
    }
}

#[test]
fn complete_expansion_is_not_marked() {
    let seed = Paper::new("seed", 10);
    let pages = vec![page(Paper::new("seed", 10), vec![Paper::new("c", 11)])];
    match recursive_search(&seed, &config(1), &pages) {
        CrawlStep::Done(r) => {
            let p = r.unwrap();
            assert!(!p.citers_truncated);
            assert_eq!(p.citers, Some(vec![Paper::new("c", 11)]));
        },
        CrawlStep::Fetch(u) => panic!("fetched {}", u),
    }
}

#[test]
fn attached_citers_carry_the_marker() {
    let mut p = Paper::new("p", 1);
    attach_citers(&mut p, vec![Paper::new("c", 2)], true, &config(1));
    assert!(p.citers_truncated);
    assert_eq!(p.citers.as_ref().map(|c| c.len()), Some(1));
    let mut silent = config(1);
    silent.mark_truncated = false;
    attach_citers(&mut p, vec![], true, &silent);
    assert!(!p.citers_truncated);
    assert_eq!(p.citers, Some(vec![]));
}

#[test]
fn root_failure_fails_the_crawl() {
    let seed = Paper::new("seed", 10);
    let pages = vec![Err(ScholarError::Network)];
    match recursive_search(&seed, &config(1), &pages) {
        CrawlStep::Done(r) => assert_eq!(r, Err(ScholarError::Network)),
        CrawlStep::Fetch(u) => panic!("fetched {}", u),
    }
    let pages = vec![Err(ScholarError::BadHtml)];
    match recursive_search(&seed, &config(3), &pages) {
        CrawlStep::Done(r) => assert_eq!(r, Err(ScholarError::BadHtml)),
        CrawlStep::Fetch(u) => panic!("fetched {}", u),
    }
}

#[test]
fn list_crawl_drops_failed_papers() {
    let a = Paper::new("a", 1);
    let b = Paper::new("b", 2);
    let seeds = vec![a.clone(), b.clone()];
    let cfg = Config::new(None, 1, OutputFormat::Json, false);
    match recursive_search_all(&seeds, &cfg, &vec![]) {
        ListStep::Fetch(u) => assert_eq!(u, "https://scholar.google.com/scholar?cites=1&hl=en&num=5"),
        ListStep::Done(..) => panic!("finished early"),
    }
    let pages = vec![Err(ScholarError::Blocked), page(b.clone(), vec![a.clone()])];
    match recursive_search_all(&seeds, &cfg, &pages) {
        ListStep::Done(ps, dropped) => {
            let mut want = b.clone();
            want.citers = Some(vec![a]);
            assert_eq!(ps, vec![want]);
            assert!(dropped);
        },
        ListStep::Fetch(u) => panic!("fetched {}", u),
    }
}

#[test]
fn blocked_page_outcome() {
    let doc = CitationDocument::from_html("<html><body><div id=\"gs_captcha_ccl\"></div></body></html>").unwrap();
    assert_eq!(citation_page_outcome(&doc), Err(ScholarError::Blocked));
    let doc = CitationDocument::from_html("<html><body><p>changed layout</p></body></html>").unwrap();
    assert_eq!(citation_page_outcome(&doc), Err(ScholarError::BadHtml));
}
