use scholar::error::ScholarError;
use scholar::html::{fits_parser, HtmlDoc, NodeData, MAX_HTML_TAGS};
use scholar::paper::Paper;
use scholar::scrape::{
    scrape_article_footer, scrape_article_header, scrape_article_title, CitationDocument,
    ClusterDocument, PapersDocument, SearchDocument,
};

fn block(title_html: &str, byline: &str, footer_html: &str) -> String {
    format!(
        "<div class=\"gs_r gs_or\"><div class=\"gs_ri\"><h3 class=\"gs_rt\">{}</h3>\
         <div class=\"gs_a\">{}</div><div class=\"gs_rs\">snippet</div>\
         <div class=\"gs_fl\">{}</div></div></div>",
        title_html, byline, footer_html
    )
}

fn listing_page(blocks: &[String]) -> String {
    format!(
        "<html><head><title>results</title></head><body><div id=\"gs_res_ccl_mid\">{}</div></body></html>",
        blocks.concat()
    )
}

fn three_block_page() -> String {
    listing_page(&[
        block(
            "<span class=\"gs_ctc\">[PDF]</span> <a href=\"http://a.example/one.pdf\">Quantum field theory and critical phenomena</a>",
            "J Zinn-Justin - 1996 - cds.cern.ch",
            "<a href=\"/scholar?q=related:x:scholar.google.com/\">Related articles</a> \
             <a href=\"/scholar?cites=16499695044466828447&as_sdt=2005\">Cited by 4821</a> \
             <a href=\"/scholar?cluster=16499695044466828447\">All 7 versions</a>",
        ),
        block(
            "<span class=\"gs_ct1\">[BOOK]</span><span class=\"gs_ct2\">[B]</span> Quantum theory of <b>solids</b> ",
            "C Kittel, CY Fong - 1963 - Wiley",
            "<a href=\"/scholar?cites=8552492368061991976\">Cited by 4190</a>",
        ),
        block(
            "<a href=\"https://journals.aps.org/pr/abstract/10.1103/PhysRev.115.485\">Significance of electromagnetic potentials in the quantum theory</a>",
            "<a href=\"/citations?user=1\">Y Aharonov</a>, D Bohm\u{a0}- Physical Review, 1959\u{a0}- APS",
            "<a href=\"/scholar?cites=5545735591029960915\">Cited by 6961</a>",
        ),
    ])
}

#[test]
fn three_block_listing() {
    let doc = SearchDocument::from_html(&three_block_page()).unwrap();
    assert!(!doc.is_blocked());
    let papers = doc.scrape_papers().unwrap();
    assert_eq!(papers.len(), 3);

    assert_eq!(papers[0], {
        let mut paper = Paper::new("Quantum field theory and critical phenomena", 16499695044466828447);
        paper.link = Some(String::from("http://a.example/one.pdf"));
        paper.year = Some(1996);
        paper.citation_count = Some(4821);
        paper
    });
    assert_eq!(papers[1], {
        let mut paper = Paper::new("Quantum theory of solids", 8552492368061991976);
        paper.year = Some(1963);
        paper.citation_count = Some(4190);
        paper
    });
    assert_eq!(papers[2], {
        let mut paper = Paper::new(
            "Significance of electromagnetic potentials in the quantum theory",
            5545735591029960915,
        );
        paper.link = Some(String::from(
            "https://journals.aps.org/pr/abstract/10.1103/PhysRev.115.485",
        ));
        paper.year = Some(1959);
        paper.citation_count = Some(6961);
        paper
    });
    assert!(papers[1].link.is_none());
    assert!(papers[0].link.is_some() && papers[2].link.is_some());
}

#[test]
fn related_link_before_citation_link_is_skipped() {
    let page = listing_page(&[block(
        "<a href=\"http://x.example\">A title</a>",
        "B Author - Journal, 2011 - x.example",
        "<a href=\"/scholar?q=related:abc:scholar.google.com/\">Related articles</a>\
         <a href=\"/scholar?cites=77\">Cited by 9</a>",
    )]);
    let papers = HtmlDoc::parse(&page).unwrap().scrape_papers().unwrap();
    assert_eq!(papers.len(), 1);
    assert_eq!(papers[0].cluster_id, 77);
    assert_eq!(papers[0].citation_count, Some(9));
    assert_eq!(papers[0].year, Some(2011));
}

#[test]
fn empty_container_gives_empty_list() {
    let doc = SearchDocument::from_html("<html><body><div id=\"gs_res_ccl_mid\"></div></body></html>").unwrap();
    assert_eq!(doc.scrape_papers(), Ok(vec![]));
    let doc = SearchDocument::from_html("<html><body><p>nothing here</p></body></html>").unwrap();
    assert_eq!(doc.scrape_papers(), Err(ScholarError::BadHtml));
}

#[test]
fn block_outside_container_is_ignored() {
    let inside = block("<a href=\"http://x\">In</a>", "A - 2001 - x", "<a href=\"/scholar?cites=1\">Cited by 1</a>");
    let outside = block("<a href=\"http://y\">Out</a>", "A - 2002 - y", "<a href=\"/scholar?cites=2\">Cited by 2</a>");
    let page = format!(
        "<html><body>{}<div id=\"gs_res_ccl_mid\">{}</div></body></html>",
        outside, inside
    );
    let papers = HtmlDoc::parse(&page).unwrap().scrape_papers().unwrap();
    assert_eq!(papers.len(), 1);
    assert_eq!(papers[0].title, "In");
}

#[test]
fn missing_citation_link_is_bad_html() {
    let page = listing_page(&[block(
        "<a href=\"http://x.example\">A title</a>",
        "B Author - 2011",
        "<a href=\"/scholar?q=related:abc\">Related articles</a>",
    )]);
    assert_eq!(HtmlDoc::parse(&page).unwrap().scrape_papers(), Err(ScholarError::BadHtml));
}

#[test]
fn missing_title_region_is_bad_html() {
    let page = "<html><body><div id=\"gs_res_ccl_mid\"><div class=\"gs_ri\">\
                <div class=\"gs_fl\"><a href=\"/scholar?cites=3\">Cited by 3</a></div>\
                </div></div></body></html>";
    assert_eq!(HtmlDoc::parse(page).unwrap().scrape_papers(), Err(ScholarError::BadHtml));
}

#[test]
fn missing_year_leaves_year_unset() {
    let page = listing_page(&[block(
        "<a href=\"http://x.example\">A title</a>",
        "B Author - Some journal",
        "<a href=\"/scholar?cites=5\">引用元 12</a>",
    )]);
    let papers = HtmlDoc::parse(&page).unwrap().scrape_papers().unwrap();
    assert_eq!(papers[0].year, None);
    assert_eq!(papers[0].citation_count, Some(12));
}

fn citation_page() -> String {
    format!(
        "<html><body><div id=\"gs_rt_hdr\"><h2><a href=\"/scholar?cluster=5545735591029960915&hl=en\">\
         Significance of electromagnetic potentials in the quantum theory</a></h2></div>\
         <div id=\"gs_res_ccl_mid\">{}{}</div></body></html>",
        block(
            "<a href=\"http://rspa.example/45.full.pdf\">Quantal phase factors accompanying adiabatic changes</a>",
            "MV Berry - Proceedings, 1984 - royalsocietypublishing.org",
            "<a href=\"/scholar?cites=15570691018430890829\">Cited by 7813</a>",
        ),
        block(
            "<a href=\"https://www.nature.com/nmat1804.html\">Multiferroics: a magnetic twist for ferroelectricity</a>",
            "S Cheong, M Mostovoy - Nature materials, 2007 - nature.com",
            "<a href=\"/scholar?cites=9328505180409005573\">Cited by 3232</a>",
        )
    )
}

#[test]
fn citation_page_target_and_citers() {
    let doc = CitationDocument::from_html(&citation_page()).unwrap();
    let target = doc.scrape_target_paper().unwrap();
    assert_eq!(
        target,
        Paper::new(
            "Significance of electromagnetic potentials in the quantum theory",
            5545735591029960915,
        )
    );
    let with = doc.scrape_target_paper_with_citers().unwrap();
    let citers = with.citers.unwrap();
    assert_eq!(citers.len(), 2);
    assert_eq!(citers[0], {
        let mut paper = Paper::new(
            "Quantal phase factors accompanying adiabatic changes",
            15570691018430890829,
        );
        paper.link = Some(String::from("http://rspa.example/45.full.pdf"));
        paper.year = Some(1984);
        paper.citation_count = Some(7813);
        paper
    });
    assert_eq!(citers[1].cluster_id, 9328505180409005573);
    assert_eq!(citers[1].year, Some(2007));
}

#[test]
fn citation_page_without_header_is_bad_html() {
    let doc = CitationDocument::from_html(&three_block_page()).unwrap();
    assert_eq!(doc.scrape_target_paper(), Err(ScholarError::BadHtml));
    assert_eq!(doc.scrape_target_paper_with_citers(), Err(ScholarError::BadHtml));
}

#[test]
fn cluster_document_scrape_test() {
    let doc = ClusterDocument::from_html(&three_block_page()).unwrap();
    let paper = doc.scrape_target_paper().unwrap();
    assert_eq!(paper.cluster_id, 16499695044466828447);
    assert_eq!(paper.citation_count, Some(4821));
    let empty = ClusterDocument::from_html("<html><body></body></html>").unwrap();
    assert_eq!(empty.scrape_target_paper(), Err(ScholarError::BadHtml));
}

#[test]
fn captcha_page_is_blocked() {
    let doc = SearchDocument::from_html(
        "<html><body><div id=\"gs_captcha_ccl\"><form>Please show you're not a robot</form></div></body></html>",
    ).unwrap();
    assert!(doc.is_blocked());
    let doc = CitationDocument::from_html("<html><body><form id=\"captcha-form\"></form></body></html>").unwrap();
    assert!(doc.is_blocked());
}

fn first_block(doc: &HtmlDoc) -> usize {
    doc.nodes
        .iter()
        .position(|n| match &n.data {
            NodeData::Element { attrs, .. } => attrs.iter().any(|(k, v)| k == "class" && v == "gs_ri"),
            _ => false,
        })
        .unwrap()
}

#[test]
fn footer_selects_citation_link_after_related_link() {
    let page = listing_page(&[block(
        "<span>[HTML]</span> Unlinked title",
        "C Author - 2015",
        "<a href=\"/scholar?q=related:X:scholar.google.com/\">Related articles</a>\
         <a href=\"/scholar?cites=123\">Cited by 45</a>",
    )]);
    let doc = HtmlDoc::parse(&page).unwrap();
    let b = first_block(&doc);
    assert_eq!(scrape_article_footer(&doc.nodes, b), Ok((123, 45)));
    assert_eq!(scrape_article_header(&doc.nodes, b), Some(2015));
    assert_eq!(scrape_article_title(&doc.nodes, b), Ok((String::from("Unlinked title"), None)));
}

#[test]
fn text_beyond_parser_limits_is_refused() {
    let mut page = String::from("<html><body>");
    for _ in 0..MAX_HTML_TAGS {
        page.push_str("<i>");
    }
    assert!(!fits_parser(&page));
    assert_eq!(HtmlDoc::parse(&page).err(), Some(ScholarError::BadHtml));
    assert!(SearchDocument::from_html(&page).is_err());
    assert!(fits_parser(&three_block_page()));
}
