//! Extraction of paper records from result pages.
use vstd::prelude::*;
use crate::error::ScholarError;
use crate::html::{
    ancestor_with_attr, ancestor_with_attr_exec, ancestor_with_class, ancestor_with_class_exec,
    attr_exec, attr_of, has_class, has_class_exec, inside, is_element_named,
    is_element_named_exec, is_text, parent_index, parent_of, same_text, text_exec, text_of,
    within_exec, within_parse_limits, parsed_html,
    HtmlDoc, HtmlNode, NodeData,
};
use crate::paper::{citation_url_of, opt_view, papers_view, Paper, PaperView};
use crate::parse::{citation_count_of, cluster_id_of, parse_citation_count, parse_cluster_id, parse_year, year_of};
use crate::text::{chars_of, is_space, is_space_spec, push_char};

verus! {

broadcast use vstd::std_specs::vec::group_vec_axioms;

// ---------------------------------------------------------------- searching

/// The first index in `from..end` where `p` holds.
pub open spec fn first_from(end: int, from: int, p: spec_fn(int) -> bool) -> Option<int>
    decreases end - from,
{
    if from < 0 || from >= end {
        None
    } else if p(from) {
        Some(from)
    } else {
        first_from(end, from + 1, p)
    }
}

pub open spec fn index_view(r: Option<usize>) -> Option<int> {
    match r {
        Some(i) => Some(i as int),
        None => None,
    }
}

/// Once found, the first match stays found, whatever the later indices hold.
pub proof fn lemma_first_from_found(end: int, from: int, p: spec_fn(int) -> bool)
    requires
        first_from(end, from, p) is Some,
    ensures
        from <= first_from(end, from, p)->0 < end,
        p(first_from(end, from, p)->0),
        forall|i: int| from <= i < first_from(end, from, p)->0 ==> !#[trigger] p(i),
    decreases end - from,
{
    if !p(from) {
        lemma_first_from_found(end, from + 1, p);
    }
}

/// The search stops at `k` when `p` holds there and nowhere before it.
pub proof fn lemma_first_from_at(end: int, from: int, p: spec_fn(int) -> bool, k: int)
    requires
        0 <= from <= k < end,
        p(k),
        forall|i: int| from <= i < k ==> !#[trigger] p(i),
    ensures
        first_from(end, from, p) == Some(k),
    decreases k - from,
{
    if from < k {
        lemma_first_from_at(end, from + 1, p, k);
    }
}

/// No index in `from..end` satisfies `p` when the search finds none.
pub proof fn lemma_first_from_none(end: int, from: int, p: spec_fn(int) -> bool)
    requires
        0 <= from,
        first_from(end, from, p) is None,
    ensures
        forall|i: int| from <= i < end ==> !#[trigger] p(i),
    decreases end - from,
{
    if from < end {
        lemma_first_from_none(end, from + 1, p);
    }
}

// ---------------------------------------------------------------- markers

pub open spec fn result_block_pred(nodes: Seq<HtmlNode>) -> spec_fn(int) -> bool {
    |j: int|
        has_class(nodes[j], "gs_ri"@) && ancestor_with_attr(nodes, j, "id"@, "gs_res_ccl_mid"@)
}

/// The results container of a listing page.
pub open spec fn container_pred(nodes: Seq<HtmlNode>) -> spec_fn(int) -> bool {
    |j: int| attr_of(nodes[j], "id"@) == Some("gs_res_ccl_mid"@)
}

/// Node `j` is one result: a `gs_ri` block inside the results container.
pub open spec fn is_result_block(nodes: Seq<HtmlNode>, j: int) -> bool {
    result_block_pred(nodes)(j)
}

/// An anchor directly inside a `gs_rt` title region of block `b`.
pub open spec fn title_anchor_pred(nodes: Seq<HtmlNode>, b: int) -> spec_fn(int) -> bool {
    |j: int|
        inside(nodes, b, j) && is_element_named(nodes[j], "a"@) && match parent_of(nodes, j) {
            Some(p) => has_class(nodes[p], "gs_rt"@),
            None => false,
        }
}

/// A `gs_rt` title region inside block `b`.
pub open spec fn title_region_pred(nodes: Seq<HtmlNode>, b: int) -> spec_fn(int) -> bool {
    |j: int| inside(nodes, b, j) && has_class(nodes[j], "gs_rt"@)
}

/// A direct child of a title region of block `b` other than the `span`
/// that carries a prefix such as `[BOOK]`.
pub open spec fn title_part(nodes: Seq<HtmlNode>, b: int, k: int) -> bool {
    match parent_of(nodes, k) {
        Some(g) => title_region_pred(nodes, b)(g) && !is_element_named(nodes[k], "span"@),
        None => false,
    }
}

/// The text of the title parts of block `b` before index `k`.
pub open spec fn title_text_upto(nodes: Seq<HtmlNode>, b: int, k: int) -> Seq<char>
    decreases k,
{
    if k <= 0 {
        Seq::empty()
    } else {
        title_text_upto(nodes, b, k - 1) + if title_part(nodes, b, k - 1) {
            text_of(nodes, k - 1)
        } else {
            Seq::empty()
        }
    }
}

/// A text node of block `b` inside a `gs_a` byline that holds a year.
pub open spec fn year_node_pred(nodes: Seq<HtmlNode>, b: int) -> spec_fn(int) -> bool {
    |j: int|
        inside(nodes, b, j) && is_text(nodes[j]) && ancestor_with_class(nodes, j, "gs_a"@)
            && year_of(text_of(nodes, j)) is Some
}

/// A `gs_fl` footer inside block `b`.
pub open spec fn footer_pred(nodes: Seq<HtmlNode>, b: int) -> spec_fn(int) -> bool {
    |j: int| inside(nodes, b, j) && has_class(nodes[j], "gs_fl"@)
}

/// A child of footer `f` whose link target carries a cluster id.
pub open spec fn id_link_pred(nodes: Seq<HtmlNode>, f: int) -> spec_fn(int) -> bool {
    |c: int|
        parent_of(nodes, c) == Some(f) && match attr_of(nodes[c], "href"@) {
            Some(h) => cluster_id_of(h) is Some,
            None => false,
        }
}

/// The anchor (or text) naming the paper in the header of a citation page:
/// a child of an `h2` directly inside the `gs_rt_hdr` element.
pub open spec fn header_pred(nodes: Seq<HtmlNode>) -> spec_fn(int) -> bool {
    |j: int|
        (is_element_named(nodes[j], "a"@) || is_text(nodes[j])) && match parent_of(nodes, j) {
            Some(h) => is_element_named(nodes[h], "h2"@) && match parent_of(nodes, h) {
                Some(r) => attr_of(nodes[r], "id"@) == Some("gs_rt_hdr"@),
                None => false,
            },
            None => false,
        }
}

/// An element that only anti-automation pages have.
pub open spec fn blocked_pred(nodes: Seq<HtmlNode>) -> spec_fn(int) -> bool {
    |j: int|
        attr_of(nodes[j], "id"@) == Some("gs_captcha_ccl"@) || attr_of(nodes[j], "id"@) == Some(
            "captcha-form"@,
        )
}

// ---------------------------------------------------------------- trimming

pub open spec fn non_space_pred(s: Seq<char>) -> spec_fn(int) -> bool {
    |i: int| !is_space_spec(s[i])
}

/// The last index before `k` where `p` holds.
pub open spec fn last_before(k: int, p: spec_fn(int) -> bool) -> Option<int>
    decreases k,
{
    if k <= 0 {
        None
    } else if p(k - 1) {
        Some(k - 1)
    } else {
        last_before(k - 1, p)
    }
}

/// `s` without leading and trailing whitespace.
pub open spec fn trim(s: Seq<char>) -> Seq<char> {
    match (first_from(s.len() as int, 0, non_space_pred(s)), last_before(
        s.len() as int,
        non_space_pred(s),
    )) {
        (Some(i), Some(j)) => s.subrange(i, j + 1),
        _ => Seq::empty(),
    }
}

// ---------------------------------------------------------------- records

/// The title of result block `b` and the link it carries: the text and
/// target of an anchor in its title region, or else the trimmed text of the
/// region's parts; a block without title region has none.
pub open spec fn article_title(nodes: Seq<HtmlNode>, b: int) -> Result<
    (Seq<char>, Option<Seq<char>>),
    ScholarError,
> {
    let end = nodes.len() as int;
    match first_from(end, b + 1, title_anchor_pred(nodes, b)) {
        Some(j) => Ok((text_of(nodes, j), attr_of(nodes[j], "href"@))),
        None => if first_from(end, b + 1, title_region_pred(nodes, b)) is Some {
            Ok((trim(title_text_upto(nodes, b, end)), None))
        } else {
            Err(ScholarError::BadHtml)
        },
    }
}

/// The year of result block `b`: that of the first byline text holding one.
pub open spec fn article_year(nodes: Seq<HtmlNode>, b: int) -> Option<u32> {
    match first_from(nodes.len() as int, b + 1, year_node_pred(nodes, b)) {
        Some(j) => year_of(text_of(nodes, j)),
        None => None,
    }
}

/// The cluster id and citation count of result block `b`, read from the
/// first link of its footer that carries an id.
pub open spec fn article_footer(nodes: Seq<HtmlNode>, b: int) -> Result<(u64, u32), ScholarError> {
    let end = nodes.len() as int;
    match first_from(end, b + 1, footer_pred(nodes, b)) {
        None => Err(ScholarError::BadHtml),
        Some(f) => match first_from(end, f + 1, id_link_pred(nodes, f)) {
            None => Err(ScholarError::BadHtml),
            Some(c) => match citation_count_of(text_of(nodes, c)) {
                None => Err(ScholarError::BadHtml),
                Some(n) => Ok((cluster_id_of(attr_of(nodes[c], "href"@)->0)->0, n)),
            },
        },
    }
}

/// The footer link that gives a block its id and citation count is the
/// first one whose target carries an id, wherever it stands among the
/// footer's links: links before it without an id, such as "Related
/// articles", are passed over.
pub proof fn lemma_footer_picks_first_id_link(nodes: Seq<HtmlNode>, b: int, f: int, c: int)
    requires
        f < c < nodes.len(),
        first_from(nodes.len() as int, b + 1, footer_pred(nodes, b)) == Some(f),
        id_link_pred(nodes, f)(c),
        forall|k: int| f < k < c ==> !#[trigger] id_link_pred(nodes, f)(k),
        citation_count_of(text_of(nodes, c)) is Some,
    ensures
        article_footer(nodes, b) == Ok::<(u64, u32), ScholarError>(
            (
                cluster_id_of(attr_of(nodes[c], "href"@)->0)->0,
                citation_count_of(text_of(nodes, c))->0,
            ),
        ),
{
    lemma_first_from_found(nodes.len() as int, b + 1, footer_pred(nodes, b));
    lemma_first_from_at(nodes.len() as int, f + 1, id_link_pred(nodes, f), c);
}

/// The record that a result block `b` stands for, or why there is none.
pub open spec fn paper_of_block(nodes: Seq<HtmlNode>, b: int) -> Result<PaperView, ScholarError> {
    match article_title(nodes, b) {
        Err(e) => Err(e),
        Ok((title, link)) => match article_footer(nodes, b) {
            Err(e) => Err(e),
            Ok((id, n)) => Ok(
                PaperView {
                    title,
                    link,
                    cluster_id: id,
                    year: article_year(nodes, b),
                    citation_count: Some(n),
                    citers: None,
                    citers_truncated: false,
                    citation_url: citation_url_of(id),
                },
            ),
        },
    }
}

/// The records of the result blocks before index `k`, in document order,
/// or the first failure among them.
pub open spec fn listing_upto(nodes: Seq<HtmlNode>, k: int) -> Result<Seq<PaperView>, ScholarError>
    decreases k,
{
    if k <= 0 {
        Ok(Seq::empty())
    } else {
        match listing_upto(nodes, k - 1) {
            Err(e) => Err(e),
            Ok(ps) => if is_result_block(nodes, k - 1) {
                match paper_of_block(nodes, k - 1) {
                    Ok(p) => Ok(ps.push(p)),
                    Err(e) => Err(e),
                }
            } else {
                Ok(ps)
            },
        }
    }
}

/// The records of all result blocks of a listing page; a page without
/// results container does not have the expected structure.
pub open spec fn listing(nodes: Seq<HtmlNode>) -> Result<Seq<PaperView>, ScholarError> {
    if first_from(nodes.len() as int, 0, container_pred(nodes)) is None {
        Err(ScholarError::BadHtml)
    } else {
        listing_upto(nodes, nodes.len() as int)
    }
}

pub open spec fn new_paper_view(title: Seq<char>, id: u64) -> PaperView {
    PaperView {
        title,
        link: None,
        cluster_id: id,
        year: None,
        citation_count: None,
        citers: None,
        citers_truncated: false,
        citation_url: citation_url_of(id),
    }
}

/// The paper that a citation page is about, read from its header.
pub open spec fn target_of(nodes: Seq<HtmlNode>) -> Result<PaperView, ScholarError> {
    match first_from(nodes.len() as int, 0, header_pred(nodes)) {
        None => Err(ScholarError::BadHtml),
        Some(j) => match attr_of(nodes[j], "href"@) {
            None => Err(ScholarError::BadHtml),
            Some(h) => match cluster_id_of(h) {
                None => Err(ScholarError::BadHtml),
                Some(id) => Ok(new_paper_view(text_of(nodes, j), id)),
            },
        },
    }
}

/// The paper of a citation page with the papers listed on it as its citers.
pub open spec fn target_with_citers(nodes: Seq<HtmlNode>) -> Result<PaperView, ScholarError> {
    match target_of(nodes) {
        Err(e) => Err(e),
        Ok(t) => match listing(nodes) {
            Err(e) => Err(e),
            Ok(ps) => Ok(PaperView { citers: Some(ps), ..t }),
        },
    }
}

/// The paper of a cluster page: its first result block.
pub open spec fn cluster_target(nodes: Seq<HtmlNode>) -> Result<PaperView, ScholarError> {
    match first_from(nodes.len() as int, 0, result_block_pred(nodes)) {
        None => Err(ScholarError::BadHtml),
        Some(b) => paper_of_block(nodes, b),
    }
}

/// The page is an anti-automation interstitial.
pub open spec fn is_blocked_page(nodes: Seq<HtmlNode>) -> bool {
    first_from(nodes.len() as int, 0, blocked_pred(nodes)) is Some
}

pub open spec fn paper_result_view(r: Result<Paper, ScholarError>) -> Result<PaperView, ScholarError> {
    match r {
        Ok(p) => Ok(p@),
        Err(e) => Err(e),
    }
}

pub open spec fn papers_result_view(r: Result<Vec<Paper>, ScholarError>) -> Result<Seq<PaperView>, ScholarError> {
    match r {
        Ok(ps) => Ok(papers_view(ps@)),
        Err(e) => Err(e),
    }
}


// ---------------------------------------------------------------- exec

/// The kinds of node that extraction looks for; `at` is the block, footer
/// or nothing that the search is relative to.
#[derive(Clone, Copy, PartialEq, Eq, Structural)]
pub enum Probe {
    Container,
    ResultBlock,
    TitleAnchor,
    TitleRegion,
    YearNode,
    Footer,
    IdLink,
    Header,
    BlockedMarker,
}

pub open spec fn probe_pred(nodes: Seq<HtmlNode>, probe: Probe, at: int) -> spec_fn(int) -> bool {
    match probe {
        Probe::Container => container_pred(nodes),
        Probe::ResultBlock => result_block_pred(nodes),
        Probe::TitleAnchor => title_anchor_pred(nodes, at),
        Probe::TitleRegion => title_region_pred(nodes, at),
        Probe::YearNode => year_node_pred(nodes, at),
        Probe::Footer => footer_pred(nodes, at),
        Probe::IdLink => id_link_pred(nodes, at),
        Probe::Header => header_pred(nodes),
        Probe::BlockedMarker => blocked_pred(nodes),
    }
}

fn has_id(n: &HtmlNode, id: &str) -> (r: bool)
    ensures
        r == (attr_of(*n, "id"@) == Some(id@)),
{
    match attr_exec(n, &String::from_str("id")) {
        Some(v) => same_text(v, &String::from_str(id)),
        None => false,
    }
}

fn probe_at(nodes: &Vec<HtmlNode>, probe: Probe, at: usize, j: usize) -> (r: bool)
    requires
        j < nodes.len(),
    ensures
        r == probe_pred(nodes@, probe, at as int)(j as int),
{
    match probe {
        Probe::Container => has_id(&nodes[j], "gs_res_ccl_mid"),
        Probe::ResultBlock => has_class_exec(&nodes[j], "gs_ri") && ancestor_with_attr_exec(
            nodes,
            j,
            &String::from_str("id"),
            &String::from_str("gs_res_ccl_mid"),
        ),
        Probe::TitleAnchor => inside_exec(nodes, at, j) && is_element_named_exec(
            &nodes[j],
            &String::from_str("a"),
        ) && match parent_index(nodes, j) {
            Some(p) => has_class_exec(&nodes[p], "gs_rt"),
            None => false,
        },
        Probe::TitleRegion => inside_exec(nodes, at, j) && has_class_exec(&nodes[j], "gs_rt"),
        Probe::YearNode => inside_exec(nodes, at, j) && is_text_exec(&nodes[j])
            && ancestor_with_class_exec(nodes, j, "gs_a") && parse_year(
            text_exec(nodes, j).as_str(),
        ).is_ok(),
        Probe::Footer => inside_exec(nodes, at, j) && has_class_exec(&nodes[j], "gs_fl"),
        Probe::IdLink => {
            let is_child = match parent_index(nodes, j) {
                Some(p) => p == at,
                None => false,
            };
            is_child && match href_of(&nodes[j]) {
                Some(h) => parse_cluster_id(h.as_str()).is_ok(),
                None => false,
            }
        },
        Probe::Header => (is_element_named_exec(&nodes[j], &String::from_str("a")) || is_text_exec(
            &nodes[j],
        )) && match parent_index(nodes, j) {
            Some(h) => is_element_named_exec(&nodes[h], &String::from_str("h2")) && match parent_index(
                nodes,
                h,
            ) {
                Some(r) => has_id(&nodes[r], "gs_rt_hdr"),
                None => false,
            },
            None => false,
        },
        Probe::BlockedMarker => has_id(&nodes[j], "gs_captcha_ccl") || has_id(
            &nodes[j],
            "captcha-form",
        ),
    }
}

/// The first node at or after `from` of the kind `probe`.
fn search_from(nodes: &Vec<HtmlNode>, probe: Probe, at: usize, from: usize) -> (r: Option<usize>)
    ensures
        index_view(r) == first_from(nodes@.len() as int, from as int, probe_pred(nodes@, probe, at as int)),
{
    let ghost p = probe_pred(nodes@, probe, at as int);
    let mut j = from;
    while j < nodes.len()
        invariant
            from <= j,
            p == probe_pred(nodes@, probe, at as int),
            first_from(nodes@.len() as int, from as int, p) == first_from(nodes@.len() as int, j as int, p),
        decreases nodes.len() - j,
    {
        if probe_at(nodes, probe, at, j) {
            return Some(j);
        }
        j = j + 1;
    }
    None
}

fn inside_exec(nodes: &Vec<HtmlNode>, a: usize, j: usize) -> (r: bool)
    requires
        j < nodes.len(),
    ensures
        r == inside(nodes@, a as int, j as int),
{
    j != a && within_exec(nodes, a, j)
}

fn is_text_exec(n: &HtmlNode) -> (r: bool)
    ensures
        r == is_text(*n),
{
    match &n.data {
        NodeData::Text(_) => true,
        _ => false,
    }
}

/// `s` without leading and trailing whitespace.
pub fn trim_text(s: &str) -> (r: String)
    ensures
        r@ == trim(s@),
{
    let c = chars_of(s);
    let ghost p = non_space_pred(s@);
    let mut i: usize = 0;
    while i < c.len() && is_space(c[i])
        invariant
            c@ == s@,
            i <= c.len(),
            p == non_space_pred(s@),
            first_from(c.len() as int, 0, p) == first_from(c.len() as int, i as int, p),
        decreases c.len() - i,
    {
        i = i + 1;
    }
    let mut k: usize = c.len();
    while k > 0 && is_space(c[k - 1])
        invariant
            c@ == s@,
            k <= c.len(),
            p == non_space_pred(s@),
            last_before(c.len() as int, p) == last_before(k as int, p),
        decreases k,
    {
        k = k - 1;
    }
    let mut out = String::new();
    if i == c.len() || k == 0 {
        return out;
    }
    proof {
        lemma_first_from_found(c.len() as int, 0, p);
        assert(p(k - 1));
        assert(last_before(k as int, p) == Some(k - 1));
        assert(i <= k - 1);
    }
    let mut m: usize = i;
    while m < k
        invariant
            c@ == s@,
            i <= m <= k <= c.len(),
            out@ == s@.subrange(i as int, m as int),
        decreases k - m,
    {
        push_char(&mut out, c[m]);
        assert(s@.subrange(i as int, m + 1) == s@.subrange(i as int, m as int).push(c@[m as int]));
        m = m + 1;
    }
    out
}

fn title_part_exec(nodes: &Vec<HtmlNode>, b: usize, k: usize) -> (r: bool)
    requires
        k < nodes.len(),
    ensures
        r == title_part(nodes@, b as int, k as int),
{
    match parent_index(nodes, k) {
        Some(g) => inside_exec(nodes, b, g) && has_class_exec(&nodes[g], "gs_rt")
            && !is_element_named_exec(&nodes[k], &String::from_str("span")),
        None => false,
    }
}

fn title_text(nodes: &Vec<HtmlNode>, b: usize) -> (r: String)
    ensures
        r@ == title_text_upto(nodes@, b as int, nodes@.len() as int),
{
    let mut out = String::new();
    let mut k: usize = 0;
    while k < nodes.len()
        invariant
            k <= nodes.len(),
            out@ == title_text_upto(nodes@, b as int, k as int),
        decreases nodes.len() - k,
    {
        if title_part_exec(nodes, b, k) {
            let t = text_exec(nodes, k);
            out.append(t.as_str());
        }
        k = k + 1;
    }
    out
}

fn href_of(n: &HtmlNode) -> (r: Option<&String>)
    ensures
        match r {
            Some(v) => attr_of(*n, "href"@) == Some(v@),
            None => attr_of(*n, "href"@) is None,
        },
{
    attr_exec(n, &String::from_str("href"))
}

fn copy_opt(s: Option<&String>) -> (r: Option<String>)
    ensures
        opt_view(r) == match s {
            Some(v) => Some(v@),
            None => None::<Seq<char>>,
        },
{
    match s {
        Some(v) => Some(v.clone()),
        None => None,
    }
}

/// The title and link of result block `b`.
pub fn scrape_article_title(nodes: &Vec<HtmlNode>, b: usize) -> (r: Result<(String, Option<String>), ScholarError>)
    requires
        b < nodes.len(),
    ensures
        match (r, article_title(nodes@, b as int)) {
            (Ok((t, l)), Ok((vt, vl))) => t@ == vt && opt_view(l) == vl,
            (Err(e), Err(ve)) => e == ve,
            _ => false,
        },
{
    let end = nodes.len();
    match search_from(nodes, Probe::TitleAnchor, b, b + 1) {
        Some(j) => {
            proof {
                lemma_first_from_found(end as int, b + 1, probe_pred(nodes@, Probe::TitleAnchor, b as int));
            }
            Ok((text_exec(nodes, j), copy_opt(href_of(&nodes[j]))))
        },
        None => {
            if search_from(nodes, Probe::TitleRegion, b, b + 1).is_none() {
                return Err(ScholarError::BadHtml);
            }
            let t = title_text(nodes, b);
            Ok((trim_text(t.as_str()), None))
        },
    }
}

/// The year of result block `b`, if its byline has one.
pub fn scrape_article_header(nodes: &Vec<HtmlNode>, b: usize) -> (r: Option<u32>)
    requires
        b < nodes.len(),
    ensures
        r == article_year(nodes@, b as int),
{
    match search_from(nodes, Probe::YearNode, b, b + 1) {
        Some(j) => {
            proof {
                lemma_first_from_found(nodes@.len() as int, b + 1, probe_pred(nodes@, Probe::YearNode, b as int));
            }
            match parse_year(text_exec(nodes, j).as_str()) {
                Ok(y) => Some(y),
                Err(_) => None,
            }
        },
        None => None,
    }
}

/// The cluster id and citation count of result block `b`.
pub fn scrape_article_footer(nodes: &Vec<HtmlNode>, b: usize) -> (r: Result<(u64, u32), ScholarError>)
    requires
        b < nodes.len(),
    ensures
        r == article_footer(nodes@, b as int),
{
    let end = nodes.len();
    let f = match search_from(nodes, Probe::Footer, b, b + 1) {
        Some(f) => f,
        None => {
            return Err(ScholarError::BadHtml);
        },
    };
    proof {
        lemma_first_from_found(end as int, b + 1, probe_pred(nodes@, Probe::Footer, b as int));
    }
    let c = match search_from(nodes, Probe::IdLink, f, f + 1) {
        Some(c) => c,
        None => {
            return Err(ScholarError::BadHtml);
        },
    };
    proof {
        lemma_first_from_found(end as int, f + 1, probe_pred(nodes@, Probe::IdLink, f as int));
    }
    let count = match parse_citation_count(text_exec(nodes, c).as_str()) {
        Ok(n) => n,
        Err(e) => {
            return Err(e);
        },
    };
    match href_of(&nodes[c]) {
        Some(h) => match parse_cluster_id(h.as_str()) {
            Ok(id) => Ok((id, count)),
            Err(e) => Err(e),
        },
        None => Err(ScholarError::BadHtml),
    }
}

/// The record of result block `b`.
fn scrape_paper_one(nodes: &Vec<HtmlNode>, b: usize) -> (r: Result<Paper, ScholarError>)
    requires
        b < nodes.len(),
    ensures
        paper_result_view(r) == paper_of_block(nodes@, b as int),
{
    let (title, link) = match scrape_article_title(nodes, b) {
        Ok(t) => t,
        Err(e) => {
            return Err(e);
        },
    };
    let (id, count) = match scrape_article_footer(nodes, b) {
        Ok(f) => f,
        Err(e) => {
            return Err(e);
        },
    };
    let mut paper = Paper::new(title.as_str(), id);
    paper.link = link;
    paper.year = scrape_article_header(nodes, b);
    paper.citation_count = Some(count);
    Ok(paper)
}

/// The result blocks before index `k`, in document order.
pub open spec fn blocks_upto(nodes: Seq<HtmlNode>, k: int) -> Seq<int>
    decreases k,
{
    if k <= 0 {
        Seq::empty()
    } else if is_result_block(nodes, k - 1) {
        blocks_upto(nodes, k - 1).push(k - 1)
    } else {
        blocks_upto(nodes, k - 1)
    }
}

proof fn lemma_listing_upto_blocks(nodes: Seq<HtmlNode>, k: int)
    requires
        k <= nodes.len(),
        listing_upto(nodes, k) is Ok,
    ensures
        listing_upto(nodes, k)->Ok_0.len() == blocks_upto(nodes, k).len(),
        forall|i: int|
            0 <= i < blocks_upto(nodes, k).len() ==> paper_of_block(
                nodes,
                #[trigger] blocks_upto(nodes, k)[i],
            ) == Ok::<PaperView, ScholarError>(listing_upto(nodes, k)->Ok_0[i]),
    decreases k,
{
    if k > 0 {
        lemma_listing_upto_blocks(nodes, k - 1);
    }
}

/// A listing holds one paper for each result block of the page, in
/// document order, each the record of its block.
pub proof fn lemma_listing_follows_blocks(nodes: Seq<HtmlNode>)
    requires
        listing(nodes) is Ok,
    ensures
        listing(nodes)->Ok_0.len() == blocks_upto(nodes, nodes.len() as int).len(),
        forall|i: int|
            0 <= i < blocks_upto(nodes, nodes.len() as int).len() ==> paper_of_block(
                nodes,
                #[trigger] blocks_upto(nodes, nodes.len() as int)[i],
            ) == Ok::<PaperView, ScholarError>(listing(nodes)->Ok_0[i]),
{
    lemma_listing_upto_blocks(nodes, nodes.len() as int);
}

/// A block whose title region holds an anchor takes its title and link
/// from the first such anchor; a block whose title region holds none has
/// no link, and its title is the trimmed text of the region's parts.
pub proof fn lemma_title_variants(nodes: Seq<HtmlNode>, b: int)
    requires
        paper_of_block(nodes, b) is Ok,
    ensures
        match first_from(nodes.len() as int, b + 1, title_anchor_pred(nodes, b)) {
            Some(j) => paper_of_block(nodes, b)->Ok_0.title == text_of(nodes, j)
                && paper_of_block(nodes, b)->Ok_0.link == attr_of(nodes[j], "href"@),
            None => paper_of_block(nodes, b)->Ok_0.title == trim(
                title_text_upto(nodes, b, nodes.len() as int),
            ) && paper_of_block(nodes, b)->Ok_0.link is None,
        },
        paper_of_block(nodes, b)->Ok_0.citation_count is Some,
{
}

/// A failure among the first result blocks stays the outcome of the listing.
pub proof fn lemma_listing_failure_stays(nodes: Seq<HtmlNode>, k: int, m: int)
    requires
        k <= m,
        listing_upto(nodes, k) is Err,
    ensures
        listing_upto(nodes, m) == listing_upto(nodes, k),
    decreases m - k,
{
    if k < m {
        lemma_listing_failure_stays(nodes, k, m - 1);
    }
}

/// The records of all result blocks, in document order.
fn scrape_listing(nodes: &Vec<HtmlNode>) -> (r: Result<Vec<Paper>, ScholarError>)
    ensures
        papers_result_view(r) == listing(nodes@),
{
    if search_from(nodes, Probe::Container, 0, 0).is_none() {
        return Err(ScholarError::BadHtml);
    }
    let mut out: Vec<Paper> = Vec::new();
    let mut j: usize = 0;
    while j < nodes.len()
        invariant
            j <= nodes.len(),
            listing_upto(nodes@, j as int) == Ok::<Seq<PaperView>, ScholarError>(papers_view(out@)),
        decreases nodes.len() - j,
    {
        if probe_at(nodes, Probe::ResultBlock, 0, j) {
            match scrape_paper_one(nodes, j) {
                Ok(p) => {
                    proof {
                        assert(out@.push(p).drop_last() == out@);
                    }
                    out.push(p);
                },
                Err(e) => {
                    proof {
                        lemma_listing_failure_stays(nodes@, j + 1, nodes@.len() as int);
                    }
                    return Err(e);
                },
            }
        }
        j = j + 1;
    }
    Ok(out)
}

/// The paper named in the header of a citation page.
fn scrape_target(nodes: &Vec<HtmlNode>) -> (r: Result<Paper, ScholarError>)
    ensures
        paper_result_view(r) == target_of(nodes@),
{
    let j = match search_from(nodes, Probe::Header, 0, 0) {
        Some(j) => j,
        None => {
            return Err(ScholarError::BadHtml);
        },
    };
    proof {
        lemma_first_from_found(nodes@.len() as int, 0, probe_pred(nodes@, Probe::Header, 0));
    }
    let id = match href_of(&nodes[j]) {
        Some(h) => match parse_cluster_id(h.as_str()) {
            Ok(id) => id,
            Err(e) => {
                return Err(e);
            },
        },
        None => {
            return Err(ScholarError::BadHtml);
        },
    };
    let title = text_exec(nodes, j);
    Ok(Paper::new(title.as_str(), id))
}

impl HtmlDoc {
    /// Whether this is an anti-automation page rather than results.
    pub fn is_blocked(&self) -> (r: bool)
        ensures
            r == is_blocked_page(self.nodes@),
    {
        search_from(&self.nodes, Probe::BlockedMarker, 0, 0).is_some()
    }
}

/// Pages that list papers.
pub trait PapersDocument {
    /// The nodes of the page.
    spec fn page_nodes(&self) -> Seq<HtmlNode>;

    /// The papers of all result blocks, in document order; a results
    /// container without blocks gives an empty list, a page without
    /// results container `BadHtml`.
    fn scrape_papers(&self) -> (r: Result<Vec<Paper>, ScholarError>)
        ensures
            papers_result_view(r) == listing(self.page_nodes()),
    ;

    /// Whether the page is an anti-automation interstitial.
    fn is_blocked(&self) -> (r: bool)
        ensures
            r == is_blocked_page(self.page_nodes()),
    ;
}

impl PapersDocument for HtmlDoc {
    open spec fn page_nodes(&self) -> Seq<HtmlNode> {
        self.nodes@
    }

    fn scrape_papers(&self) -> (r: Result<Vec<Paper>, ScholarError>) {
        scrape_listing(&self.nodes)
    }

    fn is_blocked(&self) -> (r: bool) {
        HtmlDoc::is_blocked(self)
    }
}

/// A page of search results.
pub struct SearchDocument(pub HtmlDoc);

/// A page listing the papers that cite one paper.
pub struct CitationDocument(pub HtmlDoc);

/// The page of one cluster of versions of a paper.
pub struct ClusterDocument(pub HtmlDoc);

impl SearchDocument {
    pub fn new(doc: HtmlDoc) -> (r: SearchDocument)
        ensures
            r.0 == doc,
    {
        SearchDocument(doc)
    }

    /// Parses the HTML text of a search results page.
    pub fn from_html(html: &str) -> (r: Result<SearchDocument, ScholarError>)
        ensures
            match r {
                Ok(d) => within_parse_limits(html@) && d.0.nodes@ == parsed_html(html@),
                Err(e) => !within_parse_limits(html@) && e == ScholarError::BadHtml,
            },
    {
        match HtmlDoc::parse(html) {
            Ok(d) => Ok(SearchDocument(d)),
            Err(e) => Err(e),
        }
    }
}

impl PapersDocument for SearchDocument {
    open spec fn page_nodes(&self) -> Seq<HtmlNode> {
        self.0.nodes@
    }

    fn scrape_papers(&self) -> (r: Result<Vec<Paper>, ScholarError>) {
        scrape_listing(&self.0.nodes)
    }

    fn is_blocked(&self) -> (r: bool) {
        self.0.is_blocked()
    }
}

impl CitationDocument {
    pub fn new(doc: HtmlDoc) -> (r: CitationDocument)
        ensures
            r.0 == doc,
    {
        CitationDocument(doc)
    }

    /// Parses the HTML text of a citation list page.
    pub fn from_html(html: &str) -> (r: Result<CitationDocument, ScholarError>)
        ensures
            match r {
                Ok(d) => within_parse_limits(html@) && d.0.nodes@ == parsed_html(html@),
                Err(e) => !within_parse_limits(html@) && e == ScholarError::BadHtml,
            },
    {
        match HtmlDoc::parse(html) {
            Ok(d) => Ok(CitationDocument(d)),
            Err(e) => Err(e),
        }
    }

    /// The paper the page is about, read from its header.
    pub fn scrape_target_paper(&self) -> (r: Result<Paper, ScholarError>)
        ensures
            paper_result_view(r) == target_of(self.0.nodes@),
    {
        scrape_target(&self.0.nodes)
    }

    /// The paper the page is about, with the papers listed on it as citers.
    pub fn scrape_target_paper_with_citers(&self) -> (r: Result<Paper, ScholarError>)
        ensures
            paper_result_view(r) == target_with_citers(self.0.nodes@),
    {
        let mut paper = match self.scrape_target_paper() {
            Ok(p) => p,
            Err(e) => {
                return Err(e);
            },
        };
        let citers = match self.scrape_papers() {
            Ok(c) => c,
            Err(e) => {
                return Err(e);
            },
        };
        paper.citers = Some(citers);
        Ok(paper)
    }
}

impl PapersDocument for CitationDocument {
    open spec fn page_nodes(&self) -> Seq<HtmlNode> {
        self.0.nodes@
    }

    fn scrape_papers(&self) -> (r: Result<Vec<Paper>, ScholarError>) {
        scrape_listing(&self.0.nodes)
    }

    fn is_blocked(&self) -> (r: bool) {
        self.0.is_blocked()
    }
}

impl ClusterDocument {
    pub fn new(doc: HtmlDoc) -> (r: ClusterDocument)
        ensures
            r.0 == doc,
    {
        ClusterDocument(doc)
    }

    /// Parses the HTML text of a cluster page.
    pub fn from_html(html: &str) -> (r: Result<ClusterDocument, ScholarError>)
        ensures
            match r {
                Ok(d) => within_parse_limits(html@) && d.0.nodes@ == parsed_html(html@),
                Err(e) => !within_parse_limits(html@) && e == ScholarError::BadHtml,
            },
    {
        match HtmlDoc::parse(html) {
            Ok(d) => Ok(ClusterDocument(d)),
            Err(e) => Err(e),
        }
    }

    /// The paper of the page: its first result block.
    pub fn scrape_target_paper(&self) -> (r: Result<Paper, ScholarError>)
        ensures
            paper_result_view(r) == cluster_target(self.0.nodes@),
    {
        let nodes = &self.0.nodes;
        match search_from(nodes, Probe::ResultBlock, 0, 0) {
            Some(b) => {
                proof {
                    lemma_first_from_found(nodes@.len() as int, 0, probe_pred(nodes@, Probe::ResultBlock, 0));
                }
                scrape_paper_one(nodes, b)
            },
            None => Err(ScholarError::BadHtml),
        }
    }
}

impl PapersDocument for ClusterDocument {
    open spec fn page_nodes(&self) -> Seq<HtmlNode> {
        self.0.nodes@
    }

    fn scrape_papers(&self) -> (r: Result<Vec<Paper>, ScholarError>) {
        scrape_listing(&self.0.nodes)
    }

    fn is_blocked(&self) -> (r: bool) {
        self.0.is_blocked()
    }
}

/// A listing page whose results container holds no result blocks gives an
/// empty list, not an error.
pub proof fn lemma_no_blocks_empty_listing(nodes: Seq<HtmlNode>, c: int)
    requires
        0 <= c < nodes.len(),
        attr_of(nodes[c], "id"@) == Some("gs_res_ccl_mid"@),
        forall|j: int| 0 <= j < nodes.len() ==> !is_result_block(nodes, j),
    ensures
        listing(nodes) == Ok::<Seq<PaperView>, ScholarError>(Seq::empty()),
{
    if first_from(nodes.len() as int, 0, container_pred(nodes)) is None {
        lemma_first_from_none(nodes.len() as int, 0, container_pred(nodes));
        assert(container_pred(nodes)(c));
    }
    lemma_no_blocks_upto(nodes, nodes.len() as int);
}

/// A page without results container is reported as malformed, apart from a
/// page that lists no results.
pub proof fn lemma_no_container_bad_html(nodes: Seq<HtmlNode>)
    requires
        forall|j: int| 0 <= j < nodes.len() ==> attr_of(nodes[j], "id"@) != Some("gs_res_ccl_mid"@),
    ensures
        listing(nodes) == Err::<Seq<PaperView>, ScholarError>(ScholarError::BadHtml),
{
    if first_from(nodes.len() as int, 0, container_pred(nodes)) is Some {
        lemma_first_from_found(nodes.len() as int, 0, container_pred(nodes));
    }
}

proof fn lemma_no_blocks_upto(nodes: Seq<HtmlNode>, k: int)
    requires
        k <= nodes.len(),
        forall|j: int| 0 <= j < nodes.len() ==> !is_result_block(nodes, j),
    ensures
        listing_upto(nodes, k) == Ok::<Seq<PaperView>, ScholarError>(Seq::empty()),
    decreases k,
{
    if k > 0 {
        lemma_no_blocks_upto(nodes, k - 1);
    }
}

} // verus!
