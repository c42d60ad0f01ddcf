//! The `Paper` record.
use vstd::prelude::*;
use crate::parse::{
    cites_key, cluster_id_of, cluster_key, id_digits_at, lemma_digit_run_to_end,
    lemma_first_id_param, occurs_at,
};
use crate::text::{decimal, lemma_decimal, push_decimal};

verus! {

broadcast use vstd::std_specs::vec::group_vec_axioms;

/// The search engine's result endpoint.
pub const SCHOLAR_URL_BASE: &'static str = "https://scholar.google.com/scholar";

/// The characters of `SCHOLAR_URL_BASE`.
pub open spec fn base_url() -> Seq<char> {
    seq![
        'h', 't', 't', 'p', 's', ':', '/', '/', 's', 'c', 'h', 'o', 'l', 'a', 'r', '.', 'g', 'o',
        'o', 'g', 'l', 'e', '.', 'c', 'o', 'm', '/', 's', 'c', 'h', 'o', 'l', 'a', 'r',
    ]
}

pub open spec fn cites_query() -> Seq<char> {
    seq!['?', 'c', 'i', 't', 'e', 's', '=']
}

/// The page that lists the papers citing the paper with cluster id `id`.
pub open spec fn citation_url_of(id: u64) -> Seq<char> {
    base_url() + cites_query() + decimal(id as nat)
}

/// Reading the cluster id back from a paper's citation URL gives the id it
/// was made from, for every 64-bit id.
pub proof fn lemma_citation_url_round_trip(id: u64)
    ensures
        cluster_id_of(citation_url_of(id)) == Some(id),
{
    let s = citation_url_of(id);
    let d = decimal(id as nat);
    let pre = base_url() + cites_query();
    lemma_decimal(id as nat);
    assert(s == pre + d);
    assert(pre.len() == 41);
    assert forall|i: int| 0 <= i < 41 implies s[i] == pre[i] by {}
    assert forall|i: int| 41 <= i < s.len() implies s[i] == d[i - 41] by {}
    assert(occurs_at(s, 35, cites_key())) by {
        assert(s.subrange(35, 41) =~= cites_key());
    }
    assert(id_digits_at(s, 35) == Some(41int)) by {
        if occurs_at(s, 35, cluster_key()) {
            assert(s.subrange(35, 43)[1] == s[36]);
        }
    }
    assert forall|i: int| 0 <= i < 35 implies id_digits_at(s, i) is None by {
        if occurs_at(s, i, cluster_key()) {
            assert(s.subrange(i, i + 8)[7] == '=');
            assert(s.subrange(i, i + 8)[0] == 'c');
            assert(s[i + 7] == '=');
        }
        if occurs_at(s, i, cites_key()) {
            assert(s.subrange(i, i + 6)[5] == '=');
            assert(s[i + 5] == '=');
        }
    }
    lemma_first_id_param(s, 0, 35);
    assert(s.subrange(41, s.len() as int) =~= d);
    lemma_digit_run_to_end(s, 41);
}

/// A paper as found on a result page.
#[derive(Debug, PartialEq, Eq)]
pub struct Paper {
    pub title: String,
    /// Link to the full text (PDF, HTML, ...).
    pub link: Option<String>,
    /// The search engine's id of the group of versions of this paper.
    pub cluster_id: u64,
    /// Year of publication.
    pub year: Option<u32>,
    pub citation_count: Option<u32>,
    /// Papers citing this one; `None` until the crawler expands the paper.
    pub citers: Option<Vec<Paper>>,
    /// Set by the crawler when the expansion of some citer failed and that
    /// citer was left out of `citers`.
    pub citers_truncated: bool,
    /// URL of the page listing the papers citing this one.
    pub citation_url: String,
}

/// A paper as a mathematical value.
pub struct PaperView {
    pub title: Seq<char>,
    pub link: Option<Seq<char>>,
    pub cluster_id: u64,
    pub year: Option<u32>,
    pub citation_count: Option<u32>,
    pub citers: Option<Seq<PaperView>>,
    pub citers_truncated: bool,
    pub citation_url: Seq<char>,
}

pub open spec fn opt_view(s: Option<String>) -> Option<Seq<char>> {
    match s {
        Some(t) => Some(t@),
        None => None,
    }
}

/// The values of a list of papers.
pub open spec fn papers_view(ps: Seq<Paper>) -> Seq<PaperView>
    decreases ps,
{
    if ps.len() == 0 {
        Seq::empty()
    } else {
        papers_view(ps.drop_last()).push(paper_view(ps.last()))
    }
}

pub open spec fn paper_view(p: Paper) -> PaperView
    decreases p,
{
    PaperView {
        title: p.title@,
        link: opt_view(p.link),
        cluster_id: p.cluster_id,
        year: p.year,
        citation_count: p.citation_count,
        citers: match p.citers {
            Some(v) => Some(papers_view(v@)),
            None => None,
        },
        citers_truncated: p.citers_truncated,
        citation_url: p.citation_url@,
    }
}

pub proof fn lemma_papers_view(ps: Seq<Paper>)
    ensures
        papers_view(ps).len() == ps.len(),
        forall|i: int| 0 <= i < ps.len() ==> #[trigger] papers_view(ps)[i] == paper_view(ps[i]),
    decreases ps.len(),
{
    if ps.len() > 0 {
        lemma_papers_view(ps.drop_last());
    }
}

impl View for Paper {
    type V = PaperView;

    open spec fn view(&self) -> PaperView {
        paper_view(*self)
    }
}


impl Paper {
    /// A paper with the given title and cluster id; its citation URL follows
    /// from the id, and link, year, citation count and citers are unset.
    pub fn new(title: &str, cluster_id: u64) -> (r: Paper)
        ensures
            r@ == (PaperView {
                title: title@,
                link: None,
                cluster_id,
                year: None,
                citation_count: None,
                citers: None,
                citers_truncated: false,
                citation_url: citation_url_of(cluster_id),
            }),
    {
        Paper {
            title: title.to_owned(),
            link: None,
            cluster_id,
            year: None,
            citation_count: None,
            citers: None,
            citers_truncated: false,
            citation_url: Self::cluster_id_to_citation_url(cluster_id),
        }
    }

    /// The URL of the page listing the papers citing cluster `id`.
    pub fn cluster_id_to_citation_url(id: u64) -> (r: String)
        ensures
            r@ == citation_url_of(id),
    {
        let mut url = String::from_str(SCHOLAR_URL_BASE);
        url.append("?cites=");
        proof {
            reveal_strlit("https://scholar.google.com/scholar");
            reveal_strlit("?cites=");
        }
        push_decimal(&mut url, id);
        url
    }

    /// A copy of the paper, citers included.
    pub fn copy(&self) -> (r: Paper)
        ensures
            r@ == self@,
        decreases self,
    {
        let citers = match &self.citers {
            Some(v) => {
                let mut out: Vec<Paper> = Vec::new();
                for i in 0..v.len()
                    invariant
                        self.citers == Some(*v),
                        papers_view(out@) == papers_view(v@.take(i as int)),
                {
                    proof {
                        assert(decreases_to!(self => self.citers));
                        assert(decreases_to!(self.citers => self.citers->0));
                        assert(decreases_to!(self.citers->0 => self.citers->0[i as int]));
                    }
                    let c = v[i].copy();
                    proof {
                        let t = v@.take(i + 1);
                        assert(t.drop_last() == v@.take(i as int));
                        assert(out@.push(c).drop_last() == out@);
                    }
                    out.push(c);
                }
                assert(v@.take(v.len() as int) == v@);
                Some(out)
            },
            None => None,
        };
        Paper {
            title: self.title.clone(),
            link: match &self.link {
                Some(l) => Some(l.clone()),
                None => None,
            },
            cluster_id: self.cluster_id,
            year: self.year,
            citation_count: self.citation_count,
            citers,
            citers_truncated: self.citers_truncated,
            citation_url: self.citation_url.clone(),
        }
    }
}

impl Clone for Paper {
    fn clone(&self) -> (r: Paper)
        ensures
            r@ == self@,
    {
        self.copy()
    }
}

} // verus!
