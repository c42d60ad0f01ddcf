//! Bounded-depth expansion of citation trees.
//!
//! Fetching is left to the caller. The crawl is a function of the pages
//! fetched so far: given the outcomes of the fetches made up to now, in the
//! order they were asked for, it says which URL to fetch next, or gives the
//! finished tree. The caller runs it, fetches what it asks for, appends the
//! outcome and runs it again. Papers are visited depth first, children in
//! page order; a failing descendant is dropped from its parent's citers,
//! while a failing root fails the crawl. Unless the configuration asks for
//! silent pruning, a parent that lost a citer this way is marked with
//! `citers_truncated`.
use vstd::prelude::*;
use crate::error::ScholarError;
use crate::paper::{lemma_papers_view, papers_view, Paper, PaperView};
use crate::request::{citation_list_url, clamp_count, CitationQuery, CitationQueryView, Query, DEFAULT_MAX_RESULT_COUNT};
use crate::scrape::{is_blocked_page, paper_result_view, target_with_citers, CitationDocument, PapersDocument};

verus! {

broadcast use vstd::std_specs::vec::group_vec_axioms;

/// How results are shown to the user.
#[derive(Clone, Copy, Debug, PartialEq, Eq, Structural)]
pub enum OutputFormat {
    HumanReadable,
    Json,
}

/// Settings of a run.
#[derive(Clone, Copy, Debug)]
pub struct Config {
    /// Results per page asked for; the query's default when `None`.
    pub max_result_count: Option<u32>,
    /// How many levels of citers to fetch.
    pub recursive_depth: u32,
    pub output_format: OutputFormat,
    pub verbose: bool,
    /// Mark papers whose citers lost a failed branch (`true` by default);
    /// when `false` such branches are dropped silently.
    pub mark_truncated: bool,
}

impl Config {
    pub fn new(
        max_result_count: Option<u32>,
        recursive_depth: u32,
        output_format: OutputFormat,
        verbose: bool,
    ) -> (r: Config)
        ensures
            r.max_result_count == max_result_count,
            r.recursive_depth == recursive_depth,
            r.output_format == output_format,
            r.verbose == verbose,
            r.mark_truncated,
    {
        Config { max_result_count, recursive_depth, output_format, verbose, mark_truncated: true }
    }
}

/// What the crawl needs next.
#[derive(Debug)]
pub enum CrawlStep {
    /// Fetch this URL, interpret the page, and run the crawl again with the
    /// outcome appended.
    Fetch(String),
    /// The crawl is over.
    Done(Result<Paper, ScholarError>),
}

/// What the crawl of a list of papers needs next.
#[derive(Debug)]
pub enum ListStep {
    Fetch(String),
    /// The papers whose expansion succeeded, in their given order, and
    /// whether any failed.
    Done(Vec<Paper>, bool),
}

/// A crawl in progress, as a mathematical value: waiting for the page at a
/// URL, or finished with a result after using the outcomes before `used`.
pub enum Expansion<T> {
    Pending(Seq<char>),
    Finished(T, int),
}

/// The URL of the list of citers of `p`, asking for `cap` results.
pub open spec fn citers_url(p: PaperView, cap: Option<u32>) -> Seq<char> {
    citation_list_url(
        CitationQueryView {
            citation_url: p.citation_url,
            max_result_count: match cap {
                Some(c) => clamp_count(c),
                None => DEFAULT_MAX_RESULT_COUNT,
            },
        },
    )
}

pub open spec fn citers_of(t: PaperView) -> Seq<PaperView> {
    match t.citers {
        Some(cs) => cs,
        None => Seq::empty(),
    }
}

/// Expanding `p` to `depth` levels, reading page outcomes from `pos` on;
/// `mark` says whether a parent that lost a citer is marked.
pub open spec fn expand(
    p: PaperView,
    depth: nat,
    cap: Option<u32>,
    mark: bool,
    pages: Seq<Result<PaperView, ScholarError>>,
    pos: int,
) -> Expansion<Result<PaperView, ScholarError>>
    decreases depth, 0int,
{
    if depth == 0 {
        Expansion::Finished(Ok(p), pos)
    } else if pos < 0 || pos >= pages.len() {
        Expansion::Pending(citers_url(p, cap))
    } else {
        match pages[pos] {
            Err(e) => Expansion::Finished(Err(e), pos + 1),
            Ok(t) => match expand_list_from(
                citers_of(t),
                0,
                (depth - 1) as nat,
                cap,
                mark,
                pages,
                pos + 1,
                Seq::empty(),
                false,
            ) {
                Expansion::Pending(u) => Expansion::Pending(u),
                Expansion::Finished((kids, dropped), q) => Expansion::Finished(
                    Ok(PaperView { citers: Some(kids), citers_truncated: mark && dropped, ..p }),
                    q,
                ),
            },
        }
    }
}

/// Expanding `cs[i..]` one after the other to `depth` levels, adding each
/// success to `acc` and dropping each failure; `dropped` records whether
/// one was dropped.
pub open spec fn expand_list_from(
    cs: Seq<PaperView>,
    i: int,
    depth: nat,
    cap: Option<u32>,
    mark: bool,
    pages: Seq<Result<PaperView, ScholarError>>,
    pos: int,
    acc: Seq<PaperView>,
    dropped: bool,
) -> Expansion<(Seq<PaperView>, bool)>
    decreases depth, cs.len() - i,
{
    if i < 0 || i >= cs.len() {
        Expansion::Finished((acc, dropped), pos)
    } else {
        match expand(cs[i], depth, cap, mark, pages, pos) {
            Expansion::Pending(u) => Expansion::Pending(u),
            Expansion::Finished(r, q) => match r {
                Ok(x) => expand_list_from(cs, i + 1, depth, cap, mark, pages, q, acc.push(x), dropped),
                Err(_) => expand_list_from(cs, i + 1, depth, cap, mark, pages, q, acc, true),
            },
        }
    }
}

pub open spec fn outcomes_view(pages: Seq<Result<Paper, ScholarError>>) -> Seq<Result<PaperView, ScholarError>> {
    pages.map_values(|r: Result<Paper, ScholarError>| paper_result_view(r))
}

/// The outcome of fetching a citation list page: the paper it is about
/// with its citers, unless the page is blocked or malformed.
pub open spec fn page_outcome(nodes: Seq<crate::html::HtmlNode>) -> Result<PaperView, ScholarError> {
    if is_blocked_page(nodes) {
        Err(ScholarError::Blocked)
    } else {
        target_with_citers(nodes)
    }
}

/// Interprets a fetched citation list page for the crawl.
pub fn citation_page_outcome(doc: &CitationDocument) -> (r: Result<Paper, ScholarError>)
    ensures
        paper_result_view(r) == page_outcome(doc.0.nodes@),
{
    if doc.is_blocked() {
        return Err(ScholarError::Blocked);
    }
    doc.scrape_target_paper_with_citers()
}

/// The URL of the citers of `p`.
pub fn citers_request(p: &Paper, cap: Option<u32>) -> (r: String)
    ensures
        r@ == citers_url(p@, cap),
{
    let mut q = CitationQuery::new(p.citation_url.as_str());
    match cap {
        Some(c) => q.set_count(c),
        None => {},
    }
    match q.to_url() {
        Ok(u) => u,
        Err(_) => String::new(),
    }
}

enum Step<T> {
    Fetch(String),
    Done(T, usize),
}

spec fn step_view(s: Step<Result<Paper, ScholarError>>) -> Expansion<Result<PaperView, ScholarError>> {
    match s {
        Step::Fetch(u) => Expansion::Pending(u@),
        Step::Done(r, q) => Expansion::Finished(paper_result_view(r), q as int),
    }
}

spec fn list_step_view(s: Step<(Vec<Paper>, bool)>) -> Expansion<(Seq<PaperView>, bool)> {
    match s {
        Step::Fetch(u) => Expansion::Pending(u@),
        Step::Done((ps, d), q) => Expansion::Finished((papers_view(ps@), d), q as int),
    }
}

fn expand_exec(
    p: &Paper,
    depth: u32,
    cap: Option<u32>,
    mark: bool,
    pages: &Vec<Result<Paper, ScholarError>>,
    pos: usize,
) -> (r: Step<Result<Paper, ScholarError>>)
    requires
        pos <= pages.len(),
    ensures
        step_view(r) == expand(p@, depth as nat, cap, mark, outcomes_view(pages@), pos as int),
        match r {
            Step::Done(_, q) => pos <= q <= pages.len(),
            Step::Fetch(_) => true,
        },
    decreases depth, 0int,
{
    if depth == 0 {
        return Step::Done(Ok(p.copy()), pos);
    }
    if pos >= pages.len() {
        return Step::Fetch(citers_request(p, cap));
    }
    match &pages[pos] {
        Err(e) => Step::Done(Err(*e), pos + 1),
        Ok(t) => {
            let empty: Vec<Paper> = Vec::new();
            let cs = match &t.citers {
                Some(cs) => cs,
                None => &empty,
            };
            assert(papers_view(cs@) == citers_of(t@));
            match expand_list_exec(cs, depth - 1, cap, mark, pages, pos + 1) {
                Step::Fetch(u) => Step::Fetch(u),
                Step::Done((kids, dropped), q) => {
                    let mut out = p.copy();
                    out.citers = Some(kids);
                    out.citers_truncated = mark && dropped;
                    Step::Done(Ok(out), q)
                },
            }
        },
    }
}

fn expand_list_exec(
    cs: &Vec<Paper>,
    depth: u32,
    cap: Option<u32>,
    mark: bool,
    pages: &Vec<Result<Paper, ScholarError>>,
    pos: usize,
) -> (r: Step<(Vec<Paper>, bool)>)
    requires
        pos <= pages.len(),
    ensures
        list_step_view(r) == expand_list_from(
            papers_view(cs@),
            0,
            depth as nat,
            cap,
            mark,
            outcomes_view(pages@),
            pos as int,
            Seq::empty(),
            false,
        ),
        match r {
            Step::Done(_, q) => pos <= q <= pages.len(),
            Step::Fetch(_) => true,
        },
    decreases depth, 1int,
{
    let ghost ps = outcomes_view(pages@);
    let ghost vs = papers_view(cs@);
    proof {
        lemma_papers_view(cs@);
    }
    let mut out: Vec<Paper> = Vec::new();
    let mut dropped = false;
    let mut at = pos;
    let mut i: usize = 0;
    while i < cs.len()
        invariant
            pos <= at <= pages.len(),
            i <= cs.len(),
            vs == papers_view(cs@),
            vs.len() == cs@.len(),
            forall|k: int| 0 <= k < cs@.len() ==> #[trigger] vs[k] == cs@[k]@,
            ps == outcomes_view(pages@),
            expand_list_from(vs, 0, depth as nat, cap, mark, ps, pos as int, Seq::empty(), false)
                == expand_list_from(
                vs,
                i as int,
                depth as nat,
                cap,
                mark,
                ps,
                at as int,
                papers_view(out@),
                dropped,
            ),
        decreases cs.len() - i,
    {
        match expand_exec(&cs[i], depth, cap, mark, pages, at) {
            Step::Fetch(u) => {
                return Step::Fetch(u);
            },
            Step::Done(r, q) => {
                match r {
                    Ok(x) => {
                        proof {
                            assert(out@.push(x).drop_last() == out@);
                        }
                        out.push(x);
                    },
                    Err(_) => {
                        dropped = true;
                    },
                }
                at = q;
            },
        }
        i = i + 1;
    }
    Step::Done((out, dropped), at)
}


/// Expands `paper` to `cfg.recursive_depth` levels of citers, given the
/// outcomes of the fetches made so far (see the module documentation).
/// The expanded paper keeps its own fields and gets the expanded citers.
pub fn recursive_search(paper: &Paper, cfg: &Config, pages: &Vec<Result<Paper, ScholarError>>) -> (r:
    CrawlStep)
    ensures
        match (
            r,
            expand(
                paper@,
                cfg.recursive_depth as nat,
                cfg.max_result_count,
                cfg.mark_truncated,
                outcomes_view(pages@),
                0,
            ),
        ) {
            (CrawlStep::Fetch(u), Expansion::Pending(v)) => u@ == v,
            (CrawlStep::Done(res), Expansion::Finished(x, _)) => paper_result_view(res) == x,
            _ => false,
        },
{
    match expand_exec(paper, cfg.recursive_depth, cfg.max_result_count, cfg.mark_truncated, pages, 0) {
        Step::Fetch(u) => CrawlStep::Fetch(u),
        Step::Done(res, _) => CrawlStep::Done(res),
    }
}

/// Expands each of `papers` to `cfg.recursive_depth` levels, one after the
/// other, dropping those whose expansion fails.
pub fn recursive_search_all(
    papers: &Vec<Paper>,
    cfg: &Config,
    pages: &Vec<Result<Paper, ScholarError>>,
) -> (r: ListStep)
    ensures
        match (
            r,
            expand_list_from(
                papers_view(papers@),
                0,
                cfg.recursive_depth as nat,
                cfg.max_result_count,
                cfg.mark_truncated,
                outcomes_view(pages@),
                0,
                Seq::empty(),
                false,
            ),
        ) {
            (ListStep::Fetch(u), Expansion::Pending(v)) => u@ == v,
            (ListStep::Done(ps, d), Expansion::Finished((x, e), _)) => papers_view(ps@) == x && d == e,
            _ => false,
        },
{
    match expand_list_exec(
        papers,
        cfg.recursive_depth,
        cfg.max_result_count,
        cfg.mark_truncated,
        pages,
        0,
    ) {
        Step::Fetch(u) => ListStep::Fetch(u),
        Step::Done((ps, d), _) => ListStep::Done(ps, d),
    }
}

/// Gives `paper` the citers that a list crawl of its listed citers kept,
/// marking it when one was dropped and `cfg` asks for the marker.
pub fn attach_citers(paper: &mut Paper, citers: Vec<Paper>, dropped: bool, cfg: &Config)
    ensures
        final(paper)@ == (PaperView {
            citers: Some(papers_view(citers@)),
            citers_truncated: cfg.mark_truncated && dropped,
            ..old(paper)@
        }),
{
    paper.citers = Some(citers);
    paper.citers_truncated = cfg.mark_truncated && dropped;
}

/// Expanding to depth zero gives the paper back unchanged, citers
/// included, without asking for any page.
pub proof fn lemma_depth_zero_is_identity(
    p: PaperView,
    cap: Option<u32>,
    mark: bool,
    pages: Seq<Result<PaperView, ScholarError>>,
    pos: int,
)
    ensures
        expand(p, 0, cap, mark, pages, pos) == Expansion::<
            Result<PaperView, ScholarError>,
        >::Finished(Ok(p), pos),
{
}

/// The outcomes of expanding `cs[i..]` one after the other, as far as the
/// pages read so far reach.
pub open spec fn child_results(
    cs: Seq<PaperView>,
    i: int,
    depth: nat,
    cap: Option<u32>,
    mark: bool,
    pages: Seq<Result<PaperView, ScholarError>>,
    pos: int,
) -> Seq<Result<PaperView, ScholarError>>
    decreases cs.len() - i,
{
    if i < 0 || i >= cs.len() {
        Seq::empty()
    } else {
        match expand(cs[i], depth, cap, mark, pages, pos) {
            Expansion::Pending(_) => Seq::empty(),
            Expansion::Finished(r, q) => seq![r] + child_results(
                cs,
                i + 1,
                depth,
                cap,
                mark,
                pages,
                q,
            ),
        }
    }
}

/// The successful outcomes, in order.
pub open spec fn successes(rs: Seq<Result<PaperView, ScholarError>>) -> Seq<PaperView>
    decreases rs.len(),
{
    if rs.len() == 0 {
        Seq::empty()
    } else {
        let head: Seq<PaperView> = match rs[0] {
            Ok(x) => seq![x],
            Err(_) => Seq::empty(),
        };
        head + successes(rs.drop_first())
    }
}

pub open spec fn any_failure(rs: Seq<Result<PaperView, ScholarError>>) -> bool {
    exists|j: int| 0 <= j < rs.len() && (#[trigger] rs[j]) is Err
}

proof fn lemma_list_from(
    cs: Seq<PaperView>,
    i: int,
    depth: nat,
    cap: Option<u32>,
    mark: bool,
    pages: Seq<Result<PaperView, ScholarError>>,
    pos: int,
    acc: Seq<PaperView>,
    dropped: bool,
)
    requires
        0 <= i <= cs.len(),
        expand_list_from(cs, i, depth, cap, mark, pages, pos, acc, dropped) is Finished,
    ensures
        ({
            let rs = child_results(cs, i, depth, cap, mark, pages, pos);
            let f = expand_list_from(cs, i, depth, cap, mark, pages, pos, acc, dropped)->Finished_0;
            &&& rs.len() == cs.len() - i
            &&& f.0 == acc + successes(rs)
            &&& f.1 == (dropped || any_failure(rs))
        }),
    decreases cs.len() - i,
{
    let rs = child_results(cs, i, depth, cap, mark, pages, pos);
    if i < cs.len() {
        let e = expand(cs[i], depth, cap, mark, pages, pos);
        let r = e->Finished_0;
        let q = e->Finished_1;
        let acc2 = match r {
            Ok(x) => acc.push(x),
            Err(_) => acc,
        };
        let d2 = match r {
            Ok(_) => dropped,
            Err(_) => true,
        };
        lemma_list_from(cs, i + 1, depth, cap, mark, pages, q, acc2, d2);
        let rest = child_results(cs, i + 1, depth, cap, mark, pages, q);
        assert(rs == seq![r] + rest);
        assert(rs.drop_first() == rest);
        assert(rs[0] == r);
        match r {
            Ok(x) => {
                assert(acc.push(x) + successes(rest) == acc + (seq![x] + successes(rest)));
            },
            Err(_) => {
                assert(acc + successes(rest) == acc + (Seq::<PaperView>::empty() + successes(
                    rest,
                )));
                assert(any_failure(rs)) by {
                    assert(rs[0] is Err);
                }
            },
        }
        if any_failure(rest) {
            let j = choose|j: int| 0 <= j < rest.len() && (#[trigger] rest[j]) is Err;
            assert(rs[j + 1] == rest[j]);
        }
        if any_failure(rs) {
            let j = choose|j: int| 0 <= j < rs.len() && (#[trigger] rs[j]) is Err;
            if j > 0 {
                assert(rest[j - 1] == rs[j]);
            }
        }
    } else {
        assert(acc + successes(rs) == acc);
    }
}

/// Once a paper's own citation page has been read and the expansions of
/// its citers have all come back, its expansion succeeds: its citers are
/// the expanded citers whose expansion succeeded, in page order, a citer
/// whose page was blocked or failed is left out, and the paper is marked
/// exactly when marking is on and some citer was left out.
pub proof fn lemma_failed_citers_are_pruned(
    p: PaperView,
    depth: nat,
    cap: Option<u32>,
    mark: bool,
    pages: Seq<Result<PaperView, ScholarError>>,
    pos: int,
)
    requires
        depth >= 1,
        0 <= pos < pages.len(),
        pages[pos] is Ok,
        expand(p, depth, cap, mark, pages, pos) is Finished,
    ensures
        ({
            let cs = citers_of(pages[pos]->Ok_0);
            let rs = child_results(cs, 0, (depth - 1) as nat, cap, mark, pages, pos + 1);
            &&& rs.len() == cs.len()
            &&& expand(p, depth, cap, mark, pages, pos)->Finished_0 == Ok::<
                PaperView,
                ScholarError,
            >(
                PaperView {
                    citers: Some(successes(rs)),
                    citers_truncated: mark && any_failure(rs),
                    ..p
                },
            )
        }),
{
    let cs = citers_of(pages[pos]->Ok_0);
    lemma_list_from(cs, 0, (depth - 1) as nat, cap, mark, pages, pos + 1, Seq::empty(), false);
    let rs = child_results(cs, 0, (depth - 1) as nat, cap, mark, pages, pos + 1);
    assert(Seq::<PaperView>::empty() + successes(rs) == successes(rs));
}

} // verus!
