//! A parsed HTML document as a list of nodes in document order, each with
//! the index of its parent, and the queries extraction needs on it.
use vstd::prelude::*;
use crate::error::ScholarError;
use crate::parse::occurs_at;
use crate::text::{chars_of, is_space, is_space_spec};

verus! {

/// What a node is.
#[derive(Debug)]
pub enum NodeData {
    Element { name: String, attrs: Vec<(String, String)> },
    Text(String),
    Comment(String),
}

/// One node of a document.
#[derive(Debug)]
pub struct HtmlNode {
    /// Index of the enclosing element; `None` at the top level.
    pub parent: Option<usize>,
    pub data: NodeData,
}

/// A parsed document: its nodes in document order.
#[derive(Debug)]
pub struct HtmlDoc {
    pub nodes: Vec<HtmlNode>,
}

/// The longest text parsed, in characters: at most `2^30` bytes of UTF-8,
/// well within the `u32` length of the parser's buffers.
pub const MAX_HTML_CHARS: usize = 268435456;

/// The most `<` characters a parsed text may hold. Every element of the
/// tree comes from a start tag, is implied by one (`html`, `body`, `tbody`,
/// ...) or re-creates a formatting element one opened, so the tree is at
/// most about three times this deep, a depth the parser's recursive
/// flattening of the tree handles on an ordinary thread stack. Result pages
/// hold a few thousand tags.
pub const MAX_HTML_TAGS: usize = 10000;

/// The number of `<` characters in `s`.
pub open spec fn tag_count(s: Seq<char>) -> nat
    decreases s.len(),
{
    if s.len() == 0 {
        0
    } else {
        tag_count(s.drop_last()) + if s.last() == '<' {
            1nat
        } else {
            0nat
        }
    }
}

/// Texts the parser is trusted with.
pub open spec fn within_parse_limits(s: Seq<char>) -> bool {
    s.len() <= MAX_HTML_CHARS && tag_count(s) <= MAX_HTML_TAGS
}

pub proof fn lemma_tag_count_prefix(s: Seq<char>, k: int)
    requires
        0 <= k <= s.len(),
    ensures
        tag_count(s.take(k)) <= tag_count(s),
    decreases s.len(),
{
    if k < s.len() {
        assert(s.drop_last().take(k) == s.take(k));
        lemma_tag_count_prefix(s.drop_last(), k);
    } else {
        assert(s.take(k) == s);
    }
}

/// Whether `html` is within the limits of the parser.
pub fn fits_parser(html: &str) -> (r: bool)
    ensures
        r == within_parse_limits(html@),
{
    let mut n: usize = 0;
    let mut tags: usize = 0;
    for c in it: html.chars()
        invariant
            it.seq() == html@,
            n == it.index(),
            n <= MAX_HTML_CHARS,
            tags == tag_count(html@.take(n as int)),
            tags <= MAX_HTML_TAGS,
    {
        proof {
            assert(html@.take(n + 1).drop_last() == html@.take(n as int));
        }
        if n == MAX_HTML_CHARS {
            return false;
        }
        if c == '<' {
            if tags == MAX_HTML_TAGS {
                proof {
                    lemma_tag_count_prefix(html@, n + 1);
                }
                return false;
            }
            tags = tags + 1;
        }
        n = n + 1;
    }
    assert(html@.take(n as int) == html@);
    true
}

/// The nodes html5ever makes of `html`, in document order.
pub uninterp spec fn parsed_html(html: Seq<char>) -> Seq<HtmlNode>;

/// Relies on `select::document::Document::from(&str)`, which parses with
/// html5ever and lists the nodes in document order with their parents; each
/// node is copied field for field. The limits keep the text within the
/// parser's `u32` buffer length and the tree shallow enough for its
/// recursive flattening.
#[verifier::external_body]
fn parse_nodes(html: &str) -> (r: Vec<HtmlNode>)
    requires
        within_parse_limits(html@),
    ensures
        r@ == parsed_html(html@),
{
    select::document::Document::from(html).nodes.into_iter().map(|n| HtmlNode {
        parent: n.parent,
        data: match n.data {
            select::node::Data::Element(name, attrs) => NodeData::Element {
                name: name.local.to_string(),
                attrs: attrs.into_iter().map(|(k, v)| (k.local.to_string(), v.to_string())).collect(),
            },
            select::node::Data::Text(t) => NodeData::Text(t.to_string()),
            select::node::Data::Comment(c) => NodeData::Comment(c.to_string()),
        },
    }).collect()
}

impl HtmlDoc {
    /// Parses an HTML text; a text beyond the parser's limits is refused.
    pub fn parse(html: &str) -> (r: Result<HtmlDoc, ScholarError>)
        ensures
            match r {
                Ok(d) => within_parse_limits(html@) && d.nodes@ == parsed_html(html@),
                Err(e) => !within_parse_limits(html@) && e == ScholarError::BadHtml,
            },
    {
        if fits_parser(html) {
            Ok(HtmlDoc { nodes: parse_nodes(html) })
        } else {
            Err(ScholarError::BadHtml)
        }
    }
}

// ---------------------------------------------------------------- structure

/// The parent of node `j`; a parent index that does not come before `j`
/// is not one, and such a node counts as top-level.
pub open spec fn parent_of(nodes: Seq<HtmlNode>, j: int) -> Option<int> {
    match nodes[j].parent {
        Some(p) => if p < j {
            Some(p as int)
        } else {
            None
        },
        None => None,
    }
}

/// Node `j` is node `a` or lies inside it.
pub open spec fn within(nodes: Seq<HtmlNode>, a: int, j: int) -> bool
    decreases j,
{
    if j == a {
        true
    } else if j < 0 || j >= nodes.len() {
        false
    } else {
        match parent_of(nodes, j) {
            Some(p) => p >= 0 && within(nodes, a, p),
            None => false,
        }
    }
}

/// Node `j` lies inside node `a`.
pub open spec fn inside(nodes: Seq<HtmlNode>, a: int, j: int) -> bool {
    j != a && within(nodes, a, j)
}

pub open spec fn is_element_named(n: HtmlNode, name: Seq<char>) -> bool {
    match n.data {
        NodeData::Element { name: m, .. } => m@ == name,
        _ => false,
    }
}

pub open spec fn is_text(n: HtmlNode) -> bool {
    n.data is Text
}

/// The value of the first attribute at or after `i` named `name`.
pub open spec fn attr_from(attrs: Seq<(String, String)>, name: Seq<char>, i: int) -> Option<
    Seq<char>,
>
    decreases attrs.len() - i,
{
    if i < 0 || i >= attrs.len() {
        None
    } else if attrs[i].0@ == name {
        Some(attrs[i].1@)
    } else {
        attr_from(attrs, name, i + 1)
    }
}

/// The value of attribute `name` of an element.
pub open spec fn attr_of(n: HtmlNode, name: Seq<char>) -> Option<Seq<char>> {
    match n.data {
        NodeData::Element { attrs, .. } => attr_from(attrs@, name, 0),
        _ => None,
    }
}

/// `tok` stands in `s` at `k` as a whole whitespace-separated word.
pub open spec fn token_at(s: Seq<char>, tok: Seq<char>, k: int) -> bool {
    &&& occurs_at(s, k, tok)
    &&& (k == 0 || is_space_spec(s[k - 1]))
    &&& (k + tok.len() == s.len() || is_space_spec(s[k + tok.len()]))
}

pub open spec fn has_token(s: Seq<char>, tok: Seq<char>) -> bool {
    exists|k: int| token_at(s, tok, k)
}

/// The element's `class` attribute lists `class`.
pub open spec fn has_class(n: HtmlNode, class: Seq<char>) -> bool {
    match attr_of(n, "class"@) {
        Some(v) => has_token(v, class),
        None => false,
    }
}

/// Some element enclosing node `j` lists `class`.
pub open spec fn ancestor_with_class(nodes: Seq<HtmlNode>, j: int, class: Seq<char>) -> bool
    decreases j,
{
    if j < 0 || j >= nodes.len() {
        false
    } else {
        match parent_of(nodes, j) {
            Some(p) => p >= 0 && (has_class(nodes[p], class) || ancestor_with_class(
                nodes,
                p,
                class,
            )),
            None => false,
        }
    }
}

/// Some element enclosing node `j` has attribute `name` equal to `value`.
pub open spec fn ancestor_with_attr(
    nodes: Seq<HtmlNode>,
    j: int,
    name: Seq<char>,
    value: Seq<char>,
) -> bool
    decreases j,
{
    if j < 0 || j >= nodes.len() {
        false
    } else {
        match parent_of(nodes, j) {
            Some(p) => p >= 0 && (attr_of(nodes[p], name) == Some(value) || ancestor_with_attr(
                nodes,
                p,
                name,
                value,
            )),
            None => false,
        }
    }
}

/// The text that node `j` adds to the text of node `a`.
pub open spec fn text_piece(nodes: Seq<HtmlNode>, a: int, j: int) -> Seq<char> {
    if within(nodes, a, j) {
        match nodes[j].data {
            NodeData::Text(t) => t@,
            _ => Seq::empty(),
        }
    } else {
        Seq::empty()
    }
}

/// The text of the nodes of `a` that come before index `k`.
pub open spec fn text_upto(nodes: Seq<HtmlNode>, a: int, k: int) -> Seq<char>
    decreases k - a,
{
    if k <= a {
        Seq::empty()
    } else {
        text_upto(nodes, a, k - 1) + text_piece(nodes, a, k - 1)
    }
}

/// The text of node `a`: its own text and that of all nodes inside it, in
/// document order.
pub open spec fn text_of(nodes: Seq<HtmlNode>, a: int) -> Seq<char> {
    text_upto(nodes, a, nodes.len() as int)
}

// ---------------------------------------------------------------- exec

/// Whether two strings hold the same characters.
pub fn same_text(a: &String, b: &String) -> (r: bool)
    ensures
        r == (a@ == b@),
{
    a.eq(b)
}

pub fn parent_index(nodes: &Vec<HtmlNode>, j: usize) -> (r: Option<usize>)
    requires
        j < nodes.len(),
    ensures
        match r {
            Some(p) => parent_of(nodes@, j as int) == Some(p as int),
            None => parent_of(nodes@, j as int) is None,
        },
{
    match nodes[j].parent {
        Some(p) => if p < j {
            Some(p)
        } else {
            None
        },
        None => None,
    }
}

pub fn within_exec(nodes: &Vec<HtmlNode>, a: usize, j: usize) -> (r: bool)
    requires
        j < nodes.len(),
    ensures
        r == within(nodes@, a as int, j as int),
{
    let mut cur = j;
    while cur != a
        invariant
            cur < nodes.len(),
            within(nodes@, a as int, j as int) == within(nodes@, a as int, cur as int),
        decreases cur,
    {
        match parent_index(nodes, cur) {
            Some(p) => {
                cur = p;
            },
            None => {
                return false;
            },
        }
    }
    true
}

pub fn is_element_named_exec(n: &HtmlNode, name: &String) -> (r: bool)
    ensures
        r == is_element_named(*n, name@),
{
    match &n.data {
        NodeData::Element { name: m, .. } => same_text(m, name),
        _ => false,
    }
}

pub fn attr_exec<'a>(n: &'a HtmlNode, name: &String) -> (r: Option<&'a String>)
    ensures
        match r {
            Some(v) => attr_of(*n, name@) == Some(v@),
            None => attr_of(*n, name@) is None,
        },
{
    match &n.data {
        NodeData::Element { attrs, .. } => {
            let mut i: usize = 0;
            while i < attrs.len()
                invariant
                    i <= attrs.len(),
                    attr_of(*n, name@) == attr_from(attrs@, name@, i as int),
                decreases attrs.len() - i,
            {
                if same_text(&attrs[i].0, name) {
                    return Some(&attrs[i].1);
                }
                i = i + 1;
            }
            None
        },
        _ => None,
    }
}

fn token_at_exec(s: &Vec<char>, tok: &Vec<char>, k: usize) -> (r: bool)
    requires
        k <= s.len(),
    ensures
        r == token_at(s@, tok@, k as int),
{
    if tok.len() > s.len() - k {
        return false;
    }
    let mut i: usize = 0;
    while i < tok.len()
        invariant
            k + tok.len() <= s.len(),
            i <= tok.len(),
            s@.subrange(k as int, k + i) == tok@.take(i as int),
        decreases tok.len() - i,
    {
        if s[k + i] != tok[i] {
            assert(s@.subrange(k as int, k + tok.len())[i as int] != tok@[i as int]);
            return false;
        }
        assert(s@.subrange(k as int, k + i + 1) == tok@.take(i + 1));
        i = i + 1;
    }
    assert(tok@.take(tok.len() as int) == tok@);
    (k == 0 || is_space(s[k - 1])) && (k + tok.len() == s.len() || is_space(s[k + tok.len()]))
}

/// Whether `tok` is one of the whitespace-separated words of `s`.
pub fn has_token_exec(s: &str, tok: &str) -> (r: bool)
    ensures
        r == has_token(s@, tok@),
{
    let sc = chars_of(s);
    let tc = chars_of(tok);
    let mut k: usize = 0;
    while k < sc.len()
        invariant
            sc@ == s@,
            tc@ == tok@,
            k <= sc.len(),
            forall|i: int| 0 <= i < k ==> !token_at(s@, tok@, i),
        decreases sc.len() - k,
    {
        if token_at_exec(&sc, &tc, k) {
            return true;
        }
        k = k + 1;
    }
    if token_at_exec(&sc, &tc, k) {
        return true;
    }
    assert forall|i: int| !token_at(s@, tok@, i) by {
        if 0 <= i <= k {
        } else {
            assert(!occurs_at(s@, i, tok@));
        }
    }
    false
}

pub fn has_class_exec(n: &HtmlNode, class: &str) -> (r: bool)
    ensures
        r == has_class(*n, class@),
{
    let key = String::from_str("class");
    match attr_exec(n, &key) {
        Some(v) => has_token_exec(v.as_str(), class),
        None => false,
    }
}

pub fn ancestor_with_class_exec(nodes: &Vec<HtmlNode>, j: usize, class: &str) -> (r: bool)
    requires
        j < nodes.len(),
    ensures
        r == ancestor_with_class(nodes@, j as int, class@),
{
    let mut cur = j;
    loop
        invariant
            cur < nodes.len(),
            ancestor_with_class(nodes@, j as int, class@) == ancestor_with_class(
                nodes@,
                cur as int,
                class@,
            ),
        decreases cur,
    {
        match parent_index(nodes, cur) {
            Some(p) => {
                if has_class_exec(&nodes[p], class) {
                    return true;
                }
                cur = p;
            },
            None => {
                return false;
            },
        }
    }
}

pub fn ancestor_with_attr_exec(nodes: &Vec<HtmlNode>, j: usize, name: &String, value: &String) -> (r:
    bool)
    requires
        j < nodes.len(),
    ensures
        r == ancestor_with_attr(nodes@, j as int, name@, value@),
{
    let mut cur = j;
    loop
        invariant
            cur < nodes.len(),
            ancestor_with_attr(nodes@, j as int, name@, value@) == ancestor_with_attr(
                nodes@,
                cur as int,
                name@,
                value@,
            ),
        decreases cur,
    {
        match parent_index(nodes, cur) {
            Some(p) => {
                let hit = match attr_exec(&nodes[p], name) {
                    Some(v) => same_text(v, value),
                    None => false,
                };
                if hit {
                    return true;
                }
                cur = p;
            },
            None => {
                return false;
            },
        }
    }
}

/// The text of node `a` and everything inside it.
pub fn text_exec(nodes: &Vec<HtmlNode>, a: usize) -> (r: String)
    requires
        a < nodes.len(),
    ensures
        r@ == text_of(nodes@, a as int),
{
    let mut out = String::new();
    let mut j: usize = a;
    while j < nodes.len()
        invariant
            a <= j <= nodes.len(),
            out@ == text_upto(nodes@, a as int, j as int),
        decreases nodes.len() - j,
    {
        if within_exec(nodes, a, j) {
            match &nodes[j].data {
                NodeData::Text(t) => out.append(t.as_str()),
                _ => {},
            }
        }
        j = j + 1;
    }
    out
}

} // verus!
