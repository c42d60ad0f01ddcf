//! Numbers mined from the text of a result page: publication years, cluster
//! ids in link targets, and citation counts in link labels.
use vstd::prelude::*;
use crate::error::ScholarError;
use crate::text::{all_digits, lemma_decimal_value_bound, pow10, chars_of, decimal_value, digits_to_u64, is_digit, is_digit_spec, is_space, is_space_spec};

verus! {

/// Whether `k` occurs in `s` at position `i`.
pub open spec fn occurs_at(s: Seq<char>, i: int, k: Seq<char>) -> bool {
    0 <= i && i + k.len() <= s.len() && s.subrange(i, i + k.len()) == k
}

pub open spec fn cluster_key() -> Seq<char> {
    seq!['c', 'l', 'u', 's', 't', 'e', 'r', '=']
}

pub open spec fn cites_key() -> Seq<char> {
    seq!['c', 'i', 't', 'e', 's', '=']
}

/// The end of the run of ASCII digits that starts at `j`.
pub open spec fn digit_run_end(s: Seq<char>, j: int) -> int
    decreases s.len() - j,
{
    if 0 <= j < s.len() && is_digit_spec(s[j]) {
        digit_run_end(s, j + 1)
    } else {
        j
    }
}

/// Where the digits start when a `cluster=<digits>` or `cites=<digits>`
/// parameter begins at `i`.
pub open spec fn id_digits_at(s: Seq<char>, i: int) -> Option<int> {
    if occurs_at(s, i, cluster_key()) && i + 8 < s.len() && is_digit_spec(s[i + 8]) {
        Some(i + 8)
    } else if occurs_at(s, i, cites_key()) && i + 6 < s.len() && is_digit_spec(s[i + 6]) {
        Some(i + 6)
    } else {
        None
    }
}

/// The first position at or after `from` where an id parameter begins.
pub open spec fn first_id_param(s: Seq<char>, from: int) -> Option<int>
    decreases s.len() - from,
{
    if from < 0 || from >= s.len() {
        None
    } else if id_digits_at(s, from) is Some {
        Some(from)
    } else {
        first_id_param(s, from + 1)
    }
}

/// The cluster id carried by a link target: the digits of its first
/// `cluster=` or `cites=` parameter, if they fit in 64 bits.
pub open spec fn cluster_id_of(s: Seq<char>) -> Option<u64> {
    match first_id_param(s, 0) {
        None => None,
        Some(i) => {
            let j = id_digits_at(s, i)->0;
            let v = decimal_value(s.subrange(j, digit_run_end(s, j)));
            if v <= u64::MAX {
                Some(v as u64)
            } else {
                None
            }
        },
    }
}

/// The first position at or after `from` that holds an ASCII digit.
pub open spec fn first_digit_from(s: Seq<char>, from: int) -> Option<int>
    decreases s.len() - from,
{
    if from < 0 || from >= s.len() {
        None
    } else if is_digit_spec(s[from]) {
        Some(from)
    } else {
        first_digit_from(s, from + 1)
    }
}

/// The citation count in a link label: its first run of digits, whatever
/// language the words around it are in, if it fits in 32 bits.
pub open spec fn citation_count_of(s: Seq<char>) -> Option<u32> {
    match first_digit_from(s, 0) {
        None => None,
        Some(j) => {
            let v = decimal_value(s.subrange(j, digit_run_end(s, j)));
            if v <= u32::MAX {
                Some(v as u32)
            } else {
                None
            }
        },
    }
}

/// A four-digit year from 1800 to 2099 starts at `j`.
pub open spec fn year_at(s: Seq<char>, j: int) -> bool {
    &&& 0 <= j
    &&& j + 4 <= s.len()
    &&& (s[j] == '1' && (s[j + 1] == '8' || s[j + 1] == '9')) || (s[j] == '2' && s[j + 1] == '0')
    &&& is_digit_spec(s[j + 2])
    &&& is_digit_spec(s[j + 3])
}

/// A field separator (whitespace, dash, whitespace) starts at `p`.
pub open spec fn separator_at(s: Seq<char>, p: int) -> bool {
    0 <= p && p + 3 <= s.len() && is_space_spec(s[p]) && s[p + 1] == '-' && is_space_spec(s[p + 2])
}

/// The last position before `k` where a year starts.
pub open spec fn last_year_before(s: Seq<char>, k: int) -> Option<int>
    decreases k,
{
    if k <= 0 {
        None
    } else if year_at(s, k - 1) {
        Some(k - 1)
    } else {
        last_year_before(s, k - 1)
    }
}

/// The first position at or after `from` where a separator starts.
pub open spec fn first_separator_from(s: Seq<char>, from: int) -> Option<int>
    decreases s.len() - from,
{
    if from < 0 || from >= s.len() {
        None
    } else if separator_at(s, from) {
        Some(from)
    } else {
        first_separator_from(s, from + 1)
    }
}

/// The year in a byline such as `author - journal, 1999 - publisher`: the
/// last year in the text, provided a separator comes before it.
pub open spec fn year_of(s: Seq<char>) -> Option<u32> {
    match (last_year_before(s, s.len() as int), first_separator_from(s, 0)) {
        (Some(j), Some(p)) => if p + 3 <= j {
            Some(decimal_value(s.subrange(j, j + 4)) as u32)
        } else {
            None
        },
        _ => None,
    }
}

/// The search for an id parameter stops at the first place one begins.
pub proof fn lemma_first_id_param(s: Seq<char>, from: int, k: int)
    requires
        0 <= from <= k < s.len(),
        id_digits_at(s, k) is Some,
        forall|i: int| from <= i < k ==> id_digits_at(s, i) is None,
    ensures
        first_id_param(s, from) == Some(k),
    decreases k - from,
{
    if from < k {
        lemma_first_id_param(s, from + 1, k);
    }
}

/// A run of digits that reaches the end of the text ends there.
pub proof fn lemma_digit_run_to_end(s: Seq<char>, j: int)
    requires
        0 <= j <= s.len(),
        all_digits(s.subrange(j, s.len() as int)),
    ensures
        digit_run_end(s, j) == s.len(),
    decreases s.len() - j,
{
    if j < s.len() {
        assert(s.subrange(j, s.len() as int)[0] == s[j]);
        assert(s.subrange(j + 1, s.len() as int) == s.subrange(j, s.len() as int).drop_first());
        lemma_digit_run_to_end(s, j + 1);
    }
}

fn occurs_at_exec(s: &Vec<char>, i: usize, k: &Vec<char>) -> (r: bool)
    ensures
        r == occurs_at(s@, i as int, k@),
{
    if i > s.len() || k.len() > s.len() - i {
        return false;
    }
    let mut j: usize = 0;
    while j < k.len()
        invariant
            i + k.len() <= s.len(),
            j <= k.len(),
            s@.subrange(i as int, i + j) == k@.take(j as int),
        decreases k.len() - j,
    {
        if s[i + j] != k[j] {
            assert(s@.subrange(i as int, i + k.len())[j as int] != k@[j as int]);
            return false;
        }
        assert(s@.subrange(i as int, i + j + 1) == k@.take(j + 1));
        j = j + 1;
    }
    assert(k@.take(k.len() as int) == k@);
    true
}

fn run_end(s: &Vec<char>, j: usize) -> (r: usize)
    requires
        j <= s.len(),
    ensures
        r as int == digit_run_end(s@, j as int),
        j <= r <= s.len(),
        all_digits(s@.subrange(j as int, r as int)),
{
    let mut k: usize = j;
    while k < s.len() && is_digit(s[k])
        invariant
            j <= k <= s.len(),
            digit_run_end(s@, j as int) == digit_run_end(s@, k as int),
            all_digits(s@.subrange(j as int, k as int)),
        decreases s.len() - k,
    {
        assert(s@.subrange(j as int, k + 1) == s@.subrange(j as int, k as int).push(s@[k as int]));
        k = k + 1;
    }
    k
}

/// Reads the cluster id from a link target (`...?cluster=123` or
/// `...?cites=123`).
pub fn parse_cluster_id(url: &str) -> (r: Result<u64, ScholarError>)
    ensures
        r == (match cluster_id_of(url@) {
            Some(v) => Ok(v),
            None => Err(ScholarError::BadHtml),
        }),
{
    let s = chars_of(url);
    let cluster = vec!['c', 'l', 'u', 's', 't', 'e', 'r', '='];
    let cites = vec!['c', 'i', 't', 'e', 's', '='];
    assert(cluster@ == cluster_key());
    assert(cites@ == cites_key());
    let mut i: usize = 0;
    while i < s.len()
        invariant
            s@ == url@,
            cluster@ == cluster_key(),
            cites@ == cites_key(),
            i <= s.len(),
            first_id_param(s@, 0) == first_id_param(s@, i as int),
        decreases s.len() - i,
    {
        let mut start: usize = 0;
        let mut found = false;
        if occurs_at_exec(&s, i, &cluster) && i + 8 < s.len() && is_digit(s[i + 8]) {
            start = i + 8;
            found = true;
        } else if occurs_at_exec(&s, i, &cites) && i + 6 < s.len() && is_digit(s[i + 6]) {
            start = i + 6;
            found = true;
        }
        if found {
            assert(id_digits_at(s@, i as int) == Some(start as int));
            let end = run_end(&s, start);
            return match digits_to_u64(&s, start, end) {
                Some(v) => Ok(v),
                None => Err(ScholarError::BadHtml),
            };
        }
        i = i + 1;
    }
    Err(ScholarError::BadHtml)
}

/// Reads the citation count from a link label such as `Cited by 111`.
pub fn parse_citation_count(label: &str) -> (r: Result<u32, ScholarError>)
    ensures
        r == (match citation_count_of(label@) {
            Some(v) => Ok(v),
            None => Err(ScholarError::BadHtml),
        }),
{
    let s = chars_of(label);
    let mut i: usize = 0;
    while i < s.len()
        invariant
            s@ == label@,
            i <= s.len(),
            first_digit_from(s@, 0) == first_digit_from(s@, i as int),
        decreases s.len() - i,
    {
        if is_digit(s[i]) {
            let end = run_end(&s, i);
            return match digits_to_u64(&s, i, end) {
                Some(v) => if v <= u32::MAX as u64 {
                    Ok(v as u32)
                } else {
                    Err(ScholarError::BadHtml)
                },
                None => Err(ScholarError::BadHtml),
            };
        }
        i = i + 1;
    }
    Err(ScholarError::BadHtml)
}

fn year_at_exec(s: &Vec<char>, j: usize) -> (r: bool)
    ensures
        r == year_at(s@, j as int),
{
    if j > s.len() || s.len() - j < 4 {
        return false;
    }
    ((s[j] == '1' && (s[j + 1] == '8' || s[j + 1] == '9')) || (s[j] == '2' && s[j + 1] == '0'))
        && is_digit(s[j + 2]) && is_digit(s[j + 3])
}

/// Reads the publication year from a byline such as
/// `author - journal, 1999 - publisher`.
pub fn parse_year(byline: &str) -> (r: Result<u32, ScholarError>)
    ensures
        r == (match year_of(byline@) {
            Some(v) => Ok(v),
            None => Err(ScholarError::BadHtml),
        }),
{
    let s = chars_of(byline);
    let mut k: usize = s.len();
    while k > 0 && !year_at_exec(&s, k - 1)
        invariant
            s@ == byline@,
            k <= s.len(),
            last_year_before(s@, s@.len() as int) == last_year_before(s@, k as int),
        decreases k,
    {
        k = k - 1;
    }
    if k == 0 {
        return Err(ScholarError::BadHtml);
    }
    let j = k - 1;
    assert(last_year_before(s@, s@.len() as int) == Some(j as int));
    let mut p: usize = 0;
    while p < s.len()
        invariant
            s@ == byline@,
            p <= s.len(),
            year_at(s@, j as int),
            last_year_before(s@, s@.len() as int) == Some(j as int),
            first_separator_from(s@, 0) == first_separator_from(s@, p as int),
        decreases s.len() - p,
    {
        if s.len() - p >= 3 && is_space(s[p]) && s[p + 1] == '-' && is_space(s[p + 2]) {
            if p + 3 <= j {
                assert(all_digits(s@.subrange(j as int, j + 4)));
                let end = j + 4;
                let v = digits_to_u64(&s, j, end);
                proof {
                    let y = s@.subrange(j as int, end as int);
                    lemma_decimal_value_bound(y);
                    reveal_with_fuel(pow10, 5);
                    assert(pow10(4) == 10000);
                }
                return Ok(v.unwrap() as u32);
            }
            return Err(ScholarError::BadHtml);
        }
        p = p + 1;
    }
    Err(ScholarError::BadHtml)
}

} // verus!
