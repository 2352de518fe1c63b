//! Lines-of-code figures shown on the about page.
use vstd::prelude::*;

use crate::text::{chars_slice, decimal, decimal_chars, string_from_chars, string_views};

verus! {

/// Lines of code across the tracked repositories.
#[derive(Debug)]
pub struct GitHubStats {
    pub total_loc: u64,
    pub repos: Vec<String>,
}

/// The repositories whose lines are counted.
pub open spec fn tracked_repos_spec() -> Seq<Seq<char>> {
    seq![
        "enerBydev/enerby-dev"@,
        "enerBydev/oc_diagdoc"@,
        "enerBydev/Affinity-Legacy-Bridge"@,
        "enerBydev/VideoGIniusAI"@,
    ]
}

/// The repositories whose lines are counted.
pub fn tracked_repos() -> (r: Vec<String>)
    ensures
        string_views(r@) == tracked_repos_spec(),
{
    let mut r: Vec<String> = Vec::new();
    r.push("enerBydev/enerby-dev".to_owned());
    r.push("enerBydev/oc_diagdoc".to_owned());
    r.push("enerBydev/Affinity-Legacy-Bridge".to_owned());
    r.push("enerBydev/VideoGIniusAI".to_owned());
    assert(string_views(r@) =~= tracked_repos_spec());
    r
}

/// The current figures: an estimate of 35,847 lines over the tracked repositories.
pub fn get_github_stats() -> (r: GitHubStats)
    ensures
        r.total_loc == 35_847,
        string_views(r.repos@) == tracked_repos_spec(),
{
    GitHubStats { total_loc: 35_847, repos: tracked_repos() }
}

/// Digits grouped in threes from the right, the groups separated by commas.
pub open spec fn grouped(digits: Seq<char>) -> Seq<char>
    decreases digits.len(),
{
    if digits.len() <= 3 {
        digits
    } else {
        grouped(digits.subrange(0, digits.len() - 3)).push(',') + digits.subrange(
            digits.len() - 3,
            digits.len() as int,
        )
    }
}

fn group_digits(d: &Vec<char>, n: usize) -> (r: Vec<char>)
    requires
        n <= d@.len(),
    ensures
        r@ == grouped(d@.subrange(0, n as int)),
    decreases n,
{
    if n <= 3 {
        chars_slice(d, 0, n)
    } else {
        let mut r = group_digits(d, n - 3);
        r.push(',');
        let tail = chars_slice(d, n - 3, n);
        let mut k: usize = 0;
        let ghost head = r@;
        while k < tail.len()
            invariant
                k <= tail@.len(),
                r@ == head + tail@.subrange(0, k as int),
            decreases tail@.len() - k,
        {
            r.push(tail[k]);
            k = k + 1;
            assert(r@ =~= head + tail@.subrange(0, k as int));
        }
        let ghost pre = d@.subrange(0, n as int);
        assert(pre.subrange(0, pre.len() - 3) =~= d@.subrange(0, n - 3));
        assert(pre.subrange(pre.len() - 3, pre.len() as int) =~= tail@);
        assert(tail@.subrange(0, k as int) =~= tail@);
        r
    }
}

/// `loc` in decimal with thousands separators, e.g. `42,847`.
pub fn format_loc(loc: u64) -> (r: String)
    ensures
        r@ == grouped(decimal(loc as nat)),
{
    let d = decimal_chars(loc);
    let g = group_digits(&d, d.len());
    assert(d@.subrange(0, d@.len() as int) =~= d@);
    string_from_chars(g.as_slice())
}

} // verus!
