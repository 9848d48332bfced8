//! The git command lines of the monitor and the reading of their output.

use vstd::prelude::*;
use crate::numbers::{decimal_text, push_decimal};
use crate::text::{lines_of, split_lines, trim, trimmed, views_of};

verus! {

/// Checks a git repository for changes.
#[derive(Debug)]
pub struct GitChecker {
    repo_path: String,
}

/// The commits listed in `rev-list` output: its lines, trimmed, without empty ones.
pub open spec fn commits_of_lines(lines: Seq<Seq<char>>) -> Seq<Seq<char>>
    decreases lines.len(),
{
    if lines.len() == 0 {
        Seq::empty()
    } else {
        let rest = commits_of_lines(lines.drop_last());
        let t = trimmed(lines.last());
        if t.len() > 0 {
            rest.push(t)
        } else {
            rest
        }
    }
}

/// The revision naming the upstream of `branch`.
pub open spec fn upstream_rev(branch: Seq<char>) -> Seq<char> {
    branch + "@{u}"@
}

/// The `git` arguments listing, oldest first, the commits of the last `days` days that
/// lead to `end` (after `start`, when given).
pub open spec fn rev_list_args_of(start: Option<Seq<char>>, end: Seq<char>, days: u32) -> Seq<
    Seq<char>,
> {
    seq![
        "rev-list"@,
        "--since="@ + decimal_text(days as nat) + " days ago"@,
        "--reverse"@,
        match start {
            Some(s) => s + ".."@ + end,
            None => end,
        },
    ]
}

impl GitChecker {
    /// Creates a new `GitChecker` for the specified repository path.
    pub fn new(repo_path: &str) -> (g: Self)
        ensures
            g.repo_path()@ == repo_path@,
    {
        GitChecker { repo_path: String::from_str(repo_path) }
    }

    /// The repository the commands run in.
    pub closed spec fn repo_path(&self) -> String {
        self.repo_path
    }

    /// The repository the commands run in.
    pub fn path(&self) -> (p: &str)
        ensures
            p@ == self.repo_path()@,
    {
        self.repo_path.as_str()
    }
}

/// The revision naming the upstream of `branch` (`<branch>@{u}`).
pub fn upstream_ref(branch: &str) -> (r: String)
    ensures
        r@ == upstream_rev(branch@),
{
    let mut r = String::from_str(branch);
    r.append("@{u}");
    r
}

/// The upstream commit hash from `rev-parse` output: the output, trimmed.
pub fn parse_upstream_hash(stdout: &str) -> (r: String)
    ensures
        r@ == trimmed(stdout@),
{
    trim(stdout)
}

/// The arguments of the `git rev-list` call that lists new commits.
pub fn rev_list_args(start: Option<&str>, end: &str, days: u32) -> (r: Vec<String>)
    ensures
        views_of(r@) == rev_list_args_of(
            match start {
                Some(s) => Some(s@),
                None => None,
            },
            end@,
            days,
        ),
{
    let mut since = String::from_str("--since=");
    push_decimal(&mut since, days as u64);
    since.append(" days ago");
    let range = match start {
        Some(s) => {
            let mut r = String::from_str(s);
            r.append("..");
            r.append(end);
            r
        },
        None => String::from_str(end),
    };
    let mut args: Vec<String> = Vec::new();
    args.push(String::from_str("rev-list"));
    args.push(since);
    args.push(String::from_str("--reverse"));
    args.push(range);
    proof {
        assert(views_of(args@) =~= rev_list_args_of(
            match start {
                Some(s) => Some(s@),
                None => None,
            },
            end@,
            days,
        ));
    }
    args
}

/// The commit hashes in `rev-list` output, in order.
pub fn parse_commit_list(stdout: &str) -> (r: Vec<String>)
    ensures
        views_of(r@) == commits_of_lines(split_lines(stdout@)),
{
    let lines = lines_of(stdout);
    let ghost ls = views_of(lines@);
    let mut out: Vec<String> = Vec::new();
    let n = lines.len();
    assert(ls.take(0) =~= Seq::<Seq<char>>::empty());
    for i in 0..n
        invariant
            n == lines@.len(),
            ls == views_of(lines@),
            views_of(out@) == commits_of_lines(ls.take(i as int)),
    {
        let t = trim(lines[i].as_str());
        let ghost before = views_of(out@);
        proof {
            assert(ls.take(i + 1).drop_last() =~= ls.take(i as int));
            assert(ls[i as int] == lines@[i as int]@);
        }
        if !t.as_str().is_empty() {
            out.push(t);
            proof {
                assert(views_of(out@) =~= before.push(trimmed(ls[i as int])));
            }
        }
    }
    assert(ls.take(n as int) =~= ls);
    out
}

} // verus!
