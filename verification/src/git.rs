//! The decisions and text the git/hosting workflow computes: hosting API
//! URLs, the repository name taken from a remote URL, and the readings of
//! command output and API responses that drive the workflow.

use vstd::prelude::*;
use crate::text::{
    CharClass, run_len, scan_run, has_prefix, has_substr, str_eq, str_starts_with, str_contains,
    str_trim, trimmed,
};

verus! {

/// A pull request as the hosting API reports it.
#[derive(Debug)]
pub struct GitPull {
    pub html_url: String,
    pub title: String,
    pub state: String,
    pub draft: bool,
}

/// One check run of a commit as the hosting API reports it.
#[derive(Debug)]
pub struct CheckRun {
    pub name: String,
    pub status: String,
    pub conclusion: String,
}

/// The compare page that opens a new pull request for `branch`.
pub open spec fn new_pr_url_text(repo: Seq<char>, branch: Seq<char>) -> Seq<char> {
    "https://github.com/"@ + repo + "/compare/"@ + branch + "?expand=1"@
}

/// Builds the compare-page URL that opens a new pull request for `branch`
/// of `repo`.
pub fn new_pr_url(repo: &str, branch: &str) -> (r: String)
    ensures
        r@ == new_pr_url_text(repo@, branch@),
{
    let mut r = "https://github.com/".to_owned();
    r.append(repo);
    r.append("/compare/");
    r.append(branch);
    r.append("?expand=1");
    proof {
        assert(r@ =~= new_pr_url_text(repo@, branch@));
    }
    r
}

/// The search query for the open pull request whose head is `branch`.
pub open spec fn search_issues_url_text(repo: Seq<char>, branch: Seq<char>) -> Seq<char> {
    "https://api.github.com/search/issues?q=repo:"@ + repo + "+is:pr+is:open+head:"@ + branch
}

/// Builds the API query for the open pull request whose head is `branch`.
pub fn search_issues_url(repo: &str, branch: &str) -> (r: String)
    ensures
        r@ == search_issues_url_text(repo@, branch@),
{
    let mut r = "https://api.github.com/search/issues?q=repo:".to_owned();
    r.append(repo);
    r.append("+is:pr+is:open+head:");
    r.append(branch);
    proof {
        assert(r@ =~= search_issues_url_text(repo@, branch@));
    }
    r
}

/// The API resource that lists the check runs of a commit.
pub open spec fn check_runs_url_text(repo: Seq<char>, commit: Seq<char>) -> Seq<char> {
    "https://api.github.com/repos/"@ + repo + "/commits/"@ + commit + "/check-runs"@
}

/// Builds the API URL that lists the check runs of `commit`.
pub fn check_runs_url(repo: &str, commit: &str) -> (r: String)
    ensures
        r@ == check_runs_url_text(repo@, commit@),
{
    let mut r = "https://api.github.com/repos/".to_owned();
    r.append(repo);
    r.append("/commits/");
    r.append(commit);
    r.append("/check-runs");
    proof {
        assert(r@ =~= check_runs_url_text(repo@, commit@));
    }
    r
}

/// The API resource that lists the pull requests of a commit.
pub open spec fn commit_pulls_url_text(repo: Seq<char>, commit: Seq<char>) -> Seq<char> {
    "https://api.github.com/repos/"@ + repo + "/commits/"@ + commit + "/pulls"@
}

/// Builds the API URL that lists the pull requests of `commit`.
pub fn commit_pulls_url(repo: &str, commit: &str) -> (r: String)
    ensures
        r@ == commit_pulls_url_text(repo@, commit@),
{
    let mut r = "https://api.github.com/repos/".to_owned();
    r.append(repo);
    r.append("/commits/");
    r.append(commit);
    r.append("/pulls");
    proof {
        assert(r@ =~= commit_pulls_url_text(repo@, commit@));
    }
    r
}

/// `s` with every occurrence of `.git` struck out, scanning left to right.
pub open spec fn strip_git_spec(s: Seq<char>) -> Seq<char>
    decreases s.len(),
{
    if s.len() < 4 {
        s
    } else if s.subrange(0, 4) == seq!['.', 'g', 'i', 't'] {
        strip_git_spec(s.skip(4))
    } else {
        seq![s[0]] + strip_git_spec(s.skip(1))
    }
}

/// Strikes every `.git` out of `s`, scanning left to right.
pub fn strip_git(s: &str) -> (r: String)
    ensures
        r@ == strip_git_spec(s@),
{
    let len = s.unicode_len();
    let mut out = String::new();
    let mut i: usize = 0;
    proof {
        assert(s@.skip(0) =~= s@);
    }
    while i < len
        invariant
            i <= len,
            len == s@.len(),
            strip_git_spec(s@) == out@ + strip_git_spec(s@.skip(i as int)),
        decreases len - i,
    {
        let ghost rest = s@.skip(i as int);
        if len - i >= 4 && s.get_char(i) == '.' && s.get_char(i + 1) == 'g' && s.get_char(i + 2)
            == 'i' && s.get_char(i + 3) == 't' {
            proof {
                assert(rest.subrange(0, 4) =~= seq!['.', 'g', 'i', 't']);
                assert(rest.skip(4) =~= s@.skip(i + 4));
            }
            i = i + 4;
        } else {
            let c = s.substring_char(i, i + 1);
            out.append(c);
            proof {
                assert(rest[0] == s@[i as int]);
                if rest.len() >= 4 && rest.subrange(0, 4) == seq!['.', 'g', 'i', 't'] {
                    assert(rest.subrange(0, 4)[0] == s@[i as int]);
                    assert(rest.subrange(0, 4)[1] == s@[i + 1]);
                    assert(rest.subrange(0, 4)[2] == s@[i + 2]);
                    assert(rest.subrange(0, 4)[3] == s@[i + 3]);
                }
                assert(c@ =~= seq![s@[i as int]]);
                assert(rest.skip(1) =~= s@.skip(i + 1));
                if rest.len() < 4 {
                    assert(strip_git_spec(rest.skip(1)) == rest.skip(1));
                    assert(rest =~= seq![s@[i as int]] + rest.skip(1));
                }
            }
            i = i + 1;
        }
    }
    proof {
        assert(s@.skip(len as int) =~= Seq::<char>::empty());
        assert(out@ =~= strip_git_spec(s@));
    }
    out
}

/// Relies on `url::Url::parse` and `Url::path`: whether a string parses as an
/// absolute URL, and the path component of the parsed URL, are functions of
/// the string alone.
pub uninterp spec fn url_path_of(s: Seq<char>) -> Option<Seq<char>>;

/// Relies on `url::Url::parse` (the result is an error exactly when the text
/// is no absolute URL) and `url::Url::path` (the percent-encoded path
/// component); both depend on the text alone, named by `url_path_of`.
#[verifier::external_body]
fn parse_url_path(s: &str) -> (r: Option<String>)
    ensures
        match r {
            Some(p) => url_path_of(s@) == Some(p@),
            None => url_path_of(s@) is None,
        },
{
    match url::Url::parse(s) {
        Ok(u) => Some(u.path().to_string()),
        Err(_) => None,
    }
}

/// The repository name a remote URL names: the remote text with `.git`
/// struck out, parsed as a URL, its path without the leading slash. An empty
/// cleaned text, text that is no absolute URL, or an empty path give nothing.
pub open spec fn repo_name_spec(remote: Seq<char>) -> Option<Seq<char>> {
    let cleaned = strip_git_spec(remote);
    if cleaned.len() == 0 {
        None
    } else {
        match url_path_of(cleaned) {
            Some(p) => if p.len() >= 1 {
                Some(p.skip(1))
            } else {
                None
            },
            None => None,
        }
    }
}

/// Reads the repository name out of the remote URL git reports, as
/// `repo_name_spec` says.
pub fn repo_name_from_remote(remote: &str) -> (r: Option<String>)
    ensures
        match r {
            Some(name) => repo_name_spec(remote@) == Some(name@),
            None => repo_name_spec(remote@) is None,
        },
{
    let cleaned = strip_git(remote);
    if cleaned.as_str().unicode_len() == 0 {
        return None;
    }
    match parse_url_path(cleaned.as_str()) {
        Some(p) => {
            let plen = p.as_str().unicode_len();
            if plen >= 1 {
                Some(p.as_str().substring_char(1, plen).to_owned())
            } else {
                None
            }
        },
        None => None,
    }
}

/// The content of the line that starts at `i` and runs to `e` (the next line
/// feed, or the end): a carriage return before the line feed is struck.
pub open spec fn line_content(s: Seq<char>, i: int, e: int) -> Seq<char> {
    if e < s.len() && e > i && s[e - 1] == '\r' {
        s.subrange(i, e - 1)
    } else {
        s.subrange(i, e)
    }
}

/// A line naming a pull request: it starts with `https` and holds `/pull/`.
pub open spec fn pull_line(line: Seq<char>) -> bool {
    has_prefix(line, "https"@) && has_substr(line, "/pull/"@)
}

/// The first line at or after position `i` that names a pull request.
pub open spec fn first_pull_line(s: Seq<char>, i: int) -> Option<Seq<char>>
    decreases s.len() - i when 0 <= i <= s.len() via first_pull_line_dec
{
    if i >= s.len() {
        None
    } else {
        let e = i + run_len(s, i, CharClass::Line);
        let line = line_content(s, i, e);
        if pull_line(line) {
            Some(line)
        } else if e >= s.len() {
            None
        } else {
            first_pull_line(s, e + 1)
        }
    }
}

#[via_fn]
proof fn first_pull_line_dec(s: Seq<char>, i: int) {
    if 0 <= i && i < s.len() {
        crate::text::lemma_run_len(s, i, CharClass::Line);
    }
}

/// Finds the pull-request URL a push prints: the first line that starts with
/// `https` and holds `/pull/`, trimmed.
pub fn find_pull_request_url(output: &str) -> (r: Option<String>)
    ensures
        match r {
            Some(u) => first_pull_line(output@, 0) matches Some(l) && u@ == trimmed(l),
            None => first_pull_line(output@, 0) is None,
        },
{
    let len = output.unicode_len();
    let mut i: usize = 0;
    while i < len
        invariant
            i <= len,
            len == output@.len(),
            first_pull_line(output@, 0) == first_pull_line(output@, i as int),
        decreases len - i,
    {
        let e = i + scan_run(output, i, CharClass::Line);
        let line_end = if e < len && e > i && output.get_char(e - 1) == '\r' {
            e - 1
        } else {
            e
        };
        let line = output.substring_char(i, line_end);
        proof {
            assert(line@ == line_content(output@, i as int, e as int));
        }
        if str_starts_with(line, "https") && str_contains(line, "/pull/") {
            let t = str_trim(line);
            return Some(t.to_owned());
        }
        if e >= len {
            return None;
        }
        i = e + 1;
    }
    None
}

/// The branches the workflow refuses to commit to directly.
pub fn is_protected_branch(branch: &str) -> (r: bool)
    ensures
        r == (branch@ == "main"@ || branch@ == "master"@),
{
    str_eq(branch, "main") || str_eq(branch, "master")
}

/// The first line of a short-format status names an upstream: it starts with
/// `## ` and holds `...` between the local and the remote name.
pub fn is_remote_status_line(line: &str) -> (r: bool)
    ensures
        r == (has_prefix(line@, "## "@) && has_substr(line@, "..."@)),
{
    str_starts_with(line, "## ") && str_contains(line, "...")
}

/// The check run has finished running.
pub open spec fn run_completed(r: CheckRun) -> bool {
    r.status@ == "completed"@
}

/// The check run counts as passed: it succeeded, or it is the one analysis
/// whose verdict the workflow ignores.
pub open spec fn run_passed(r: CheckRun) -> bool {
    r.conclusion@ == "success"@ || r.name@ == "SonarQube Code Analysis"@
}

pub open spec fn all_completed(runs: Seq<CheckRun>) -> bool {
    forall|i: int| 0 <= i < runs.len() ==> run_completed(runs[i])
}

pub open spec fn all_passed(runs: Seq<CheckRun>) -> bool {
    forall|i: int| 0 <= i < runs.len() ==> run_passed(runs[i])
}

/// Reads a commit's check runs: `None` while any run is still going, else
/// whether every run passed.
pub fn check_runs_status(runs: &Vec<CheckRun>) -> (r: Option<bool>)
    ensures
        match r {
            None => !all_completed(runs@),
            Some(b) => all_completed(runs@) && b == all_passed(runs@),
        },
{
    let n = runs.len();
    let mut i: usize = 0;
    while i < n
        invariant
            i <= n,
            n == runs@.len(),
            forall|j: int| 0 <= j < i ==> run_completed(runs@[j]),
        decreases n - i,
    {
        if !str_eq(runs[i].status.as_str(), "completed") {
            return None;
        }
        i = i + 1;
    }
    let mut i: usize = 0;
    while i < n
        invariant
            i <= n,
            n == runs@.len(),
            all_completed(runs@),
            forall|j: int| 0 <= j < i ==> run_passed(runs@[j]),
        decreases n - i,
    {
        if !(str_eq(runs[i].conclusion.as_str(), "success") || str_eq(
            runs[i].name.as_str(),
            "SonarQube Code Analysis",
        )) {
            return Some(false);
        }
        i = i + 1;
    }
    Some(true)
}

/// The pull request is open.
pub open spec fn pr_open(p: GitPull) -> bool {
    p.state@ == "open"@
}

/// The first open pull request of the list, if any.
pub fn first_open_pr(prs: Vec<GitPull>) -> (r: Option<GitPull>)
    ensures
        match r {
            Some(pr) => exists|i: int|
                0 <= i < prs@.len() && pr == prs@[i] && pr_open(pr) && (forall|j: int|
                    0 <= j < i ==> !pr_open(prs@[j])),
            None => forall|i: int| 0 <= i < prs@.len() ==> !pr_open(prs@[i]),
        },
{
    let mut v = prs;
    let mut i: usize = 0;
    while i < v.len()
        invariant
            i <= v@.len(),
            v@ == prs@,
            forall|j: int| 0 <= j < i ==> !pr_open(prs@[j]),
        decreases v@.len() - i,
    {
        if str_eq(v[i].state.as_str(), "open") {
            let pr = v.remove(i);
            return Some(pr);
        }
        i = i + 1;
    }
    None
}

} // verus!
