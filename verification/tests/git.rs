use gup::git::{
    check_runs_status, commit_pulls_url, check_runs_url, find_pull_request_url, first_open_pr,
    is_protected_branch, is_remote_status_line, new_pr_url, repo_name_from_remote,
    search_issues_url, CheckRun, GitPull,
};

fn run(name: &str, status: &str, conclusion: &str) -> CheckRun {
    CheckRun {
        name: name.to_string(),
        status: status.to_string(),
        conclusion: conclusion.to_string(),
    }
}

fn pull(html_url: &str, state: &str) -> GitPull {
    GitPull {
        html_url: html_url.to_string(),
        title: "title".to_string(),
        state: state.to_string(),
        draft: false,
    }
}

#[test]
fn new_pr_url_builds_the_compare_page() {
    assert_eq!(
        new_pr_url("org/repo", "fix/team-1"),
        "https://github.com/org/repo/compare/fix/team-1?expand=1"
    );
}

#[test]
fn search_issues_url_builds_the_query() {
    assert_eq!(
        search_issues_url("org/repo", "fix/team-1"),
        "https://api.github.com/search/issues?q=repo:org/repo+is:pr+is:open+head:fix/team-1"
    );
}

#[test]
fn api_urls_name_the_commit_resources() {
    assert_eq!(
        check_runs_url("org/repo", "abc123"),
        "https://api.github.com/repos/org/repo/commits/abc123/check-runs"
    );
    assert_eq!(
        commit_pulls_url("org/repo", "abc123"),
        "https://api.github.com/repos/org/repo/commits/abc123/pulls"
    );
}

#[test]
fn repo_name_comes_from_the_remote_url() {
    assert_eq!(
        repo_name_from_remote("https://github.com/org/repo.git"),
        Some("org/repo".to_string())
    );
}

#[test]
fn repo_name_strips_every_git_occurrence() {
    assert_eq!(
        repo_name_from_remote("https://github.com/a.git/b.git"),
        Some("a/b".to_string())
    );
}

#[test]
fn repo_name_rejects_empty_and_unparsable_remotes() {
    assert_eq!(repo_name_from_remote(""), None);
    assert_eq!(repo_name_from_remote("git@github.com:org/repo.git"), None);
    assert_eq!(repo_name_from_remote(".git"), None);
}

#[test]
fn check_runs_status_waits_for_completion() {
    let runs = vec![
        run("build", "completed", "success"),
        run("lint", "in_progress", ""),
    ];
    assert_eq!(check_runs_status(&runs), None);
}

#[test]
fn check_runs_status_reports_the_verdict() {
    assert_eq!(check_runs_status(&vec![]), Some(true));

    let good = vec![
        run("build", "completed", "success"),
        run("SonarQube Code Analysis", "completed", "neutral"),
    ];
    assert_eq!(check_runs_status(&good), Some(true));

    let bad = vec![
        run("build", "completed", "success"),
        run("test", "completed", "failure"),
    ];
    assert_eq!(check_runs_status(&bad), Some(false));
}

#[test]
fn first_open_pr_takes_the_first_open_one() {
    let prs = vec![
        pull("https://github.com/org/repo/pull/1", "closed"),
        pull("https://github.com/org/repo/pull/2", "open"),
        pull("https://github.com/org/repo/pull/3", "open"),
    ];
    let found = first_open_pr(prs).unwrap();
    assert_eq!(found.html_url, "https://github.com/org/repo/pull/2");

    let prs = vec![pull("https://github.com/org/repo/pull/1", "closed")];
    assert!(first_open_pr(prs).is_none());
}

#[test]
fn protected_branches_are_main_and_master() {
    assert!(is_protected_branch("main"));
    assert!(is_protected_branch("master"));
    assert!(!is_protected_branch("fix/team-123"));
}

#[test]
fn remote_status_line_needs_prefix_and_ellipsis() {
    assert!(is_remote_status_line("## main...origin/main"));
    assert!(!is_remote_status_line("## local-only"));
    assert!(!is_remote_status_line("M src/lib.rs"));
}

#[test]
fn find_pull_request_url_picks_the_first_matching_line() {
    let output = "Enumerating objects: 5, done.\nhttps://github.com/org/repo/pull/7  \nhttps://github.com/org/repo/pull/8\n";
    assert_eq!(
        find_pull_request_url(output),
        Some("https://github.com/org/repo/pull/7".to_string())
    );
}

#[test]
fn find_pull_request_url_wants_both_markers() {
    let output = "remote: https://github.com/org/repo/pull/7\nhttps://github.com/org/repo\n";
    assert_eq!(find_pull_request_url(output), None);
}
