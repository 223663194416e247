use deltav::calendar::{Date, Timestamp};
use deltav::github::auth::{extract_hostname, pick_token, token_from_gh_output};
use deltav::github::requests::{
    issue_events_url, issue_url, issues_only, issues_url, matching_repos, published_releases,
    pulls_url, rate_limit_url, releases_url, repos_url, updated_since, user_url,
};
use deltav::github::types::{
    Issue, IssueState, Label, PullRequest, PullRequestRef, PullRequestState, RateLimit, Release,
    Repository, User, BranchRef,
};
use deltav::schema::github::Organisation;

fn ts(secs: i64) -> Timestamp {
    Timestamp { secs, nanos: 0 }
}

fn user(login: &str) -> User {
    User {
        id: 1,
        login: login.to_string(),
        html_url: "https://example.com".to_string(),
        user_type: None,
    }
}

fn label(id: u64, name: &str) -> Label {
    Label { id, name: name.to_string(), color: "red".to_string(), description: None }
}

fn issue(labels: Vec<Label>) -> Issue {
    Issue {
        id: 1,
        number: 1,
        title: "Test".to_string(),
        body: None,
        state: "open".to_string(),
        html_url: "https://example.com".to_string(),
        repository_url: "https://api.github.com/repos/test-org/test-repo".to_string(),
        user: user("test"),
        labels,
        assignees: vec![],
        milestone: None,
        created_at: ts(1_767_225_600),
        updated_at: ts(1_767_225_600),
        closed_at: None,
        pull_request: None,
    }
}

fn release(tag: &str, draft: bool) -> Release {
    Release {
        id: 1,
        tag_name: tag.to_string(),
        name: None,
        body: None,
        draft,
        prerelease: false,
        created_at: ts(0),
        published_at: Some(ts(0)),
        html_url: "https://example.com".to_string(),
        author: user("rel"),
    }
}

fn repository(name: &str) -> Repository {
    Repository {
        id: 1,
        name: name.to_string(),
        full_name: format!("my-org/{}", name),
        description: None,
        private: false,
        html_url: "https://example.com".to_string(),
        created_at: ts(0),
        updated_at: ts(0),
        pushed_at: None,
    }
}

fn pull(number: u64, updated: i64) -> PullRequest {
    PullRequest {
        id: number,
        number,
        title: "Test".to_string(),
        body: None,
        state: "closed".to_string(),
        html_url: "https://example.com".to_string(),
        user: user("test"),
        labels: vec![],
        created_at: ts(0),
        updated_at: ts(updated),
        closed_at: None,
        merged_at: None,
        base: BranchRef { ref_name: "main".to_string(), sha: "abc".to_string() },
        head: BranchRef { ref_name: "feature".to_string(), sha: "def".to_string() },
    }
}

#[test]
fn test_extract_hostname_enterprise() {
    assert_eq!(
        extract_hostname("https://github.mycompany.com"),
        Some("github.mycompany.com".to_string())
    );
    assert_eq!(
        extract_hostname("https://github.mycompany.com/"),
        Some("github.mycompany.com".to_string())
    );
}

#[test]
fn test_extract_hostname_public() {
    assert_eq!(extract_hostname("https://github.com"), None);
    assert_eq!(extract_hostname("https://github.com/"), None);
}

#[test]
fn test_resolve_token_explicit() {
    let token = pick_token(Some("my-token"), None).unwrap();
    assert_eq!(token, "my-token");
}

#[test]
fn test_resolve_token_empty_explicit_falls_through() {
    let token = pick_token(Some(""), Some("env-token")).unwrap();
    assert_eq!(token, "env-token");
}

#[test]
fn pick_token_without_any_token() {
    assert_eq!(pick_token(None, None), None);
    assert_eq!(pick_token(Some(""), Some("")), None);
}

#[test]
fn extract_hostname_plain_http_and_other_text() {
    assert_eq!(extract_hostname("http://ghe.local"), Some("ghe.local".to_string()));
    assert_eq!(extract_hostname("ghe.local"), None);
}

#[test]
fn extract_hostname_drops_the_path() {
    assert_eq!(
        extract_hostname("https://github.mycompany.com/ghe/"),
        Some("github.mycompany.com".to_string())
    );
    assert_eq!(
        extract_hostname("https://ghe.example.org/a/b"),
        Some("ghe.example.org".to_string())
    );
}

#[test]
fn test_issue_has_label() {
    let issue = issue(vec![label(1, "bug"), label(2, "M")]);
    assert!(issue.has_label("bug"));
    assert!(!issue.has_label("feature"));
    assert_eq!(issue.size_label(), Some("M"));
}

#[test]
fn size_label_prefixed_and_missing() {
    let with_prefix = issue(vec![label(1, "bug"), label(2, "size: xl"), label(3, "S")]);
    assert_eq!(with_prefix.size_label(), Some("size: xl"));
    let without = issue(vec![label(1, "bug"), label(2, "XXL")]);
    assert_eq!(without.size_label(), None);
}

#[test]
fn issue_org_repo_and_state() {
    let i = issue(vec![]);
    assert_eq!(i.org_repo(), Some(("test-org", "test-repo")));
    assert!(i.is_open());
    assert!(!i.is_closed());
    assert!(!i.has_label_prefix("blocked"));
}

#[test]
fn state_query_texts() {
    assert_eq!(IssueState::Open.as_str(), "open");
    assert_eq!(IssueState::Closed.as_str(), "closed");
    assert_eq!(IssueState::All.as_str(), "all");
    assert_eq!(PullRequestState::All.as_str(), "all");
}

#[test]
fn rate_limit_reset_texts() {
    let r = RateLimit { limit: 5000, remaining: 99, reset: 1_000 };
    assert!(r.is_low());
    assert_eq!(r.reset_in_from(1_000), "now");
    assert_eq!(r.reset_in_from(955), "45s");
    assert_eq!(r.reset_in_from(280), "12m");
    assert_eq!(r.reset_in(), "now");
}

#[test]
fn release_display_and_range() {
    let mut r = release("v1.0", false);
    assert_eq!(r.display_name(), "v1.0");
    r.name = Some("First".to_string());
    assert_eq!(r.display_name(), "First");
    let epoch = Date::from_ymd(1970, 1, 1).unwrap();
    let next = Date::from_ymd(1970, 1, 2).unwrap();
    assert!(r.published_in_range(epoch, next));
    assert!(!r.published_in_range(next, next));
}

#[test]
fn request_urls() {
    let api = "https://ghe.local/api/v3";
    assert_eq!(repos_url(api, false, "acme", 2), "https://ghe.local/api/v3/orgs/acme/repos?per_page=100&page=2");
    assert_eq!(repos_url(api, true, "bob", 1), "https://ghe.local/api/v3/users/bob/repos?per_page=100&page=1");
    assert_eq!(
        issues_url(api, "acme", "fw", 3, IssueState::All, Some("2026-01-05T00:00:00+00:00")),
        "https://ghe.local/api/v3/repos/acme/fw/issues?per_page=100&page=3&state=all&since=2026-01-05T00:00:00+00:00"
    );
    assert_eq!(
        issues_url(api, "acme", "fw", 1, IssueState::Open, None),
        "https://ghe.local/api/v3/repos/acme/fw/issues?per_page=100&page=1&state=open"
    );
    assert_eq!(
        pulls_url(api, "acme", "fw", 1, PullRequestState::Closed),
        "https://ghe.local/api/v3/repos/acme/fw/pulls?per_page=100&page=1&state=closed&sort=updated&direction=desc"
    );
    assert_eq!(issue_url(api, "acme", "fw", 42), "https://ghe.local/api/v3/repos/acme/fw/issues/42");
    assert_eq!(
        issue_events_url(api, "acme", "fw", 42, 1),
        "https://ghe.local/api/v3/repos/acme/fw/issues/42/events?per_page=100&page=1"
    );
    assert_eq!(user_url(api), "https://ghe.local/api/v3/user");
    assert_eq!(rate_limit_url(api), "https://ghe.local/api/v3/rate_limit");
}

#[test]
fn releases_url_count_defaults_and_caps() {
    let api = "https://api.github.com";
    assert_eq!(releases_url(api, "a", "b", None), "https://api.github.com/repos/a/b/releases?per_page=30");
    assert_eq!(releases_url(api, "a", "b", Some(7)), "https://api.github.com/repos/a/b/releases?per_page=7");
    assert_eq!(releases_url(api, "a", "b", Some(500)), "https://api.github.com/repos/a/b/releases?per_page=100");
}

#[test]
fn issues_only_drops_pull_requests() {
    let mut pr = issue(vec![]);
    pr.number = 2;
    pr.pull_request = Some(PullRequestRef { url: "u".to_string(), html_url: "h".to_string() });
    let mut plain = issue(vec![]);
    plain.number = 3;
    let kept = issues_only(vec![issue(vec![]), pr, plain]);
    let numbers: Vec<u64> = kept.iter().map(|i| i.number).collect();
    assert_eq!(numbers, vec![1, 3]);
}

#[test]
fn published_releases_drop_drafts() {
    let kept = published_releases(vec![release("a", false), release("b", true), release("c", false)]);
    let tags: Vec<&str> = kept.iter().map(|r| r.tag_name.as_str()).collect();
    assert_eq!(tags, vec!["a", "c"]);
}

#[test]
fn matching_repos_by_pattern() {
    let org = Organisation {
        name: "my-org".to_string(),
        repo_pattern: "^project-.*".to_string(),
        is_user: false,
    };
    let kept = matching_repos(&org, vec![repository("project-a"), repository("other"), repository("project-b")]).unwrap();
    let names: Vec<&str> = kept.iter().map(|r| r.name.as_str()).collect();
    assert_eq!(names, vec!["project-a", "project-b"]);
    let bad = Organisation { name: "x".to_string(), repo_pattern: "(".to_string(), is_user: false };
    assert!(matching_repos(&bad, vec![repository("a")]).is_none());
}

#[test]
fn updated_since_stops_at_older_pull_requests() {
    let (kept, stop) = updated_since(vec![pull(1, 300), pull(2, 200), pull(3, 100), pull(4, 250)], ts(200));
    let numbers: Vec<u64> = kept.iter().map(|p| p.number).collect();
    assert_eq!(numbers, vec![1, 2]);
    assert!(stop);
    let (all, stop) = updated_since(vec![pull(1, 300), pull(2, 200)], ts(100));
    assert_eq!(all.len(), 2);
    assert!(!stop);
}

#[test]
fn gh_output_token_is_trimmed() {
    assert_eq!(token_from_gh_output("  gho_abc123\n"), Some("gho_abc123".to_string()));
    assert_eq!(token_from_gh_output(" \n\t"), None);
    assert_eq!(token_from_gh_output(""), None);
}

#[test]
fn gh_output_trims_unicode_white_space() {
    assert_eq!(token_from_gh_output("\u{3000}tok\u{2028}\u{85}"), Some("tok".to_string()));
    assert_eq!(token_from_gh_output("\u{A0}\u{200A}"), None);
    assert_eq!(token_from_gh_output("\u{200B}x"), Some("\u{200B}x".to_string()));
}
