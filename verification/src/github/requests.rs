//! Planning GitHub REST requests and sifting the pages they return.
//!
//! The requests themselves are sent by the application; this module builds
//! their URLs and decides what each page contributes.

use vstd::prelude::*;
use crate::calendar::{Timestamp, ts_le};
use crate::github::types::{
    Issue,
    IssueState,
    PullRequest,
    PullRequestState,
    Release,
    Repository,
    issue_state_text,
};
use crate::pattern;
use crate::schema::github::{GitHubConfig, Organisation};
use crate::text;

verus! {

/// Items per page asked of paginated endpoints.
pub const PAGE_SIZE: u32 = 100;

/// Releases asked for when no count is given.
pub const DEFAULT_RELEASES: u32 = 30;

/// `api/repos/org/repo`.
pub open spec fn repo_base(api: Seq<char>, org: Seq<char>, repo: Seq<char>) -> Seq<char> {
    api + "/repos/"@ + org + seq!['/'] + repo
}

/// `?per_page=100&page=N`.
pub open spec fn page_query(page: nat) -> Seq<char> {
    "?per_page=100&page="@ + text::decimal(page)
}

/// URL of one page of an account's repositories (`users/...` for a user
/// account, `orgs/...` for an organisation).
pub open spec fn repos_url_spec(api: Seq<char>, is_user: bool, org: Seq<char>, page: nat) -> Seq<
    char,
> {
    api + (if is_user {
        "/users/"@
    } else {
        "/orgs/"@
    }) + org + "/repos"@ + page_query(page)
}

/// URL of one page of a repository's issues in `state`, updated since
/// `since` (an RFC 3339 instant) when given.
pub open spec fn issues_url_spec(
    api: Seq<char>,
    org: Seq<char>,
    repo: Seq<char>,
    page: nat,
    state: IssueState,
    since: Option<Seq<char>>,
) -> Seq<char> {
    let base = repo_base(api, org, repo) + "/issues"@ + page_query(page) + "&state="@
        + issue_state_text(state);
    match since {
        Some(s) => base + "&since="@ + s,
        None => base,
    }
}

/// The `state` parameter of pull-request queries.
pub open spec fn pr_state_text(s: PullRequestState) -> Seq<char> {
    match s {
        PullRequestState::Open => "open"@,
        PullRequestState::Closed => "closed"@,
        PullRequestState::All => "all"@,
    }
}

/// URL of one page of a repository's pull requests in `state`, most
/// recently updated first.
pub open spec fn pulls_url_spec(
    api: Seq<char>,
    org: Seq<char>,
    repo: Seq<char>,
    page: nat,
    state: PullRequestState,
) -> Seq<char> {
    repo_base(api, org, repo) + "/pulls"@ + page_query(page) + "&state="@ + pr_state_text(state)
        + "&sort=updated&direction=desc"@
}

/// URL of one issue.
pub open spec fn issue_url_spec(api: Seq<char>, org: Seq<char>, repo: Seq<char>, number: nat) -> Seq<
    char,
> {
    repo_base(api, org, repo) + "/issues/"@ + text::decimal(number)
}

/// URL of one page of an issue's events.
pub open spec fn issue_events_url_spec(
    api: Seq<char>,
    org: Seq<char>,
    repo: Seq<char>,
    number: nat,
    page: nat,
) -> Seq<char> {
    issue_url_spec(api, org, repo, number) + "/events"@ + page_query(page)
}

/// Releases asked for: the given count (30 when none), at most 100.
pub open spec fn releases_count(per_page: Option<u32>) -> nat {
    let n = match per_page {
        Some(n) => n as nat,
        None => DEFAULT_RELEASES as nat,
    };
    if n < PAGE_SIZE {
        n
    } else {
        PAGE_SIZE as nat
    }
}

/// URL of a repository's latest releases.
pub open spec fn releases_url_spec(
    api: Seq<char>,
    org: Seq<char>,
    repo: Seq<char>,
    per_page: Option<u32>,
) -> Seq<char> {
    repo_base(api, org, repo) + "/releases?per_page="@ + text::decimal(releases_count(per_page))
}

fn push_repo_base(out: &mut String, api: &str, org: &str, repo: &str)
    ensures
        final(out)@ == old(out)@ + repo_base(api@, org@, repo@),
{
    text::push_str(out, api);
    text::push_str(out, "/repos/");
    text::push_str(out, org);
    text::push_char(out, '/');
    text::push_str(out, repo);
    proof {
        assert(final(out)@ =~= old(out)@ + repo_base(api@, org@, repo@));
    }
}

fn push_page_query(out: &mut String, page: u32)
    ensures
        final(out)@ == old(out)@ + page_query(page as nat),
{
    text::push_str(out, "?per_page=100&page=");
    text::push_decimal(out, page as u64);
    proof {
        assert(final(out)@ =~= old(out)@ + page_query(page as nat));
    }
}

/// URL of one page of an account's repositories.
pub fn repos_url(api: &str, is_user: bool, org: &str, page: u32) -> (r: String)
    ensures
        r@ == repos_url_spec(api@, is_user, org@, page as nat),
{
    let mut out = text::owned(api);
    if is_user {
        text::push_str(&mut out, "/users/");
    } else {
        text::push_str(&mut out, "/orgs/");
    }
    text::push_str(&mut out, org);
    text::push_str(&mut out, "/repos");
    push_page_query(&mut out, page);
    proof {
        assert(out@ =~= repos_url_spec(api@, is_user, org@, page as nat));
    }
    out
}

/// URL of one page of a repository's issues.
pub fn issues_url(
    api: &str,
    org: &str,
    repo: &str,
    page: u32,
    state: IssueState,
    since: Option<&str>,
) -> (r: String)
    ensures
        r@ == issues_url_spec(
            api@,
            org@,
            repo@,
            page as nat,
            state,
            match since {
                Some(s) => Some(s@),
                None => None,
            },
        ),
{
    let mut out = String::new();
    push_repo_base(&mut out, api, org, repo);
    text::push_str(&mut out, "/issues");
    push_page_query(&mut out, page);
    text::push_str(&mut out, "&state=");
    text::push_str(&mut out, state.as_str());
    let ghost base = out@;
    proof {
        assert(base =~= repo_base(api@, org@, repo@) + "/issues"@ + page_query(page as nat)
            + "&state="@ + issue_state_text(state));
    }
    match since {
        Some(s) => {
            text::push_str(&mut out, "&since=");
            text::push_str(&mut out, s);
            proof {
                assert(out@ =~= base + "&since="@ + s@);
            }
        },
        None => {},
    }
    out
}

/// URL of one page of a repository's pull requests.
pub fn pulls_url(api: &str, org: &str, repo: &str, page: u32, state: PullRequestState) -> (r:
    String)
    ensures
        r@ == pulls_url_spec(api@, org@, repo@, page as nat, state),
{
    let mut out = String::new();
    push_repo_base(&mut out, api, org, repo);
    text::push_str(&mut out, "/pulls");
    push_page_query(&mut out, page);
    text::push_str(&mut out, "&state=");
    text::push_str(&mut out, state.as_str());
    text::push_str(&mut out, "&sort=updated&direction=desc");
    proof {
        assert(out@ =~= pulls_url_spec(api@, org@, repo@, page as nat, state));
    }
    out
}

/// URL of one issue.
pub fn issue_url(api: &str, org: &str, repo: &str, number: u64) -> (r: String)
    ensures
        r@ == issue_url_spec(api@, org@, repo@, number as nat),
{
    let mut out = String::new();
    push_repo_base(&mut out, api, org, repo);
    text::push_str(&mut out, "/issues/");
    text::push_decimal(&mut out, number);
    proof {
        assert(out@ =~= issue_url_spec(api@, org@, repo@, number as nat));
    }
    out
}

/// URL of one page of an issue's events.
pub fn issue_events_url(api: &str, org: &str, repo: &str, number: u64, page: u32) -> (r: String)
    ensures
        r@ == issue_events_url_spec(api@, org@, repo@, number as nat, page as nat),
{
    let mut out = issue_url(api, org, repo, number);
    text::push_str(&mut out, "/events");
    push_page_query(&mut out, page);
    proof {
        assert(out@ =~= issue_events_url_spec(api@, org@, repo@, number as nat, page as nat));
    }
    out
}

/// URL of the authenticated user.
pub fn user_url(api: &str) -> (r: String)
    ensures
        r@ == api@ + "/user"@,
{
    let mut out = text::owned(api);
    text::push_str(&mut out, "/user");
    out
}

/// URL of the rate-limit status.
pub fn rate_limit_url(api: &str) -> (r: String)
    ensures
        r@ == api@ + "/rate_limit"@,
{
    let mut out = text::owned(api);
    text::push_str(&mut out, "/rate_limit");
    out
}

/// URL of a repository's latest releases; `per_page` defaults to 30 and is
/// capped at 100.
pub fn releases_url(api: &str, org: &str, repo: &str, per_page: Option<u32>) -> (r: String)
    ensures
        r@ == releases_url_spec(api@, org@, repo@, per_page),
{
    let requested = match per_page {
        Some(n) => n,
        None => DEFAULT_RELEASES,
    };
    let count = if requested < PAGE_SIZE {
        requested
    } else {
        PAGE_SIZE
    };
    let mut out = String::new();
    push_repo_base(&mut out, api, org, repo);
    text::push_str(&mut out, "/releases?per_page=");
    text::push_decimal(&mut out, count as u64);
    proof {
        assert(out@ =~= releases_url_spec(api@, org@, repo@, per_page));
    }
    out
}

/// The configured organisation named `org` (the first, if several are).
pub fn find_organisation<'a>(config: &'a GitHubConfig, org: &str) -> (r: Option<&'a Organisation>)
    ensures
        r is None ==> forall|i: int|
            0 <= i < config.organisations.len() ==> (#[trigger] config.organisations@[i]).name@
                != org@,
        r matches Some(o) ==> exists|i: int|
            0 <= i < config.organisations.len() && config.organisations@[i] == *o && o.name@
                == org@ && forall|j: int|
                0 <= j < i ==> (#[trigger] config.organisations@[j]).name@ != org@,
{
    let mut i: usize = 0;
    while i < config.organisations.len()
        invariant
            i <= config.organisations.len(),
            forall|j: int|
                0 <= j < i ==> (#[trigger] config.organisations@[j]).name@ != org@,
        decreases config.organisations.len() - i,
    {
        if text::str_eq(config.organisations[i].name.as_str(), org) {
            return Some(&config.organisations[i]);
        }
        i = i + 1;
    }
    None
}

// ---------------------------------------------------------------------------
// Sifting pages
// ---------------------------------------------------------------------------

/// The item is an issue, not a pull request (the issues endpoint lists both).
pub open spec fn is_plain_issue(i: Issue) -> bool {
    i.pull_request is None
}

/// The issues of a page, without the pull requests, in order.
pub fn issues_only(page: Vec<Issue>) -> (r: Vec<Issue>)
    ensures
        r@ == page@.filter(|i: Issue| is_plain_issue(i)),
{
    let ghost whole = page@;
    let mut rest = page;
    let mut out: Vec<Issue> = Vec::new();
    while rest.len() > 0
        invariant
            out@ + rest@.filter(|i: Issue| is_plain_issue(i)) == whole.filter(
                |i: Issue| is_plain_issue(i),
            ),
        decreases rest.len(),
    {
        let ghost before = rest@;
        let item = rest.remove(0);
        proof {
            assert(before =~= seq![item] + rest@);
            Seq::filter_distributes_over_add(seq![item], rest@, |i: Issue| is_plain_issue(i));
            Seq::<Issue>::empty().lemma_filter_push(item, |i: Issue| is_plain_issue(i));
            assert(Seq::<Issue>::empty().push(item) =~= seq![item]);
            assert(Seq::<Issue>::empty().filter(|i: Issue| is_plain_issue(i)) =~= Seq::empty());
        }
        if item.pull_request.is_none() {
            out.push(item);
        }
        proof {
            assert(out@ + rest@.filter(|i: Issue| is_plain_issue(i)) =~= whole.filter(
                |i: Issue| is_plain_issue(i),
            ));
        }
    }
    proof {
        assert(rest@.filter(|i: Issue| is_plain_issue(i)) =~= Seq::empty());
        assert(out@ =~= out@ + Seq::<Issue>::empty());
    }
    out
}

/// The published releases of a page (drafts left out), in order.
pub fn published_releases(page: Vec<Release>) -> (r: Vec<Release>)
    ensures
        r@ == page@.filter(|rel: Release| !rel.draft),
{
    let ghost whole = page@;
    let mut rest = page;
    let mut out: Vec<Release> = Vec::new();
    while rest.len() > 0
        invariant
            out@ + rest@.filter(|rel: Release| !rel.draft) == whole.filter(
                |rel: Release| !rel.draft,
            ),
        decreases rest.len(),
    {
        let ghost before = rest@;
        let item = rest.remove(0);
        proof {
            assert(before =~= seq![item] + rest@);
            Seq::filter_distributes_over_add(seq![item], rest@, |rel: Release| !rel.draft);
            Seq::<Release>::empty().lemma_filter_push(item, |rel: Release| !rel.draft);
            assert(Seq::<Release>::empty().push(item) =~= seq![item]);
            assert(Seq::<Release>::empty().filter(|rel: Release| !rel.draft) =~= Seq::empty());
        }
        if !item.draft {
            out.push(item);
        }
        proof {
            assert(out@ + rest@.filter(|rel: Release| !rel.draft) =~= whole.filter(
                |rel: Release| !rel.draft,
            ));
        }
    }
    proof {
        assert(rest@.filter(|rel: Release| !rel.draft) =~= Seq::empty());
        assert(out@ =~= out@ + Seq::<Release>::empty());
    }
    out
}

/// The repositories of a page whose name the organisation's pattern
/// matches, in order; `None` when the pattern does not compile.
pub fn matching_repos(org: &Organisation, page: Vec<Repository>) -> (r: Option<Vec<Repository>>)
    ensures
        r is Some <==> pattern::regex_compiles(org.repo_pattern@),
        r matches Some(v) ==> v@ == page@.filter(
            |repo: Repository| pattern::regex_is_match(org.repo_pattern@, repo.name@),
        ),
{
    if pattern::check_pattern(org.repo_pattern.as_str()).is_err() {
        return None;
    }
    let ghost pat = org.repo_pattern@;
    let ghost whole = page@;
    let mut rest = page;
    let mut out: Vec<Repository> = Vec::new();
    while rest.len() > 0
        invariant
            pat == org.repo_pattern@,
            pattern::regex_compiles(pat),
            out@ + rest@.filter(|repo: Repository| pattern::regex_is_match(pat, repo.name@))
                == whole.filter(|repo: Repository| pattern::regex_is_match(pat, repo.name@)),
        decreases rest.len(),
    {
        let ghost before = rest@;
        let item = rest.remove(0);
        proof {
            assert(before =~= seq![item] + rest@);
            Seq::filter_distributes_over_add(
                seq![item],
                rest@,
                |repo: Repository| pattern::regex_is_match(pat, repo.name@),
            );
            Seq::<Repository>::empty().lemma_filter_push(
                item,
                |repo: Repository| pattern::regex_is_match(pat, repo.name@),
            );
            assert(Seq::<Repository>::empty().push(item) =~= seq![item]);
            assert(Seq::<Repository>::empty().filter(
                |repo: Repository| pattern::regex_is_match(pat, repo.name@),
            ) =~= Seq::empty());
        }
        let keep = match pattern::pattern_matches(org.repo_pattern.as_str(), item.name.as_str()) {
            Some(b) => b,
            None => false,
        };
        if keep {
            out.push(item);
        }
        proof {
            assert(out@ + rest@.filter(
                |repo: Repository| pattern::regex_is_match(pat, repo.name@),
            ) =~= whole.filter(|repo: Repository| pattern::regex_is_match(pat, repo.name@)));
        }
    }
    proof {
        assert(rest@.filter(|repo: Repository| pattern::regex_is_match(pat, repo.name@))
            =~= Seq::empty());
        assert(out@ =~= out@ + Seq::<Repository>::empty());
    }
    Some(out)
}

/// Number of leading pull requests of `s` updated at or after `since`.
pub open spec fn leading_updated(s: Seq<PullRequest>, since: Timestamp) -> nat
    decreases s.len(),
{
    if s.len() == 0 || !ts_le(since, s[0].updated_at) {
        0
    } else {
        1 + leading_updated(s.drop_first(), since)
    }
}

/// The leading pull requests of a page (sorted most recently updated first)
/// updated at or after `since`, and whether the page went past `since`, in
/// which case no later page is needed.
pub fn updated_since(page: Vec<PullRequest>, since: Timestamp) -> (r: (Vec<PullRequest>, bool))
    ensures
        r.0@ == page@.take(leading_updated(page@, since) as int),
        r.1 == (leading_updated(page@, since) < page@.len()),
{
    let ghost whole = page@;
    let mut rest = page;
    let mut out: Vec<PullRequest> = Vec::new();
    while rest.len() > 0 && since.is_at_or_before(&rest[0].updated_at)
        invariant
            out@ + rest@ == whole,
            out.len() + leading_updated(rest@, since) == leading_updated(whole, since),
        decreases rest.len(),
    {
        let ghost before = rest@;
        let item = rest.remove(0);
        proof {
            assert(before =~= seq![item] + rest@);
            assert(before.drop_first() =~= rest@);
            assert(ts_le(since, item.updated_at));
        }
        out.push(item);
        proof {
            assert(out@ + rest@ =~= whole);
        }
    }
    proof {
        assert(whole.take(out.len() as int) =~= out@);
    }
    let stopped = rest.len() > 0;
    (out, stopped)
}

} // verus!
