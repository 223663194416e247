//! Values of the GitHub REST API v3 (repositories, issues, pull requests,
//! events, releases, rate limits), with instants held as [`Timestamp`]s.

use vstd::prelude::*;
use vstd::string::StrSliceExecFns;
use crate::calendar::{Date, Timestamp};
use crate::text;

verus! {

/// A GitHub user account (a person or a bot).
#[derive(Debug, Clone)]
pub struct User {
    /// Unique identifier for the user.
    pub id: u64,
    /// Username/login (e.g., "octocat").
    pub login: String,
    /// URL to the user's GitHub profile.
    pub html_url: String,
    /// Account type (e.g., "User", "Bot", "Organization").
    pub user_type: Option<String>,
}

/// A label on an issue or pull request.
#[derive(Debug, Clone)]
pub struct Label {
    /// Unique identifier for the label.
    pub id: u64,
    /// Label name (e.g., "bug", "M").
    pub name: String,
    /// Hex color code without the leading `#`.
    pub color: String,
    /// Label description, if set.
    pub description: Option<String>,
}

/// Reference to a pull request, present on issues that are pull requests.
#[derive(Debug, Clone)]
pub struct PullRequestRef {
    /// API URL for the pull request.
    pub url: String,
    /// Web URL for the pull request.
    pub html_url: String,
}

/// A GitHub milestone grouping issues and pull requests.
#[derive(Debug, Clone)]
pub struct Milestone {
    /// Unique identifier for the milestone.
    pub id: u64,
    /// Milestone number within the repository.
    pub number: u32,
    /// Milestone title.
    pub title: String,
    /// Milestone description, if set.
    pub description: Option<String>,
    /// Current state ("open" or "closed").
    pub state: String,
    /// Due date for the milestone, if set.
    pub due_on: Option<Timestamp>,
}

/// A GitHub repository.
#[derive(Debug, Clone)]
pub struct Repository {
    /// Unique identifier for the repository.
    pub id: u64,
    /// Short name of the repository.
    pub name: String,
    /// Full name including owner (e.g., "org/repo").
    pub full_name: String,
    /// Repository description, if set.
    pub description: Option<String>,
    /// Whether the repository is private.
    pub private: bool,
    /// URL to the repository on GitHub.
    pub html_url: String,
    /// When the repository was created.
    pub created_at: Timestamp,
    /// When the repository was last updated.
    pub updated_at: Timestamp,
    /// When the repository was last pushed to.
    pub pushed_at: Option<Timestamp>,
}

/// A GitHub issue.
#[derive(Debug, Clone)]
pub struct Issue {
    /// Unique identifier for the issue.
    pub id: u64,
    /// Issue number within the repository.
    pub number: u64,
    /// Issue title.
    pub title: String,
    /// Issue body in Markdown.
    pub body: Option<String>,
    /// Current state ("open" or "closed").
    pub state: String,
    /// URL to the issue on GitHub.
    pub html_url: String,
    /// URL of the repository API endpoint (e.g., "https://api.github.com/repos/owner/repo").
    pub repository_url: String,
    /// User who created the issue.
    pub user: User,
    /// Labels attached to the issue.
    pub labels: Vec<Label>,
    /// Users assigned to the issue.
    pub assignees: Vec<User>,
    /// Milestone the issue belongs to, if any.
    pub milestone: Option<Milestone>,
    /// When the issue was created.
    pub created_at: Timestamp,
    /// When the issue was last updated.
    pub updated_at: Timestamp,
    /// When the issue was closed, if closed.
    pub closed_at: Option<Timestamp>,
    /// Present if this is a pull request (the issues API returns those too).
    pub pull_request: Option<PullRequestRef>,
}

/// A branch involved in a pull request.
#[derive(Debug, Clone)]
pub struct BranchRef {
    /// Branch name (e.g., "main").
    pub ref_name: String,
    /// SHA of the commit at the tip of the branch.
    pub sha: String,
}

/// A GitHub pull request.
#[derive(Debug, Clone)]
pub struct PullRequest {
    /// Unique identifier for the pull request.
    pub id: u64,
    /// Pull request number within the repository.
    pub number: u64,
    /// Pull request title.
    pub title: String,
    /// Pull request body in Markdown.
    pub body: Option<String>,
    /// Current state ("open", "closed").
    pub state: String,
    /// URL to the pull request on GitHub.
    pub html_url: String,
    /// User who created the pull request.
    pub user: User,
    /// Labels attached to the pull request.
    pub labels: Vec<Label>,
    /// When the pull request was created.
    pub created_at: Timestamp,
    /// When the pull request was last updated.
    pub updated_at: Timestamp,
    /// When the pull request was closed, if closed.
    pub closed_at: Option<Timestamp>,
    /// When the pull request was merged, if merged.
    pub merged_at: Option<Timestamp>,
    /// The base branch (target of the merge).
    pub base: BranchRef,
    /// The head branch (source of the merge).
    pub head: BranchRef,
}

/// An event on an issue (labeling, assignment, milestone changes, ...).
#[derive(Debug, Clone)]
pub struct IssueEvent {
    /// Unique identifier for the event.
    pub id: u64,
    /// Event type (e.g., "labeled", "assigned", "closed").
    pub event: String,
    /// When the event occurred.
    pub created_at: Timestamp,
    /// User who triggered the event.
    pub actor: Option<User>,
    /// Label involved (for "labeled"/"unlabeled").
    pub label: Option<Label>,
    /// Assignee involved (for "assigned"/"unassigned").
    pub assignee: Option<User>,
    /// Milestone involved (for milestone events).
    pub milestone: Option<Milestone>,
}

/// Issue state filter for API queries.
#[derive(Debug, Clone, Copy, PartialEq, Eq, Structural)]
pub enum IssueState {
    /// Only open issues.
    Open,
    /// Only closed issues.
    Closed,
    /// Both open and closed issues.
    All,
}

/// Pull request state filter for API queries.
#[derive(Debug, Clone, Copy, PartialEq, Eq, Structural)]
pub enum PullRequestState {
    /// Only open pull requests.
    Open,
    /// Only closed pull requests (includes merged).
    Closed,
    /// All pull requests.
    All,
}

/// Rate limit status of the GitHub API.
#[derive(Debug, Clone, Copy, PartialEq, Eq, Structural)]
pub struct RateLimit {
    /// Maximum requests allowed per hour.
    pub limit: u32,
    /// Remaining requests in the current window.
    pub remaining: u32,
    /// Unix timestamp when the rate limit resets.
    pub reset: u64,
}

/// Response of the `/rate_limit` endpoint.
#[derive(Debug, Clone, Copy, PartialEq, Eq, Structural)]
pub struct RateLimitResponse {
    /// The core rate limit information.
    pub rate: RateLimit,
}

/// A GitHub release.
#[derive(Debug, Clone)]
pub struct Release {
    /// Unique identifier for the release.
    pub id: u64,
    /// Tag name of the release (e.g., "v1.0.0").
    pub tag_name: String,
    /// Human-readable release name.
    pub name: Option<String>,
    /// Release description in Markdown.
    pub body: Option<String>,
    /// Whether this is a draft release.
    pub draft: bool,
    /// Whether this is a pre-release.
    pub prerelease: bool,
    /// When the release was created.
    pub created_at: Timestamp,
    /// When the release was published.
    pub published_at: Option<Timestamp>,
    /// URL to the release on GitHub.
    pub html_url: String,
    /// User who created the release.
    pub author: User,
}

// ---------------------------------------------------------------------------
// Specifications
// ---------------------------------------------------------------------------

/// Some label is named exactly `name`.
pub open spec fn has_label_spec(labels: Seq<Label>, name: Seq<char>) -> bool {
    exists|i: int| 0 <= i < labels.len() && (#[trigger] labels[i]).name@ == name
}

/// Some label's name starts with `prefix`.
pub open spec fn has_label_prefix_spec(labels: Seq<Label>, prefix: Seq<char>) -> bool {
    exists|i: int| 0 <= i < labels.len() && text::starts_with((#[trigger] labels[i]).name@, prefix)
}

/// One of the T-shirt size names XS, S, M, L, XL.
pub open spec fn is_size_name(u: Seq<char>) -> bool {
    ||| u == seq!['X', 'S']
    ||| u == seq!['S']
    ||| u == seq!['M']
    ||| u == seq!['L']
    ||| u == seq!['X', 'L']
}

/// A label that names a size: bare ("M", "xl") or prefixed ("size:M", "size: l").
pub open spec fn label_is_size(name: Seq<char>) -> bool {
    ||| is_size_name(text::upper_text(name))
    ||| match text::strip_prefix(name, "size:"@) {
        Some(rest) => is_size_name(text::upper_text(text::trim_ws(rest))),
        None => false,
    }
}

/// The size a label names: for a label prefixed with `size:`, what follows
/// the prefix without surrounding white space; else the whole label.
pub open spec fn size_part(name: Seq<char>) -> Seq<char> {
    match text::strip_prefix(name, "size:"@) {
        Some(rest) => text::trim_ws(rest),
        None => name,
    }
}

/// `i` is the first label that names a size.
pub open spec fn is_first_size_label(labels: Seq<Label>, i: int) -> bool {
    &&& 0 <= i < labels.len()
    &&& label_is_size(labels[i].name@)
    &&& forall|j: int| 0 <= j < i ==> !label_is_size((#[trigger] labels[j]).name@)
}

/// The name of the first label that names a size, if any.
pub open spec fn size_label_spec(labels: Seq<Label>) -> Option<Seq<char>> {
    if exists|i: int| is_first_size_label(labels, i) {
        Some(labels[choose|i: int| is_first_size_label(labels, i)].name@)
    } else {
        None
    }
}

/// Index of the last `c` in `s[..end]`.
pub open spec fn is_last_index(s: Seq<char>, c: char, end: int, i: int) -> bool {
    &&& 0 <= i < end
    &&& s[i] == c
    &&& forall|j: int| i < j < end ==> s[j] != c
}

/// The last two `/`-separated segments of `url` (organisation and repository),
/// when it holds a `/`.
pub open spec fn org_repo_spec(url: Seq<char>) -> Option<(Seq<char>, Seq<char>)> {
    if exists|l: int| is_last_index(url, '/', url.len() as int, l) {
        let l = choose|l: int| is_last_index(url, '/', url.len() as int, l);
        let p = if exists|p: int| is_last_index(url, '/', l, p) {
            choose|p: int| is_last_index(url, '/', l, p)
        } else {
            -1
        };
        Some((url.subrange(p + 1, l), url.subrange(l + 1, url.len() as int)))
    } else {
        None
    }
}

/// An optional instant, when present, falls on a representable date.
pub open spec fn opt_ts_wf(t: Option<Timestamp>) -> bool {
    match t {
        Some(t) => t.wf(),
        None => true,
    }
}

impl Issue {
    /// The issue's instants fall on representable dates.
    pub open spec fn wf(&self) -> bool {
        &&& self.created_at.wf()
        &&& self.updated_at.wf()
        &&& opt_ts_wf(self.closed_at)
    }

    /// Whether the issue has a label named exactly `label_name`.
    pub fn has_label(&self, label_name: &str) -> (r: bool)
        ensures
            r == has_label_spec(self.labels@, label_name@),
    {
        let mut i: usize = 0;
        while i < self.labels.len()
            invariant
                i <= self.labels.len(),
                forall|j: int| 0 <= j < i ==> (#[trigger] self.labels@[j]).name@ != label_name@,
            decreases self.labels.len() - i,
        {
            if text::str_eq(self.labels[i].name.as_str(), label_name) {
                return true;
            }
            i = i + 1;
        }
        false
    }

    /// Whether some label of the issue starts with `prefix`.
    pub fn has_label_prefix(&self, prefix: &str) -> (r: bool)
        ensures
            r == has_label_prefix_spec(self.labels@, prefix@),
    {
        let mut i: usize = 0;
        while i < self.labels.len()
            invariant
                i <= self.labels.len(),
                forall|j: int|
                    0 <= j < i ==> !text::starts_with((#[trigger] self.labels@[j]).name@, prefix@),
            decreases self.labels.len() - i,
        {
            if text::str_starts_with(self.labels[i].name.as_str(), prefix) {
                return true;
            }
            i = i + 1;
        }
        false
    }

    /// The first label naming a size (XS, S, M, L, XL, in any case, bare or
    /// prefixed with `size:`), if any.
    pub fn size_label(&self) -> (r: Option<&str>)
        ensures
            r is Some <==> size_label_spec(self.labels@) is Some,
            r matches Some(l) ==> size_label_spec(self.labels@) == Some(l@),
    {
        let mut i: usize = 0;
        while i < self.labels.len()
            invariant
                i <= self.labels.len(),
                forall|j: int| 0 <= j < i ==> !label_is_size((#[trigger] self.labels@[j]).name@),
            decreases self.labels.len() - i,
        {
            if is_size_label(self.labels[i].name.as_str()) {
                proof {
                    assert(is_first_size_label(self.labels@, i as int));
                    let k = choose|k: int| is_first_size_label(self.labels@, k);
                    if k < i {
                        assert(!label_is_size(self.labels@[k].name@));
                    }
                    if k > i {
                        assert(!label_is_size(self.labels@[i as int].name@));
                    }
                }
                return Some(self.labels[i].name.as_str());
            }
            i = i + 1;
        }
        None
    }

    /// Whether the issue's state is "closed".
    pub fn is_closed(&self) -> (r: bool)
        ensures
            r == (self.state@ == "closed"@),
    {
        text::str_eq(self.state.as_str(), "closed")
    }

    /// Whether the issue's state is "open".
    pub fn is_open(&self) -> (r: bool)
        ensures
            r == (self.state@ == "open"@),
    {
        text::str_eq(self.state.as_str(), "open")
    }

    /// Login names of all assignees, in order.
    pub fn assignee_logins(&self) -> (r: Vec<&str>)
        ensures
            r.len() == self.assignees.len(),
            forall|i: int| 0 <= i < r.len() ==> (#[trigger] r@[i])@ == self.assignees@[i].login@,
    {
        let mut out: Vec<&str> = Vec::new();
        let mut i: usize = 0;
        while i < self.assignees.len()
            invariant
                i <= self.assignees.len(),
                out.len() == i,
                forall|j: int| 0 <= j < i ==> (#[trigger] out@[j])@ == self.assignees@[j].login@,
            decreases self.assignees.len() - i,
        {
            out.push(self.assignees[i].login.as_str());
            i = i + 1;
        }
        out
    }

    /// Organisation and repository names: the last two `/`-separated segments
    /// of the repository URL (e.g., "myorg" and "myrepo" for
    /// ".../repos/myorg/myrepo"); `None` when the URL holds no `/`.
    pub fn org_repo(&self) -> (r: Option<(&str, &str)>)
        ensures
            r is Some <==> org_repo_spec(self.repository_url@) is Some,
            r matches Some(p) ==> org_repo_spec(self.repository_url@) == Some((p.0@, p.1@)),
    {
        let s = self.repository_url.as_str();
        let v = text::chars_of(s);
        let ghost u = v@;
        match last_index_before(&v, '/', v.len()) {
            None => {
                proof {
                    if exists|l: int| is_last_index(u, '/', u.len() as int, l) {
                        let l = choose|l: int| is_last_index(u, '/', u.len() as int, l);
                        assert(u[l] == '/');
                    }
                }
                None
            },
            Some(l) => {
                proof {
                    let k = choose|k: int| is_last_index(u, '/', u.len() as int, k);
                    assert(k == l) by {
                        if k < l {
                            assert(u[l as int] == '/');
                        }
                        if k > l {
                            assert(u[k] == '/');
                        }
                    }
                }
                let start = match last_index_before(&v, '/', l) {
                    None => {
                        proof {
                            if exists|p: int| is_last_index(u, '/', l as int, p) {
                                let p = choose|p: int| is_last_index(u, '/', l as int, p);
                                assert(u[p] == '/');
                            }
                        }
                        0
                    },
                    Some(p) => {
                        proof {
                            let k = choose|k: int| is_last_index(u, '/', l as int, k);
                            assert(k == p) by {
                                if k < p {
                                    assert(u[p as int] == '/');
                                }
                                if k > p {
                                    assert(u[k] == '/');
                                }
                            }
                        }
                        p + 1
                    },
                };
                let org = s.substring_char(start, l);
                let repo = s.substring_char(l + 1, v.len());
                Some((org, repo))
            },
        }
    }
}

/// Index of the last `c` in `v[..end]`.
pub fn last_index_before(v: &Vec<char>, c: char, end: usize) -> (r: Option<usize>)
    requires
        end <= v.len(),
    ensures
        r matches Some(i) ==> is_last_index(v@, c, end as int, i as int),
        r is None ==> forall|j: int| 0 <= j < end ==> v@[j] != c,
{
    let mut i = end;
    while i > 0
        invariant
            i <= end <= v.len(),
            forall|j: int| i <= j < end ==> v@[j] != c,
        decreases i,
    {
        if v[i - 1] == c {
            return Some(i - 1);
        }
        i = i - 1;
    }
    None
}

/// Whether a label name names a size.
pub fn is_size_label(name: &str) -> (r: bool)
    ensures
        r == label_is_size(name@),
{
    let upper = text::to_uppercase(name);
    if is_size_text(upper.as_str()) {
        return true;
    }
    let v = text::chars_of(name);
    match text::strip_prefix_in(&v, v.len(), "size:") {
        Some(k) => {
            let (lo, hi) = text::trim_ws_bounds(&v, k, v.len());
            let rest = text::string_of(&v, lo, hi);
            let up = text::to_uppercase(rest.as_str());
            proof {
                assert(v@.subrange(0, v@.len() as int) =~= v@);
            }
            is_size_text(up.as_str())
        },
        None => {
            proof {
                assert(v@.subrange(0, v@.len() as int) =~= v@);
            }
            false
        },
    }
}

/// The size a label names (see `size_part`).
pub fn size_part_of(name: &str) -> (r: String)
    ensures
        r@ == size_part(name@),
{
    let v = text::chars_of(name);
    proof {
        assert(v@.subrange(0, v@.len() as int) =~= v@);
    }
    match text::strip_prefix_in(&v, v.len(), "size:") {
        Some(k) => {
            let (lo, hi) = text::trim_ws_bounds(&v, k, v.len());
            text::string_of(&v, lo, hi)
        },
        None => text::owned(name),
    }
}

/// Whether `u` is one of XS, S, M, L, XL.
pub fn is_size_text(u: &str) -> (r: bool)
    ensures
        r == is_size_name(u@),
{
    proof {
        reveal_strlit("XS");
        reveal_strlit("S");
        reveal_strlit("M");
        reveal_strlit("L");
        reveal_strlit("XL");
        assert("XS"@ =~= seq!['X', 'S']);
        assert("S"@ =~= seq!['S']);
        assert("M"@ =~= seq!['M']);
        assert("L"@ =~= seq!['L']);
        assert("XL"@ =~= seq!['X', 'L']);
    }
    text::str_eq(u, "XS") || text::str_eq(u, "S") || text::str_eq(u, "M") || text::str_eq(u, "L")
        || text::str_eq(u, "XL")
}

impl PullRequest {
    /// Whether the pull request was merged.
    pub fn is_merged(&self) -> (r: bool)
        ensures
            r == self.merged_at is Some,
    {
        self.merged_at.is_some()
    }

    /// Whether the pull request targets "main" or "master".
    pub fn is_to_main(&self) -> (r: bool)
        ensures
            r == (self.base.ref_name@ == "main"@ || self.base.ref_name@ == "master"@),
    {
        text::str_eq(self.base.ref_name.as_str(), "main") || text::str_eq(
            self.base.ref_name.as_str(),
            "master",
        )
    }
}

impl IssueEvent {
    /// Whether the event is "labeled" or "unlabeled".
    pub fn is_label_event(&self) -> (r: bool)
        ensures
            r == (self.event@ == "labeled"@ || self.event@ == "unlabeled"@),
    {
        text::str_eq(self.event.as_str(), "labeled") || text::str_eq(
            self.event.as_str(),
            "unlabeled",
        )
    }

    /// Whether the event is "assigned" or "unassigned".
    pub fn is_assignment_event(&self) -> (r: bool)
        ensures
            r == (self.event@ == "assigned"@ || self.event@ == "unassigned"@),
    {
        text::str_eq(self.event.as_str(), "assigned") || text::str_eq(
            self.event.as_str(),
            "unassigned",
        )
    }
}

/// The `state` query parameter of issue queries.
pub open spec fn issue_state_text(s: IssueState) -> Seq<char> {
    match s {
        IssueState::Open => "open"@,
        IssueState::Closed => "closed"@,
        IssueState::All => "all"@,
    }
}

impl IssueState {
    /// The value of the `state` query parameter.
    pub fn as_str(&self) -> (r: &'static str)
        ensures
            r@ == issue_state_text(*self),
    {
        match self {
            IssueState::Open => "open",
            IssueState::Closed => "closed",
            IssueState::All => "all",
        }
    }
}

impl PullRequestState {
    /// The value of the `state` query parameter.
    pub fn as_str(&self) -> (r: &'static str)
        ensures
            r@ == match *self {
                PullRequestState::Open => "open"@,
                PullRequestState::Closed => "closed"@,
                PullRequestState::All => "all"@,
            },
    {
        match self {
            PullRequestState::Open => "open",
            PullRequestState::Closed => "closed",
            PullRequestState::All => "all",
        }
    }
}

/// The text `RateLimit::reset_in_from` gives.
pub open spec fn reset_in_spec(reset: u64, now: u64) -> Seq<char> {
    if reset <= now {
        "now"@
    } else if reset - now < 60 {
        text::decimal((reset - now) as nat) + seq!['s']
    } else {
        text::decimal(((reset - now) / 60) as nat) + seq!['m']
    }
}

impl RateLimit {
    /// Whether fewer than 100 requests remain.
    pub fn is_low(&self) -> (r: bool)
        ensures
            r == (self.remaining < 100),
    {
        self.remaining < 100
    }

    /// Time from now until the reset, as `reset_in_from` gives it for the
    /// current Unix time (read as `u64`).
    pub fn reset_in(&self) -> (r: String)
        ensures
            exists|now: u64| r@ == reset_in_spec(self.reset, now),
    {
        let now = crate::calendar::Timestamp::now();
        let secs = #[verifier::truncate] (now.secs as u64);
        self.reset_in_from(secs)
    }

    /// Time from `now` (a Unix timestamp) until the reset: "now", seconds
    /// below a minute ("45s"), else whole minutes ("12m").
    pub fn reset_in_from(&self, now: u64) -> (r: String)
        ensures
            r@ == reset_in_spec(self.reset, now),
    {
        if self.reset <= now {
            text::owned("now")
        } else {
            let seconds = self.reset - now;
            let mut out = String::new();
            if seconds < 60 {
                text::push_decimal(&mut out, seconds);
                text::push_char(&mut out, 's');
            } else {
                text::push_decimal(&mut out, seconds / 60);
                text::push_char(&mut out, 'm');
            }
            out
        }
    }
}

impl Release {
    /// The release's instants fall on representable dates.
    pub open spec fn wf(&self) -> bool {
        &&& self.created_at.wf()
        &&& opt_ts_wf(self.published_at)
    }

    /// The release name if set, otherwise its tag name.
    pub fn display_name(&self) -> (r: &str)
        ensures
            r@ == match self.name {
                Some(n) => n@,
                None => self.tag_name@,
            },
    {
        match &self.name {
            Some(n) => n.as_str(),
            None => self.tag_name.as_str(),
        }
    }

    /// Whether the release was published (UTC date) within `start..=end`.
    pub fn published_in_range(&self, start: Date, end: Date) -> (r: bool)
        requires
            self.wf(),
        ensures
            r == match self.published_at {
                Some(p) => start.day <= crate::calendar::utc_day(p.secs as int) <= end.day,
                None => false,
            },
    {
        match &self.published_at {
            Some(p) => {
                let d = p.date();
                d.day >= start.day && d.day <= end.day
            },
            None => false,
        }
    }
}

} // verus!
