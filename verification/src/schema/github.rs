//! GitHub Enterprise configuration: the instance URL, organisations with
//! repository filters, project boards, distraction sources and delivery repositories.

use vstd::prelude::*;
use crate::github::auth;
use crate::pattern;
use crate::text;

verus! {

/// GitHub Enterprise configuration.
#[derive(Debug, Clone)]
pub struct GitHubConfig {
    /// Base URL of the GitHub instance (e.g., `https://github.mycompany.com`).
    pub enterprise_url: String,
    /// Organisations and repository filters.
    pub organisations: Vec<Organisation>,
    /// GitHub Projects (project boards) to track.
    pub projects: Vec<GitHubProject>,
    /// Non-project work that consumes team capacity.
    pub distractions: Vec<Distraction>,
    /// Repositories whose releases count as deliveries.
    pub delivery_repos: Vec<DeliveryRepo>,
}

/// A repository tracked for deliveries via releases.
#[derive(Debug, Clone)]
pub struct DeliveryRepo {
    /// Organisation holding the repository.
    pub org: String,
    /// Repository name.
    pub repo: String,
    /// Human-readable name of the deliverable (the repository name when absent).
    pub name: Option<String>,
}

/// An organisation or user with a repository filter.
#[derive(Debug, Clone)]
pub struct Organisation {
    /// Organisation or user name (as it appears in GitHub URLs).
    pub name: String,
    /// Regular expression selecting repositories by name (`.*` for all).
    pub repo_pattern: String,
    /// The name is a user account (`/users/{name}/repos`) rather than an
    /// organisation (`/orgs/{name}/repos`).
    pub is_user: bool,
}

/// A GitHub Project (project board) to track.
#[derive(Debug, Clone)]
pub struct GitHubProject {
    /// Organisation holding the project.
    pub org: String,
    /// Project number (from the URL).
    pub project_number: u32,
    /// Human-readable name for reporting.
    pub name: String,
}

/// Non-project work that consumes team capacity.
#[derive(Debug, Clone)]
pub struct Distraction {
    /// Organisation holding the repository.
    pub org: String,
    /// Repository name.
    pub repo: String,
    /// Only issues with this label count, when set.
    pub label: Option<String>,
    /// Human-readable name for reporting.
    pub name: String,
}

/// `org/repo`.
pub open spec fn full_repo_spec(org: Seq<char>, repo: Seq<char>) -> Seq<char> {
    org + seq!['/'] + repo
}

/// The REST API base URL for an instance URL.
pub open spec fn api_url_spec(url: Seq<char>) -> Seq<char> {
    let base = text::trim_end(url, '/');
    if auth::is_public_github_url(base) {
        "https://api.github.com"@
    } else {
        base + "/api/v3"@
    }
}

/// The GraphQL API URL for an instance URL.
pub open spec fn graphql_url_spec(url: Seq<char>) -> Seq<char> {
    let base = text::trim_end(url, '/');
    if auth::is_public_github_url(base) {
        "https://api.github.com/graphql"@
    } else {
        base + "/api/graphql"@
    }
}

/// Whether an organisation filter selects `org/repo`.
pub open spec fn org_matches_spec(o: Organisation, org: Seq<char>, repo: Seq<char>) -> bool {
    org == o.name@ && pattern::regex_compiles(o.repo_pattern@) && pattern::regex_is_match(
        o.repo_pattern@,
        repo,
    )
}

impl DeliveryRepo {
    /// The full repository path `org/repo`.
    pub fn full_repo(&self) -> (r: String)
        ensures
            r@ == full_repo_spec(self.org@, self.repo@),
    {
        let mut out = text::owned(self.org.as_str());
        text::push_char(&mut out, '/');
        text::push_str(&mut out, self.repo.as_str());
        out
    }

    /// The display name: the configured name, else the repository name.
    pub fn display_name(&self) -> (r: &str)
        ensures
            r@ == match self.name {
                Some(n) => n@,
                None => self.repo@,
            },
    {
        match &self.name {
            Some(n) => n.as_str(),
            None => self.repo.as_str(),
        }
    }
}

impl GitHubConfig {
    /// The REST API base URL: `https://api.github.com` for public GitHub,
    /// else the instance URL (without trailing slashes) followed by `/api/v3`.
    pub fn api_url(&self) -> (r: String)
        ensures
            r@ == api_url_spec(self.enterprise_url@),
    {
        let v = text::chars_of(self.enterprise_url.as_str());
        let n = text::trim_end_len(&v, '/');
        if text::prefix_eq(&v, n, "https://github.com") || text::prefix_eq(&v, n, "http://github.com") {
            text::owned("https://api.github.com")
        } else {
            let mut out = text::string_of(&v, 0, n);
            text::push_str(&mut out, "/api/v3");
            out
        }
    }

    /// Whether the instance is public GitHub (`https://github.com` or
    /// `http://github.com`, trailing slashes ignored).
    pub fn is_public_github(&self) -> (r: bool)
        ensures
            r == auth::is_public_github_url(text::trim_end(self.enterprise_url@, '/')),
    {
        let v = text::chars_of(self.enterprise_url.as_str());
        let n = text::trim_end_len(&v, '/');
        text::prefix_eq(&v, n, "https://github.com") || text::prefix_eq(&v, n, "http://github.com")
    }

    /// The GraphQL API URL: `https://api.github.com/graphql` for public
    /// GitHub, else the instance URL (without trailing slashes) followed by
    /// `/api/graphql`.
    pub fn graphql_url(&self) -> (r: String)
        ensures
            r@ == graphql_url_spec(self.enterprise_url@),
    {
        let v = text::chars_of(self.enterprise_url.as_str());
        let n = text::trim_end_len(&v, '/');
        if text::prefix_eq(&v, n, "https://github.com") || text::prefix_eq(&v, n, "http://github.com") {
            text::owned("https://api.github.com/graphql")
        } else {
            let mut out = text::string_of(&v, 0, n);
            text::push_str(&mut out, "/api/graphql");
            out
        }
    }

    /// Whether some organisation filter selects `org/repo`.
    pub fn matches_repo(&self, org: &str, repo: &str) -> (r: bool)
        ensures
            r == exists|i: int|
                0 <= i < self.organisations.len() && org_matches_spec(
                    #[trigger] self.organisations@[i],
                    org@,
                    repo@,
                ),
    {
        let mut i: usize = 0;
        while i < self.organisations.len()
            invariant
                i <= self.organisations.len(),
                forall|j: int|
                    0 <= j < i ==> !org_matches_spec(#[trigger] self.organisations@[j], org@, repo@),
            decreases self.organisations.len() - i,
        {
            if self.organisations[i].matches(org, repo) {
                return true;
            }
            i = i + 1;
        }
        false
    }

    /// Names of all organisations, in order.
    pub fn org_names(&self) -> (r: Vec<&str>)
        ensures
            r.len() == self.organisations.len(),
            forall|i: int| 0 <= i < r.len() ==> (#[trigger] r@[i])@ == self.organisations@[i].name@,
    {
        let mut out: Vec<&str> = Vec::new();
        let mut i: usize = 0;
        while i < self.organisations.len()
            invariant
                i <= self.organisations.len(),
                out.len() == i,
                forall|j: int| 0 <= j < i ==> (#[trigger] out@[j])@ == self.organisations@[j].name@,
            decreases self.organisations.len() - i,
        {
            out.push(self.organisations[i].name.as_str());
            i = i + 1;
        }
        out
    }
}

impl Organisation {
    /// Whether this filter selects `org/repo`: the organisation is this one and
    /// the pattern compiles and matches the repository name (an invalid pattern
    /// matches nothing).
    pub fn matches(&self, org: &str, repo: &str) -> (r: bool)
        ensures
            r == org_matches_spec(*self, org@, repo@),
    {
        if !text::str_eq(org, self.name.as_str()) {
            return false;
        }
        match pattern::pattern_matches(self.repo_pattern.as_str(), repo) {
            Some(b) => b,
            None => false,
        }
    }

    /// Checks that the repository pattern is a valid regular expression.
    pub fn validate_pattern(&self) -> (r: Result<(), regex::Error>)
        ensures
            r is Ok <==> pattern::regex_compiles(self.repo_pattern@),
    {
        pattern::check_pattern(self.repo_pattern.as_str())
    }
}

/// The web URL of a project board.
pub open spec fn project_url_spec(base: Seq<char>, org: Seq<char>, number: nat) -> Seq<char> {
    text::trim_end(base, '/') + "/orgs/"@ + org + "/projects/"@ + text::decimal(number)
}

impl GitHubProject {
    /// The project's URL under `base_url` (trailing slashes of the base ignored).
    pub fn url(&self, base_url: &str) -> (r: String)
        ensures
            r@ == project_url_spec(base_url@, self.org@, self.project_number as nat),
    {
        let v = text::chars_of(base_url);
        let n = text::trim_end_len(&v, '/');
        let mut out = text::string_of(&v, 0, n);
        text::push_str(&mut out, "/orgs/");
        text::push_str(&mut out, self.org.as_str());
        text::push_str(&mut out, "/projects/");
        text::push_decimal(&mut out, self.project_number as u64);
        out
    }
}

impl Distraction {
    /// The full repository path `org/repo`.
    pub fn full_repo(&self) -> (r: String)
        ensures
            r@ == full_repo_spec(self.org@, self.repo@),
    {
        let mut out = text::owned(self.org.as_str());
        text::push_char(&mut out, '/');
        text::push_str(&mut out, self.repo.as_str());
        out
    }
}

/// The API base URL is `https://api.github.com` exactly when the instance is
/// public GitHub.
pub proof fn lemma_api_url_public(url: Seq<char>)
    ensures
        api_url_spec(url) == "https://api.github.com"@ <==> auth::is_public_github_url(
            text::trim_end(url, '/'),
        ),
{
    let base = text::trim_end(url, '/');
    if !auth::is_public_github_url(base) {
        let u = base + "/api/v3"@;
        reveal_strlit("/api/v3");
        reveal_strlit("https://api.github.com");
        assert(u.last() == '3');
        assert("https://api.github.com"@.last() == 'm');
    }
}

/// Trailing slashes on the instance URL change neither the API URL, the
/// GraphQL URL, whether it is public GitHub, nor the extracted host name.
pub proof fn lemma_instance_url_trailing_slash(url: Seq<char>)
    ensures
        api_url_spec(url.push('/')) == api_url_spec(url),
        graphql_url_spec(url.push('/')) == graphql_url_spec(url),
        text::trim_end(url.push('/'), '/') == text::trim_end(url, '/'),
        auth::extract_hostname_spec(url.push('/')) == auth::extract_hostname_spec(url),
{
    text::lemma_trim_end_push(url, '/');
}

/// Public GitHub needs no host name for the gh CLI.
pub proof fn lemma_public_github_has_no_hostname(url: Seq<char>)
    requires
        auth::is_public_github_url(text::trim_end(url, '/')),
    ensures
        auth::extract_hostname_spec(url) is None,
{
}

} // verus!
