//! GitHub authentication: host names for the gh CLI and the choice of a token.

use vstd::prelude::*;
use crate::text;

verus! {

/// The URL names public GitHub (after removing trailing slashes).
pub open spec fn is_public_github_url(trimmed: Seq<char>) -> bool {
    trimmed == "https://github.com"@ || trimmed == "http://github.com"@
}

/// The host part of what follows a URL's scheme: everything before the
/// first `/`.
pub open spec fn host_of(rest: Seq<char>) -> Seq<char> {
    match text::split_once(rest, '/') {
        Some(p) => p.0,
        None => rest,
    }
}

/// What `extract_hostname` returns.
pub open spec fn extract_hostname_spec(url: Seq<char>) -> Option<Seq<char>> {
    let u = text::trim_end(url, '/');
    if is_public_github_url(u) {
        None
    } else {
        match text::strip_prefix(u, "https://"@) {
            Some(rest) => Some(host_of(rest)),
            None => match text::strip_prefix(u, "http://"@) {
                Some(rest) => Some(host_of(rest)),
                None => None,
            },
        }
    }
}

/// The host part of `v[k..n]`: the characters before the first `/`.
fn host_text(v: &Vec<char>, k: usize, n: usize) -> (r: String)
    requires
        k <= n <= v.len(),
    ensures
        r@ == host_of(v@.subrange(k as int, n as int)),
{
    let rest = text::string_of(v, k, n);
    let rv = text::chars_of(rest.as_str());
    match text::find_char(&rv, '/') {
        Some(i) => text::string_of(&rv, 0, i),
        None => rest,
    }
}

/// Extracts the host name of a GitHub URL for use with the gh CLI.
///
/// Public GitHub gives `None` (gh defaults to github.com); an enterprise URL
/// gives its host name: what follows its `https://` or `http://` scheme, up to
/// the first `/`; a URL with neither scheme gives `None`.
pub fn extract_hostname(enterprise_url: &str) -> (r: Option<String>)
    ensures
        r is Some <==> extract_hostname_spec(enterprise_url@) is Some,
        r matches Some(h) ==> extract_hostname_spec(enterprise_url@) == Some(h@),
{
    let v = text::chars_of(enterprise_url);
    let n = text::trim_end_len(&v, '/');
    let ghost u = v@.subrange(0, n as int);
    if text::prefix_eq(&v, n, "https://github.com") || text::prefix_eq(&v, n, "http://github.com") {
        return None;
    }
    match text::strip_prefix_in(&v, n, "https://") {
        Some(k) => {
            let h = host_text(&v, k, n);
            assert(v@.subrange(k as int, n as int) =~= u.subrange(k as int, u.len() as int));
            Some(h)
        },
        None => match text::strip_prefix_in(&v, n, "http://") {
            Some(k) => {
                let h = host_text(&v, k, n);
                assert(v@.subrange(k as int, n as int) =~= u.subrange(k as int, u.len() as int));
                Some(h)
            },
            None => None,
        },
    }
}

/// Trailing slashes do not change the extracted host name.
pub proof fn lemma_extract_hostname_trailing_slash(url: Seq<char>)
    ensures
        extract_hostname_spec(url.push('/')) == extract_hostname_spec(url),
{
    text::lemma_trim_end_push(url, '/');
}

/// What the token choice gives: a non-empty explicit token, else a non-empty
/// environment token, else nothing.
pub open spec fn pick_token_spec(explicit: Option<Seq<char>>, env: Option<Seq<char>>) -> Option<
    Seq<char>,
> {
    if explicit is Some && explicit->0.len() > 0 {
        explicit
    } else if env is Some && env->0.len() > 0 {
        env
    } else {
        None
    }
}

/// The text of an optional string slice.
pub open spec fn opt_view(o: Option<&str>) -> Option<Seq<char>> {
    match o {
        Some(s) => Some(s@),
        None => None,
    }
}

/// Chooses a GitHub token from the `--token` argument and the `GITHUB_TOKEN`
/// environment variable, in that order; empty values are skipped. `None`
/// means the gh CLI is the remaining source.
pub fn pick_token(explicit: Option<&str>, env: Option<&str>) -> (r: Option<String>)
    ensures
        r is Some <==> pick_token_spec(opt_view(explicit), opt_view(env)) is Some,
        r matches Some(t) ==> pick_token_spec(opt_view(explicit), opt_view(env)) == Some(t@),
{
    if let Some(t) = explicit {
        let v = text::chars_of(t);
        if v.len() > 0 {
            return Some(text::owned(t));
        }
    }
    if let Some(t) = env {
        let v = text::chars_of(t);
        if v.len() > 0 {
            return Some(text::owned(t));
        }
    }
    None
}

/// The token printed by `gh auth token`: its output without surrounding
/// white space, or `None` when nothing is left of it.
pub fn token_from_gh_output(out: &str) -> (r: Option<String>)
    ensures
        r is Some <==> text::trim_ws(out@).len() > 0,
        r matches Some(t) ==> t@ == text::trim_ws(out@),
{
    let v = text::chars_of(out);
    let (lo, hi) = text::trim_ws_bounds(&v, 0, v.len());
    assert(v@.subrange(0, v@.len() as int) =~= v@);
    if lo < hi {
        Some(text::string_of(&v, lo, hi))
    } else {
        None
    }
}

/// The first part of the message when no token is found.
pub open spec fn missing_token_text() -> Seq<char> {
    "No GitHub token found. Please provide one via:\n- --token argument\n- GITHUB_TOKEN environment variable\n- gh auth login"@
}

/// The message given when no token source yields a token; for an enterprise
/// host it names the `--hostname` to log in with.
pub fn missing_token_message(hostname: Option<&str>) -> (r: String)
    ensures
        r@ == missing_token_text() + match hostname {
            Some(h) => " --hostname "@ + h@,
            None => Seq::<char>::empty(),
        },
{
    let mut out = text::owned(
        "No GitHub token found. Please provide one via:\n- --token argument\n- GITHUB_TOKEN environment variable\n- gh auth login",
    );
    if let Some(h) = hostname {
        text::push_str(&mut out, " --hostname ");
        text::push_str(&mut out, h);
        assert(out@ =~= missing_token_text() + (" --hostname "@ + h@));
    } else {
        assert(out@ =~= missing_token_text() + Seq::<char>::empty());
    }
    out
}

} // verus!
