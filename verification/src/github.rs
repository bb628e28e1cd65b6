//! Requests to GitHub's API: the standard headers, and the rule that decides
//! which URLs may receive a bearer token.

use vstd::prelude::*;
use crate::bindings::{url_parse, url_parts};
use crate::text::chars_of;

verus! {

/// The recommended GitHub API version header value.
pub const GITHUB_API_VERSION: &'static str = "2022-11-28";

/// Why a URL could not be parsed: the `url` crate's description of the
/// error.
#[derive(Debug, Clone, PartialEq, Eq)]
pub struct UrlError {
    pub message: String,
}

/// What the rules read of a parsed URL: its scheme, its host if it has one,
/// and the URL as serialized by the parser.
#[derive(Debug, Clone, PartialEq, Eq)]
pub struct UrlParts {
    pub scheme: String,
    pub host: Option<String>,
    pub serialized: String,
}

impl DeepView for UrlParts {
    type V = (Seq<char>, Option<Seq<char>>, Seq<char>);

    open spec fn deep_view(&self) -> (Seq<char>, Option<Seq<char>>, Seq<char>) {
        (
            self.scheme@,
            match self.host {
                Some(h) => Some(h@),
                None => None,
            },
            self.serialized@,
        )
    }
}

/// The ASCII lowercase of `c`; other characters are unchanged.
pub open spec fn ascii_lowercase(c: char) -> char {
    if 'A' <= c && c <= 'Z' {
        ((c as u32) + 32) as char
    } else {
        c
    }
}

/// The texts are equal when ASCII letters are compared without regard to
/// case, as `str::eq_ignore_ascii_case` compares them.
pub open spec fn eq_ignore_ascii_case(a: Seq<char>, b: Seq<char>) -> bool {
    a.len() == b.len() && forall|i: int|
        0 <= i < a.len() ==> ascii_lowercase(#[trigger] a[i]) == ascii_lowercase(b[i])
}

/// A bearer token may be sent to the URL: it is HTTPS, and its host is
/// `github.com` or `api.github.com`, in any case.
pub open spec fn auth_allowed(url: (Seq<char>, Option<Seq<char>>, Seq<char>)) -> bool {
    &&& url.0 == "https"@
    &&& match url.1 {
        Some(h) => eq_ignore_ascii_case(h, "github.com"@) || eq_ignore_ascii_case(
            h,
            "api.github.com"@,
        ),
        None => false,
    }
}

/// `a` equals `b` when ASCII letters are compared without regard to case.
pub fn str_eq_ignore_ascii_case(a: &str, b: &str) -> (r: bool)
    ensures
        r == eq_ignore_ascii_case(a@, b@),
{
    let x = chars_of(a);
    let y = chars_of(b);
    if x.len() != y.len() {
        return false;
    }
    let mut i: usize = 0;
    while i < x.len()
        invariant
            x@ == a@,
            y@ == b@,
            x@.len() == y@.len(),
            i <= x@.len(),
            forall|j: int| 0 <= j < i ==> ascii_lowercase(#[trigger] x@[j]) == ascii_lowercase(y@[j]),
        decreases x@.len() - i,
    {
        let c = x[i];
        let d = y[i];
        let lc = if 'A' <= c && c <= 'Z' {
            ((c as u32) + 32) as u32
        } else {
            c as u32
        };
        let ld = if 'A' <= d && d <= 'Z' {
            ((d as u32) + 32) as u32
        } else {
            d as u32
        };
        if lc != ld {
            assert(ascii_lowercase(x@[i as int]) as u32 == lc);
            assert(ascii_lowercase(y@[i as int]) as u32 == ld);
            return false;
        }
        assert(ascii_lowercase(x@[i as int]) as u32 == ascii_lowercase(y@[i as int]) as u32);
        i = i + 1;
    }
    true
}

/// Returns true when a bearer token may be sent to this GitHub URL.
///
/// Tokens are restricted to HTTPS requests for the GitHub hosts that `rv`
/// uses for release metadata and archive downloads.
pub fn is_allowed_github_auth_url(url: &UrlParts) -> (r: bool)
    ensures
        r == auth_allowed(url.deep_view()),
{
    if !crate::text::str_eq(url.scheme.as_str(), "https") {
        return false;
    }
    match &url.host {
        Some(host) => str_eq_ignore_ascii_case(host.as_str(), "github.com")
            || str_eq_ignore_ascii_case(host.as_str(), "api.github.com"),
        None => false,
    }
}

/// A GET request to GitHub's API: the URL and the headers to send.
#[derive(Debug, Clone, PartialEq, Eq)]
pub struct GithubRequest {
    pub url: UrlParts,
    pub headers: Vec<(String, String)>,
}

/// The headers of a request to `url`: the user agent, the accepted media
/// type and the API version, then, when a token is given and the URL may
/// receive it, the bearer token.
pub open spec fn github_headers(
    url: (Seq<char>, Option<Seq<char>>, Seq<char>),
    token: Option<Seq<char>>,
) -> Seq<(Seq<char>, Seq<char>)> {
    seq![
        ("User-Agent"@, "rv-cli"@),
        ("Accept"@, "application/vnd.github+json"@),
        ("X-GitHub-Api-Version"@, GITHUB_API_VERSION@),
    ] + match token {
        Some(t) => if auth_allowed(url) {
            seq![("Authorization"@, "Bearer "@ + t)]
        } else {
            seq![]
        },
        None => seq![],
    }
}

fn header(name: &str, value: String) -> (h: (String, String))
    ensures
        h.0@ == name@,
        h.1@ == value@,
{
    (name.to_string(), value)
}

/// Builds a GET request for a GitHub API endpoint with the standard headers,
/// and with the token, when one is given, if the URL may receive it. A URL
/// that does not parse is an error.
pub fn github_api_get(url: &str, token: Option<String>) -> (r: Result<GithubRequest, UrlError>)
    ensures
        match (r, url_parse(url@)) {
            (Ok(req), Ok(parts)) => req.url.deep_view() == parts && req.headers.deep_view()
                == github_headers(parts, token.deep_view()),
            (Err(e), Err(me)) => e.message@ == me,
            _ => false,
        },
        r is Ok ==> exists|i: int| 0 <= i < url@.len() && url@[i] == ':',
{
    let parts = match url_parts(url) {
        Ok(p) => p,
        Err(e) => return Err(e),
    };
    let mut headers: Vec<(String, String)> = Vec::new();
    headers.push(header("User-Agent", "rv-cli".to_string()));
    headers.push(header("Accept", "application/vnd.github+json".to_string()));
    headers.push(header("X-GitHub-Api-Version", GITHUB_API_VERSION.to_string()));
    let allowed = is_allowed_github_auth_url(&parts);
    let ghost expected = github_headers(parts.deep_view(), token.deep_view());
    match token {
        Some(t) => {
            if allowed {
                let mut value = String::from_str("Bearer ");
                value.append(t.as_str());
                headers.push(header("Authorization", value));
            }
        },
        None => {},
    }
    assert(headers.deep_view() =~= expected);
    Ok(GithubRequest { url: parts, headers })
}

/// A request carries an `Authorization` header only when a token was given
/// and the URL may receive it, and then the header holds that token.
pub proof fn lemma_token_only_for_allowed_urls(
    url: (Seq<char>, Option<Seq<char>>, Seq<char>),
    token: Option<Seq<char>>,
    i: int,
)
    requires
        0 <= i < github_headers(url, token).len(),
        github_headers(url, token)[i].0 == "Authorization"@,
    ensures
        auth_allowed(url),
        token matches Some(t) && github_headers(url, token)[i].1 == "Bearer "@ + t,
{
    reveal_strlit("Authorization");
    reveal_strlit("User-Agent");
    reveal_strlit("Accept");
    reveal_strlit("X-GitHub-Api-Version");
    let h = github_headers(url, token);
    assert(i >= 3) by {
        if i < 3 {
            assert(h[i].0.len() != "Authorization"@.len());
        }
    }
}

/// When a token is given and the URL may receive it, the request carries it
/// as a bearer token, after the three standard headers.
pub proof fn lemma_allowed_url_gets_token(
    url: (Seq<char>, Option<Seq<char>>, Seq<char>),
    t: Seq<char>,
)
    requires
        auth_allowed(url),
    ensures
        github_headers(url, Some(t)).len() == 4,
        github_headers(url, Some(t))[3] == ("Authorization"@, "Bearer "@ + t),
{
}

} // verus!
