use rv::github::{github_api_get, is_allowed_github_auth_url, UrlParts, GITHUB_API_VERSION};

fn parsed_url(url: &str) -> UrlParts {
    let u = url::Url::parse(url)
        .unwrap_or_else(|error| panic!("failed to parse test URL {url}: {error}"));
    UrlParts {
        scheme: u.scheme().to_string(),
        host: u.host_str().map(|h| h.to_string()),
        serialized: u.as_str().to_string(),
    }
}

fn request_has_authorization(url: &str, token: Option<&str>) -> bool {
    let request = github_api_get(url, token.map(|t| t.to_string()))
        .unwrap_or_else(|error| panic!("failed to parse request URL {url}: {}", error.message));
    request.headers.iter().any(|(name, _)| name == "Authorization")
}

#[test]
fn test_github_api_version_is_valid() {
    assert_eq!(GITHUB_API_VERSION.len(), 10);
    assert!(GITHUB_API_VERSION.chars().nth(4) == Some('-'));
    assert!(GITHUB_API_VERSION.chars().nth(7) == Some('-'));
}

#[test]
fn test_github_api_get_only_authenticates_allowed_urls() {
    let token = Some("github_token_value");
    assert!(request_has_authorization(
        "https://api.github.com/repos/owner/repo",
        token
    ));
    assert!(!request_has_authorization(
        "http://api.github.com/repos/owner/repo",
        token
    ));
    assert!(!request_has_authorization("http://github.com/owner/repo", token));
    assert!(!request_has_authorization(
        "https://raw.github.com/owner/repo/main/file",
        token
    ));
}

#[test]
fn test_is_allowed_github_auth_url_for_expected_hosts() {
    assert!(is_allowed_github_auth_url(&parsed_url(
        "https://github.com/owner/repo"
    )));
    assert!(is_allowed_github_auth_url(&parsed_url(
        "https://github.com/spinel-coop/rv-ruby/releases/latest/download/ruby-3.3.0.tar.gz"
    )));
    assert!(is_allowed_github_auth_url(&parsed_url(
        "https://api.github.com/repos/owner/repo"
    )));
}

#[test]
fn test_is_allowed_github_auth_url_rejects_insecure_schemes() {
    assert!(!is_allowed_github_auth_url(&parsed_url(
        "http://github.com/owner/repo"
    )));
    assert!(!is_allowed_github_auth_url(&parsed_url(
        "http://api.github.com/repos/owner/repo"
    )));
}

#[test]
fn test_is_allowed_github_auth_url_rejects_unapproved_subdomains() {
    assert!(!is_allowed_github_auth_url(&parsed_url(
        "https://raw.github.com/owner/repo/main/file"
    )));
    assert!(!is_allowed_github_auth_url(&parsed_url(
        "https://objects.github.com/something"
    )));
}

#[test]
fn test_is_allowed_github_auth_url_is_case_insensitive() {
    assert!(is_allowed_github_auth_url(&parsed_url(
        "https://GITHUB.COM/owner/repo"
    )));
    assert!(is_allowed_github_auth_url(&parsed_url(
        "https://GitHub.com/owner/repo"
    )));
    assert!(is_allowed_github_auth_url(&parsed_url(
        "https://API.GITHUB.COM/repos"
    )));
}

#[test]
fn test_is_allowed_github_auth_url_rejects_fake_domains() {
    assert!(!is_allowed_github_auth_url(&parsed_url(
        "https://fakegithub.com/owner/repo"
    )));
    assert!(!is_allowed_github_auth_url(&parsed_url(
        "https://notgithub.com/owner/repo"
    )));
    assert!(!is_allowed_github_auth_url(&parsed_url(
        "https://github.com.evil.com/owner/repo"
    )));
    assert!(!is_allowed_github_auth_url(&parsed_url(
        "https://mygithub.company.com/owner/repo"
    )));
}

#[test]
fn test_is_allowed_github_auth_url_rejects_github_in_path() {
    assert!(!is_allowed_github_auth_url(&parsed_url(
        "https://example.com/github.com/owner/repo"
    )));
    assert!(!is_allowed_github_auth_url(&parsed_url(
        "https://mirror.example.com/proxy/github.com/file"
    )));
}

#[test]
fn test_is_allowed_github_auth_url_rejects_non_github() {
    assert!(!is_allowed_github_auth_url(&parsed_url(
        "https://gitlab.com/owner/repo"
    )));
    assert!(!is_allowed_github_auth_url(&parsed_url(
        "https://bitbucket.org/owner/repo"
    )));
    assert!(!is_allowed_github_auth_url(&parsed_url(
        "https://example.com/file.tar.gz"
    )));
}

#[test]
fn test_is_allowed_github_auth_url_rejects_missing_hosts() {
    assert!(!is_allowed_github_auth_url(&parsed_url(
        "file:///tmp/archive"
    )));
}

#[test]
fn test_github_api_get_rejects_invalid_urls() {
    assert!(github_api_get("not a url", None).is_err());
    assert!(github_api_get("", None).is_err());
    assert!(github_api_get("github.com/owner/repo", None).is_err());
}

#[test]
fn mixed_case_hosts_are_compared_without_case() {
    let parts = UrlParts {
        scheme: "https".to_string(),
        host: Some("Api.GitHub.Com".to_string()),
        serialized: "https://Api.GitHub.Com/".to_string(),
    };
    assert!(is_allowed_github_auth_url(&parts));
    let parts = UrlParts { scheme: "HTTPS".to_string(), ..parts };
    assert!(!is_allowed_github_auth_url(&parts));
}

#[test]
fn requests_carry_the_standard_headers_and_the_bearer_token() {
    let req = github_api_get(
        "https://api.github.com/repos/spinel-coop/rv-ruby/releases/latest",
        Some("secret".to_string()),
    )
    .unwrap();
    assert_eq!(req.url.host.as_deref(), Some("api.github.com"));
    assert_eq!(
        req.headers,
        vec![
            ("User-Agent".to_string(), "rv-cli".to_string()),
            ("Accept".to_string(), "application/vnd.github+json".to_string()),
            ("X-GitHub-Api-Version".to_string(), "2022-11-28".to_string()),
            ("Authorization".to_string(), "Bearer secret".to_string()),
        ]
    );
    let req = github_api_get("https://api.github.com/repos", None).unwrap();
    assert_eq!(req.headers.len(), 3);
}

#[test]
fn an_unparsable_url_reports_the_parser_error() {
    let err = github_api_get("not a url", None).unwrap_err();
    assert_eq!(err.message, "relative URL without a base");
}
