use browsers::{parse_url, UrlGlobMatcher};

fn url(s: &str) -> browsers::ParsedUrl {
    parse_url(s).expect("test URL must parse")
}

#[test]
fn matcher_is_deterministic_across_calls() {
    let m1 = UrlGlobMatcher::compile("*.example.com");
    let m2 = UrlGlobMatcher::compile("*.example.com");
    let u = url("https://a.example.com/x");
    let first = m1.matches(&u);
    let second = m1.matches(&u);
    assert_eq!(first, second);
    assert_eq!(m2.matches(&u), first);
}

#[test]
fn subdomain_wildcard_matches_subdomain() {
    let m = UrlGlobMatcher::compile("*.example.com");
    assert!(m.matches(&url("https://a.example.com/x")));
}

#[test]
fn subdomain_wildcard_matches_bare_domain() {
    // a bare `*.domain.com` matches the domain itself as well
    let m = UrlGlobMatcher::compile("*.example.com");
    assert!(m.matches(&url("https://example.com")));
    assert!(m.matches(&url("https://a.b.example.com")));
}

#[test]
fn plain_host_matches_itself_only() {
    let m = UrlGlobMatcher::compile("example.com");
    assert!(m.matches(&url("https://example.com")));
    assert!(m.matches(&url("https://example.com/any/path")));
    assert!(!m.matches(&url("https://a.example.com")));
    assert!(!m.matches(&url("https://other.com")));
}

#[test]
fn wildcard_does_not_cross_label_boundaries() {
    let m = UrlGlobMatcher::compile("*.example.com");
    assert!(!m.matches(&url("https://badexample.com")));
}

#[test]
fn host_match_is_case_insensitive() {
    let m = UrlGlobMatcher::compile("EXAMPLE.com");
    assert!(m.matches(&url("https://example.COM/x")));
}

#[test]
fn wildcard_within_label() {
    let m = UrlGlobMatcher::compile("ex*.com");
    assert!(m.matches(&url("https://example.com")));
    assert!(!m.matches(&url("https://sample.com")));
}

#[test]
fn scheme_prefix_restricts_scheme() {
    let m = UrlGlobMatcher::compile("https://example.com");
    assert!(m.matches(&url("https://example.com")));
    assert!(!m.matches(&url("http://example.com")));
}

#[test]
fn path_pattern_with_trailing_wildcard() {
    let m = UrlGlobMatcher::compile("example.com/docs/*");
    assert!(m.matches(&url("https://example.com/docs/intro")));
    assert!(m.matches(&url("https://example.com/docs/a/b")));
    assert!(!m.matches(&url("https://example.com/docs")));
    assert!(!m.matches(&url("https://example.com/other")));
}

#[test]
fn exact_path_pattern() {
    let m = UrlGlobMatcher::compile("example.com/docs");
    assert!(m.matches(&url("https://example.com/docs")));
    // trailing slashes are normalized before comparison
    assert!(m.matches(&url("https://example.com/docs/")));
    assert!(!m.matches(&url("https://example.com/docs/deeper")));
}

#[test]
fn query_suffix_restricts_the_query() {
    let m = UrlGlobMatcher::compile("example.com/search?q=*");
    assert!(m.matches(&url("https://example.com/search?q=verse")));
    assert!(!m.matches(&url("https://example.com/search?other=1")));
    assert!(!m.matches(&url("https://example.com/search")));
}

#[test]
fn pattern_without_query_matches_any_query() {
    let m = UrlGlobMatcher::compile("example.com/search");
    assert!(m.matches(&url("https://example.com/search?q=verse")));
    assert!(m.matches(&url("https://example.com/search")));
}

#[test]
fn bare_star_matches_any_host() {
    let m = UrlGlobMatcher::compile("*");
    assert!(m.matches(&url("https://anything.at.all")));
    assert!(m.matches(&url("https://example.com/x")));
}

#[test]
fn malformed_pattern_never_matches() {
    let empty = UrlGlobMatcher::compile("");
    assert!(!empty.matches(&url("https://example.com")));
    let dots = UrlGlobMatcher::compile("a..b");
    assert!(!dots.matches(&url("https://a.b")));
}

#[test]
fn parse_url_decomposes_components() {
    let u = url("https://EXAMPLE.com/Path?q=1");
    assert_eq!(u.scheme, "https");
    assert_eq!(u.host, Some("example.com".to_string()));
    assert_eq!(u.path, "/Path");
    assert_eq!(u.query, Some("q=1".to_string()));
}

#[test]
fn parse_url_rejects_non_urls() {
    assert!(parse_url("not a url").is_none());
    assert!(parse_url("").is_none());
}

#[test]
fn hostless_url_never_matches() {
    let m = UrlGlobMatcher::compile("*");
    let u = url("mailto:someone@example.com");
    assert!(u.host.is_none());
    assert!(!m.matches(&u));
}
