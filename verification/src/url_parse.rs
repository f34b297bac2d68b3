//! Parsed URLs. Pattern matching and rule resolution never look at a raw
//! URL string: the string is first decomposed into scheme, host, path and
//! query by the `url` crate, and everything downstream works on the
//! resulting plain components.

use vstd::prelude::*;

verus! {

/// The components of a parsed absolute URL. Hosts are as the parser
/// reports them (IDN already encoded); `host` is `None` for URLs that
/// cannot have one, such as `mailto:` or `data:` URLs.
pub struct ParsedUrl {
    pub scheme: String,
    pub host: Option<String>,
    pub path: String,
    pub query: Option<String>,
}

#[verifier::ext_equal]
pub ghost struct ParsedUrlView {
    pub scheme: Seq<char>,
    pub host: Option<Seq<char>>,
    pub path: Seq<char>,
    pub query: Option<Seq<char>>,
}

impl View for ParsedUrl {
    type V = ParsedUrlView;

    open spec fn view(&self) -> ParsedUrlView {
        ParsedUrlView {
            scheme: self.scheme@,
            host: match self.host {
                Some(h) => Some(h@),
                None => None,
            },
            path: self.path@,
            query: match self.query {
                Some(q) => Some(q@),
                None => None,
            },
        }
    }
}

/// What parsing a URL string yields: `None` when the string is not an
/// accepted absolute URL, otherwise its components. The outcome is a
/// function of the string alone.
pub uninterp spec fn parsed_url_of(s: Seq<char>) -> Option<ParsedUrlView>;

/// The decoded `(key, value)` pairs of the URL's query string, in order,
/// again a function of the URL string alone; `None` exactly when the
/// string does not parse as a URL.
pub uninterp spec fn query_pairs_of(s: Seq<char>) -> Option<Seq<(Seq<char>, Seq<char>)>>;

/// Relies on `url::Url::parse` and the component accessors `scheme`,
/// `host_str`, `path` and `query`: an accepted absolute URL is decomposed
/// into those components, deterministically in the input string.
#[verifier::external_body]
pub fn parse_url(s: &str) -> (r: Option<ParsedUrl>)
    ensures
        r is Some <==> parsed_url_of(s@) is Some,
        r matches Some(p) ==> parsed_url_of(s@) == Some(p@),
{
    match url::Url::parse(s) {
        Ok(u) => Some(
            ParsedUrl {
                scheme: u.scheme().to_string(),
                host: u.host_str().map(|h| h.to_string()),
                path: u.path().to_string(),
                query: u.query().map(|q| q.to_string()),
            },
        ),
        Err(_) => None,
    }
}

/// Relies on `url::Url::parse` and `Url::query_pairs`: the query string of
/// an accepted URL, parsed as `application/x-www-form-urlencoded` into
/// decoded `(key, value)` pairs in order of appearance.
#[verifier::external_body]
pub(crate) fn url_query_pairs(s: &str) -> (r: Option<Vec<(String, String)>>)
    ensures
        r is Some <==> parsed_url_of(s@) is Some,
        r is Some <==> query_pairs_of(s@) is Some,
        r matches Some(v) ==> query_pairs_of(s@) matches Some(q) && v@.len() == q.len() && (forall|
            i: int,
        |
            0 <= i < q.len() ==> v@[i].0@ == q[i].0 && v@[i].1@ == q[i].1),
{
    match url::Url::parse(s) {
        Ok(u) => Some(u.query_pairs().map(|(k, v)| (k.into_owned(), v.into_owned())).collect()),
        Err(_) => None,
    }
}

} // verus!
