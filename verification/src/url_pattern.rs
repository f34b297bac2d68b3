//! Glob-style URL patterns, e.g. `*.example.com` or
//! `https://example.com/docs/*`.
//!
//! A pattern has an optional scheme prefix (before `://`), a host whose
//! labels may contain `*` wildcards, and an optional path/query suffix
//! whose pieces may contain `*` wildcards. A `*` stands for one or more
//! characters and never crosses a `.` (in the host) or `/` (in the path),
//! except that a final path segment that is exactly `*` matches the whole
//! remaining path. A leading `*.` also matches the bare domain itself.
//! Host comparison is anchored and ASCII-case-insensitive; a pattern
//! without a path matches every path under its host. A pattern that does
//! not fit the grammar compiles to a matcher that never matches.

use vstd::prelude::*;

use crate::text::{chars_eq, lower_chars, lower_seq, split_chars, split_seq, to_chars, views_of};
use crate::url_parse::{ParsedUrl, ParsedUrlView};

verus! {

/// One-or-more-characters glob matching of a pattern piece against a
/// text piece, `*` matching any non-empty run of characters.
pub open spec fn glob_matches(p: Seq<char>, s: Seq<char>) -> bool
    decreases p.len() + s.len(),
{
    if p.len() == 0 {
        s.len() == 0
    } else if p[0] == '*' {
        s.len() >= 1 && (glob_matches(p.skip(1), s.skip(1)) || glob_matches(p, s.skip(1)))
    } else {
        s.len() >= 1 && p[0] == s[0] && glob_matches(p.skip(1), s.skip(1))
    }
}

pub fn glob_matches_exec(p: &[char], s: &[char]) -> (r: bool)
    ensures
        r == glob_matches(p@, s@),
    decreases p@.len() + s@.len(),
{
    if p.len() == 0 {
        s.len() == 0
    } else if s.len() == 0 {
        false
    } else {
        let p1 = vstd::slice::slice_subrange(p, 1, p.len());
        let s1 = vstd::slice::slice_subrange(s, 1, s.len());
        proof {
            assert(p1@ =~= p@.skip(1));
            assert(s1@ =~= s@.skip(1));
        }
        if p[0] == '*' {
            glob_matches_exec(p1, s1) || glob_matches_exec(p, s1)
        } else {
            p[0] == s[0] && glob_matches_exec(p1, s1)
        }
    }
}

/// Pairwise glob matching of two aligned lists of pieces.
pub open spec fn pieces_match(pl: Seq<Seq<char>>, ul: Seq<Seq<char>>) -> bool {
    pl.len() == ul.len() && (forall|i: int| 0 <= i < pl.len() ==> glob_matches(pl[i], ul[i]))
}

/// First position of `c` in `s`, or `s.len()` when absent.
pub open spec fn first_index(s: Seq<char>, c: char) -> int
    decreases s.len(),
{
    if s.len() == 0 {
        0
    } else if s[0] == c {
        0
    } else {
        1 + first_index(s.skip(1), c)
    }
}

pub proof fn lemma_first_index_bounds(s: Seq<char>, c: char)
    ensures
        0 <= first_index(s, c) <= s.len(),
        first_index(s, c) < s.len() ==> s[first_index(s, c)] == c,
        forall|k: int| 0 <= k < first_index(s, c) ==> s[k] != c,
    decreases s.len(),
{
    if s.len() == 0 {
    } else if s[0] == c {
    } else {
        lemma_first_index_bounds(s.skip(1), c);
        assert(forall|k: int| 1 <= k < s.len() ==> s[k] == s.skip(1)[k - 1]);
    }
}

pub fn find_char(v: &[char], c: char) -> (i: usize)
    ensures
        i == first_index(v@, c),
{
    proof {
        assert(v@.skip(0) =~= v@);
    }
    let mut i: usize = 0;
    while i < v.len()
        invariant
            i <= v@.len(),
            first_index(v@, c) == i + first_index(v@.skip(i as int), c),
        decreases v@.len() - i,
    {
        if v[i] == c {
            proof {
                assert(v@.skip(i as int)[0] == v@[i as int]);
            }
            return i;
        }
        proof {
            assert(v@.skip(i as int)[0] == v@[i as int]);
            assert(v@.skip(i as int).skip(1) =~= v@.skip(i as int + 1));
        }
        i = i + 1;
    }
    proof {
        assert(v@.skip(i as int).len() == 0);
    }
    i
}

/// First position of the `://` scheme separator, or `s.len()` when absent.
pub open spec fn scheme_sep_index(s: Seq<char>) -> int
    decreases s.len(),
{
    if s.len() < 3 {
        s.len() as int
    } else if s[0] == ':' && s[1] == '/' && s[2] == '/' {
        0
    } else {
        1 + scheme_sep_index(s.skip(1))
    }
}

pub proof fn lemma_scheme_sep_bounds(s: Seq<char>)
    ensures
        0 <= scheme_sep_index(s) <= s.len(),
        scheme_sep_index(s) < s.len() ==> scheme_sep_index(s) + 3 <= s.len(),
    decreases s.len(),
{
    if s.len() < 3 {
    } else if s[0] == ':' && s[1] == '/' && s[2] == '/' {
    } else {
        lemma_scheme_sep_bounds(s.skip(1));
    }
}

pub fn find_scheme_sep(v: &[char]) -> (i: usize)
    ensures
        i == scheme_sep_index(v@),
{
    let n = v.len();
    proof {
        assert(v@.skip(0) =~= v@);
    }
    let mut i: usize = 0;
    while n - i >= 3
        invariant
            n == v@.len(),
            i <= n,
            scheme_sep_index(v@) == i + scheme_sep_index(v@.skip(i as int)),
        decreases n - i,
    {
        proof {
            assert(v@.skip(i as int)[0] == v@[i as int]);
            assert(v@.skip(i as int)[1] == v@[i as int + 1]);
            assert(v@.skip(i as int)[2] == v@[i as int + 2]);
            assert(v@.skip(i as int).skip(1) =~= v@.skip(i as int + 1));
        }
        if v[i] == ':' && v[i + 1] == '/' && v[i + 2] == '/' {
            return i;
        }
        i = i + 1;
    }
    proof {
        assert(v@.skip(i as int).len() < 3);
    }
    n
}

/// A compiled URL pattern.
pub struct UrlGlobMatcher {
    ok: bool,
    scheme: Option<Vec<char>>,
    any_subdomain: bool,
    host_labels: Vec<Vec<char>>,
    path_segments: Option<Vec<Vec<char>>>,
    query: Option<Vec<char>>,
}

#[verifier::ext_equal]
pub ghost struct UrlGlobMatcherView {
    pub ok: bool,
    pub scheme: Option<Seq<char>>,
    pub any_subdomain: bool,
    pub host_labels: Seq<Seq<char>>,
    pub path_segments: Option<Seq<Seq<char>>>,
    pub query: Option<Seq<char>>,
}

impl View for UrlGlobMatcher {
    type V = UrlGlobMatcherView;

    closed spec fn view(&self) -> UrlGlobMatcherView {
        UrlGlobMatcherView {
            ok: self.ok,
            scheme: match self.scheme {
                Some(v) => Some(v@),
                None => None,
            },
            any_subdomain: self.any_subdomain,
            host_labels: views_of(self.host_labels@),
            path_segments: match self.path_segments {
                Some(v) => Some(views_of(v@)),
                None => None,
            },
            query: match self.query {
                Some(v) => Some(v@),
                None => None,
            },
        }
    }
}

/// A trailing empty segment (from a trailing slash) is dropped, so that
/// `/docs` and `/docs/` compare equal.
pub open spec fn normalize_segments(segs: Seq<Seq<char>>) -> Seq<Seq<char>> {
    if segs.len() > 1 && segs.last().len() == 0 {
        segs.drop_last()
    } else {
        segs
    }
}

/// The segments of a URL path: the leading slash is dropped, the rest is
/// split on `/`, and a trailing empty segment is normalized away.
pub open spec fn url_path_segments(path: Seq<char>) -> Seq<Seq<char>> {
    let p = if path.len() >= 1 && path[0] == '/' {
        path.skip(1)
    } else {
        path
    };
    normalize_segments(split_seq(p, '/'))
}

/// The labels of the pattern are well formed: none is empty, and an empty
/// label list is only left behind by the bare-`*` pattern.
pub open spec fn host_labels_wf(labels: Seq<Seq<char>>, any_subdomain: bool) -> bool {
    &&& (any_subdomain || labels.len() >= 1)
    &&& (forall|i: int| 0 <= i < labels.len() ==> labels[i].len() >= 1)
}

/// The meaning of compiling a pattern string.
pub open spec fn compile_spec(p: Seq<char>) -> UrlGlobMatcherView {
    let si = scheme_sep_index(p);
    let scheme = if si < p.len() {
        Some(lower_seq(p.take(si)))
    } else {
        None
    };
    let rest = if si < p.len() {
        p.skip(si + 3)
    } else {
        p
    };
    let hp = first_index(rest, '/');
    let host_part = rest.take(hp);
    let labels0 = split_seq(lower_seq(host_part), '.');
    let any_subdomain = labels0[0] == seq!['*'];
    let labels = if any_subdomain {
        labels0.skip(1)
    } else {
        labels0
    };
    let path_part = rest.skip(hp + 1);
    let qi = first_index(path_part, '?');
    let path_segments = if hp < rest.len() {
        Some(normalize_segments(split_seq(path_part.take(qi), '/')))
    } else {
        None
    };
    let query = if hp < rest.len() && qi < path_part.len() {
        Some(path_part.skip(qi + 1))
    } else {
        None
    };
    let ok = (match scheme {
        Some(sc) => sc.len() >= 1,
        None => true,
    }) && host_labels_wf(labels, any_subdomain);
    UrlGlobMatcherView { ok, scheme, any_subdomain, host_labels: labels, path_segments, query }
}

/// Host matching: align the pattern labels with the tail of the host's
/// labels when the pattern began with `*.`, else require equal length,
/// and glob-match label by label.
pub open spec fn host_matches(m: UrlGlobMatcherView, host: Seq<char>) -> bool {
    let hl = split_seq(lower_seq(host), '.');
    if m.any_subdomain {
        hl.len() >= m.host_labels.len() && pieces_match(
            m.host_labels,
            hl.skip(hl.len() - m.host_labels.len()),
        )
    } else {
        pieces_match(m.host_labels, hl)
    }
}

/// Path matching: no pattern path accepts every path; a final `*` segment
/// accepts any non-empty remainder of the path; otherwise segments align
/// one to one.
pub open spec fn path_matches(m: UrlGlobMatcherView, path: Seq<char>) -> bool {
    match m.path_segments {
        None => true,
        Some(ps) => {
            let us = url_path_segments(path);
            if ps.len() >= 1 && ps.last() == seq!['*'] {
                &&& us.len() >= ps.len()
                &&& pieces_match(ps.drop_last(), us.take(ps.len() - 1))
                &&& (us.len() > ps.len() || us[ps.len() - 1].len() >= 1)
            } else {
                pieces_match(ps, us)
            }
        },
    }
}

/// Query matching: no pattern query accepts any query; a pattern query
/// glob-matches the URL's whole query string, which must then exist.
pub open spec fn query_matches(m: UrlGlobMatcherView, query: Option<Seq<char>>) -> bool {
    match m.query {
        None => true,
        Some(qp) => match query {
            None => false,
            Some(q) => glob_matches(qp, q),
        },
    }
}

/// The meaning of matching: a malformed pattern never matches; the scheme
/// must agree when the pattern names one; the URL must have a host that
/// matches; and the path and query must match.
pub open spec fn matcher_accepts(m: UrlGlobMatcherView, u: ParsedUrlView) -> bool {
    &&& m.ok
    &&& match m.scheme {
        None => true,
        Some(sc) => sc == lower_seq(u.scheme),
    }
    &&& match u.host {
        None => false,
        Some(h) => host_matches(m, h),
    }
    &&& path_matches(m, u.path)
    &&& query_matches(m, u.query)
}

fn pieces_match_range(pl: &Vec<Vec<char>>, ul: &Vec<Vec<char>>, offset: usize, count: usize) -> (r:
    bool)
    requires
        count == pl@.len(),
        offset + count <= ul@.len(),
    ensures
        r == pieces_match(views_of(pl@), views_of(ul@).subrange(
            offset as int,
            offset + count,
        )),
{
    let un = ul.len();
    let mut i: usize = 0;
    while i < count
        invariant
            count == pl@.len(),
            offset + count <= ul@.len(),
            un == ul@.len(),
            i <= count,
            forall|k: int| 0 <= k < i ==> glob_matches(views_of(pl@)[k], views_of(ul@)[offset + k]),
        decreases count - i,
    {
        proof {
            assert(views_of(pl@)[i as int] == pl@[i as int]@);
            assert(views_of(ul@)[offset + i] == ul@[offset + i]@);
        }
        if !glob_matches_exec(pl[i].as_slice(), ul[offset + i].as_slice()) {
            proof {
                let sub = views_of(ul@).subrange(offset as int, offset + count);
                assert(sub[i as int] == views_of(ul@)[offset + i]);
            }
            return false;
        }
        i = i + 1;
    }
    proof {
        let sub = views_of(ul@).subrange(offset as int, offset + count);
        assert(forall|k: int| 0 <= k < count ==> sub[k] == views_of(ul@)[offset + k]);
    }
    true
}

impl UrlGlobMatcher {
    /// Compile a pattern string. Total: a pattern outside the grammar
    /// yields a matcher that never matches, never an error.
    pub fn compile(pattern: &str) -> (m: UrlGlobMatcher)
        ensures
            m@ == compile_spec(pattern@),
    {
        let chars = to_chars(pattern);
        let v = chars.as_slice();
        let si = find_scheme_sep(v);
        proof {
            lemma_scheme_sep_bounds(v@);
        }
        let (scheme, rest): (Option<Vec<char>>, Vec<char>) = if si < chars.len() {
            let sc = vstd::slice::slice_subrange(v, 0, si);
            let re = vstd::slice::slice_subrange(v, si + 3, chars.len());
            proof {
                assert(sc@ =~= v@.take(si as int));
                assert(re@ =~= v@.skip(si as int + 3));
            }
            (Some(lower_chars(sc)), vstd::slice::slice_to_vec(re))
        } else {
            (None, chars.clone())
        };
        let rv = rest.as_slice();
        let hp = find_char(rv, '/');
        proof {
            lemma_first_index_bounds(rv@, '/');
        }
        let host_part = vstd::slice::slice_subrange(rv, 0, hp);
        proof {
            assert(host_part@ =~= rv@.take(hp as int));
        }
        let lowered = lower_chars(host_part);
        let labels0 = split_chars(lowered.as_slice(), '.');
        proof {
            crate::text::lemma_split_seq_len(lowered@, '.');
        }
        let star: [char; 1] = ['*'];
        let any_subdomain = chars_eq(labels0[0].as_slice(), star.as_slice());
        proof {
            assert(star@ =~= seq!['*']);
            assert(views_of(labels0@)[0] == labels0@[0]@);
        }
        let ghost labels0_views = views_of(labels0@);
        let labels = if any_subdomain {
            let mut l = labels0;
            l.remove(0);
            proof {
                assert(views_of(l@) =~= labels0_views.skip(1));
            }
            l
        } else {
            labels0
        };
        let (path_segments, query): (Option<Vec<Vec<char>>>, Option<Vec<char>>) = if hp
            < rest.len() {
            let pp = vstd::slice::slice_subrange(rv, hp + 1, rest.len());
            proof {
                assert(pp@ =~= rv@.skip(hp as int + 1));
            }
            let qi = find_char(pp, '?');
            proof {
                lemma_first_index_bounds(pp@, '?');
            }
            let before_query = vstd::slice::slice_subrange(pp, 0, qi);
            proof {
                assert(before_query@ =~= pp@.take(qi as int));
            }
            let segs = split_chars(before_query, '/');
            let q: Option<Vec<char>> = if qi < pp.len() {
                let qs = vstd::slice::slice_subrange(pp, qi + 1, pp.len());
                proof {
                    assert(qs@ =~= pp@.skip(qi as int + 1));
                }
                Some(vstd::slice::slice_to_vec(qs))
            } else {
                None
            };
            (Some(normalize_segments_exec(segs)), q)
        } else {
            (None, None)
        };
        let scheme_ok = match &scheme {
            Some(sc) => sc.len() >= 1,
            None => true,
        };
        let labels_ok = host_labels_wf_exec(&labels, any_subdomain);
        let m = UrlGlobMatcher {
            ok: scheme_ok && labels_ok,
            scheme,
            any_subdomain,
            host_labels: labels,
            path_segments,
            query,
        };
        proof {
            assert(m@ =~= compile_spec(pattern@));
        }
        m
    }

    /// Whether this matcher accepts the parsed URL. Pure: the result is a
    /// function of the compiled pattern and the URL components alone.
    pub fn matches(&self, u: &ParsedUrl) -> (r: bool)
        ensures
            r == matcher_accepts(self@, u@),
    {
        if !self.ok {
            return false;
        }
        match &self.scheme {
            Some(sc) => {
                let us = to_chars(u.scheme.as_str());
                let lus = lower_chars(us.as_slice());
                if !chars_eq(sc.as_slice(), lus.as_slice()) {
                    return false;
                }
            },
            None => {},
        }
        let host = match &u.host {
            None => {
                return false;
            },
            Some(h) => h,
        };
        let hc = to_chars(host.as_str());
        let lh = lower_chars(hc.as_slice());
        let hl = split_chars(lh.as_slice(), '.');
        let offset: usize = if self.any_subdomain {
            if hl.len() < self.host_labels.len() {
                return false;
            }
            hl.len() - self.host_labels.len()
        } else {
            if hl.len() != self.host_labels.len() {
                return false;
            }
            0
        };
        proof {
            assert(views_of(hl@).subrange(offset as int, offset + self.host_labels@.len())
                =~= views_of(hl@).skip(offset as int));
        }
        if !pieces_match_range(&self.host_labels, &hl, offset, self.host_labels.len()) {
            return false;
        }
        let path_ok = self.path_matches_exec(u);
        if !path_ok {
            return false;
        }
        match &self.query {
            None => true,
            Some(qp) => match &u.query {
                None => false,
                Some(q) => {
                    let qc = to_chars(q.as_str());
                    glob_matches_exec(qp.as_slice(), qc.as_slice())
                },
            },
        }
    }

    fn path_matches_exec(&self, u: &ParsedUrl) -> (r: bool)
        ensures
            r == path_matches(self@, u@.path),
    {
        let ps = match &self.path_segments {
            None => {
                return true;
            },
            Some(ps) => ps,
        };
        let pc = to_chars(u.path.as_str());
        let pv = pc.as_slice();
        let stripped = if pc.len() >= 1 && pv[0] == '/' {
            let t = vstd::slice::slice_subrange(pv, 1, pc.len());
            proof {
                assert(t@ =~= pv@.skip(1));
            }
            vstd::slice::slice_to_vec(t)
        } else {
            pc.clone()
        };
        let segs0 = split_chars(stripped.as_slice(), '/');
        let us = normalize_segments_exec(segs0);
        let star: [char; 1] = ['*'];
        proof {
            assert(star@ =~= seq!['*']);
        }
        let full_wildcard = ps.len() >= 1 && chars_eq(
            ps[ps.len() - 1].as_slice(),
            star.as_slice(),
        );
        if full_wildcard {
            proof {
                assert(views_of(ps@)[ps@.len() - 1] == ps@[ps@.len() - 1]@);
                assert(views_of(ps@).last() == views_of(ps@)[ps@.len() - 1]);
            }
            if us.len() < ps.len() {
                return false;
            }
            proof {
                assert(views_of(us@).subrange(0, ps@.len() - 1) =~= views_of(us@).take(
                    ps@.len() - 1,
                ));
            }
            let head = prefix_of(ps);
            proof {
                assert(views_of(head@) =~= views_of(ps@).drop_last());
            }
            if !pieces_match_range(&head, &us, 0, head.len()) {
                return false;
            }
            us.len() > ps.len() || us[ps.len() - 1].len() >= 1
        } else {
            proof {
                assert(ps@.len() >= 1 ==> views_of(ps@).last() == ps@[ps@.len() - 1]@);
            }
            if us.len() != ps.len() {
                return false;
            }
            proof {
                assert(views_of(us@).subrange(0, ps@.len() as int) =~= views_of(us@));
            }
            pieces_match_range(ps, &us, 0, ps.len())
        }
    }
}

fn normalize_segments_exec(segs: Vec<Vec<char>>) -> (r: Vec<Vec<char>>)
    ensures
        views_of(r@) == normalize_segments(views_of(segs@)),
{
    let ghost old_views = views_of(segs@);
    let mut segs = segs;
    if segs.len() > 1 && segs[segs.len() - 1].len() == 0 {
        proof {
            assert(old_views[segs@.len() - 1] == segs@[segs@.len() - 1]@);
            assert(old_views.last().len() == 0);
        }
        segs.pop();
        proof {
            assert(views_of(segs@) =~= old_views.drop_last());
        }
    }
    segs
}

fn host_labels_wf_exec(labels: &Vec<Vec<char>>, any_subdomain: bool) -> (r: bool)
    ensures
        r == host_labels_wf(views_of(labels@), any_subdomain),
{
    if !any_subdomain && labels.len() == 0 {
        return false;
    }
    let mut i: usize = 0;
    while i < labels.len()
        invariant
            i <= labels@.len(),
            forall|k: int| 0 <= k < i ==> views_of(labels@)[k].len() >= 1,
        decreases labels@.len() - i,
    {
        if labels[i].len() == 0 {
            proof {
                assert(views_of(labels@)[i as int].len() == 0);
            }
            return false;
        }
        i = i + 1;
    }
    true
}

fn prefix_of(segs: &Vec<Vec<char>>) -> (r: Vec<Vec<char>>)
    requires
        segs@.len() >= 1,
    ensures
        r@.len() == segs@.len() - 1,
        forall|k: int| 0 <= k < r@.len() ==> r@[k]@ == segs@[k]@,
{
    let mut r: Vec<Vec<char>> = Vec::new();
    let mut i: usize = 0;
    while i < segs.len() - 1
        invariant
            segs@.len() >= 1,
            i <= segs@.len() - 1,
            r@.len() == i,
            forall|k: int| 0 <= k < i ==> r@[k]@ == segs@[k]@,
        decreases segs@.len() - 1 - i,
    {
        r.push(clone_chars(&segs[i]));
        i = i + 1;
    }
    r
}

fn clone_chars(v: &Vec<char>) -> (r: Vec<char>)
    ensures
        r@ == v@,
{
    let mut r: Vec<char> = Vec::new();
    let mut i: usize = 0;
    while i < v.len()
        invariant
            i <= v@.len(),
            r@ == v@.take(i as int),
        decreases v@.len() - i,
    {
        r.push(v[i]);
        i = i + 1;
        proof {
            assert(r@ =~= v@.take(i as int));
        }
    }
    proof {
        assert(v@.take(v@.len() as int) =~= v@);
    }
    r
}

} // verus!
