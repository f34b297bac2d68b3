//! Character-level helpers shared by the pattern matcher and the
//! command builder: ASCII lowercasing, splitting on a separator,
//! suffix tests and case-insensitive comparison.

use vstd::prelude::*;

verus! {

/// ASCII lowercasing of a single character; other characters are kept.
pub open spec fn lower_char(c: char) -> char {
    if 'A' <= c && c <= 'Z' {
        (((c as u8) + 32) as char)
    } else {
        c
    }
}

/// ASCII lowercasing of a character sequence.
pub open spec fn lower_seq(s: Seq<char>) -> Seq<char> {
    s.map_values(|c: char| lower_char(c))
}

pub fn lower_char_exec(c: char) -> (r: char)
    ensures
        r == lower_char(c),
{
    if 'A' <= c && c <= 'Z' {
        ((c as u8) + 32) as char
    } else {
        c
    }
}

/// The characters of a string slice as a vector.
pub fn to_chars(s: &str) -> (r: Vec<char>)
    ensures
        r@ == s@,
{
    let n = s.unicode_len();
    let mut r: Vec<char> = Vec::new();
    let mut i: usize = 0;
    while i < n
        invariant
            n == s@.len(),
            i <= n,
            r@ == s@.take(i as int),
        decreases n - i,
    {
        r.push(s.get_char(i));
        i = i + 1;
        proof {
            assert(r@ =~= s@.take(i as int));
        }
    }
    proof {
        assert(s@.take(n as int) =~= s@);
    }
    r
}

pub fn lower_chars(v: &[char]) -> (r: Vec<char>)
    ensures
        r@ == lower_seq(v@),
{
    let mut r: Vec<char> = Vec::new();
    let mut i: usize = 0;
    while i < v.len()
        invariant
            i <= v@.len(),
            r@ == lower_seq(v@.take(i as int)),
        decreases v@.len() - i,
    {
        r.push(lower_char_exec(v[i]));
        i = i + 1;
        proof {
            assert(r@ =~= lower_seq(v@.take(i as int)));
        }
    }
    proof {
        assert(v@.take(v@.len() as int) =~= v@);
    }
    r
}

/// Equality of two character slices.
pub fn chars_eq(a: &[char], b: &[char]) -> (r: bool)
    ensures
        r == (a@ == b@),
{
    if a.len() != b.len() {
        proof {
            assert(a@ != b@);
        }
        return false;
    }
    let mut i: usize = 0;
    while i < a.len()
        invariant
            a@.len() == b@.len(),
            i <= a@.len(),
            forall|k: int| 0 <= k < i ==> a@[k] == b@[k],
        decreases a@.len() - i,
    {
        if a[i] != b[i] {
            return false;
        }
        i = i + 1;
    }
    proof {
        assert(a@ =~= b@);
    }
    true
}

/// `s` ends with `suffix`.
pub open spec fn seq_ends_with(s: Seq<char>, suffix: Seq<char>) -> bool {
    suffix.len() <= s.len() && s.skip(s.len() - suffix.len()) == suffix
}

pub fn chars_end_with(v: &[char], suffix: &[char]) -> (r: bool)
    ensures
        r == seq_ends_with(v@, suffix@),
{
    if suffix.len() > v.len() {
        return false;
    }
    let tail = vstd::slice::slice_subrange(v, v.len() - suffix.len(), v.len());
    proof {
        assert(tail@ =~= v@.skip(v@.len() - suffix@.len()));
    }
    chars_eq(tail, suffix)
}

/// The views of a sequence of strings.
pub open spec fn string_views(v: Seq<String>) -> Seq<Seq<char>> {
    v.map_values(|s: String| s@)
}

/// Append clones of all of `src` to `dst`.
pub fn append_all(dst: &mut Vec<String>, src: &[String])
    ensures
        final(dst)@.len() == old(dst)@.len() + src@.len(),
        string_views(final(dst)@) == string_views(old(dst)@) + string_views(src@),
{
    let mut i: usize = 0;
    while i < src.len()
        invariant
            i <= src@.len(),
            dst@.len() == old(dst)@.len() + i,
            forall|k: int| 0 <= k < old(dst)@.len() ==> dst@[k] == old(dst)@[k],
            forall|k: int| 0 <= k < i ==> dst@[old(dst)@.len() + k] == src@[k],
        decreases src@.len() - i,
    {
        let x = vstd::slice::slice_index_get(src, i);
        dst.push(x.clone());
        i = i + 1;
    }
    proof {
        assert(string_views(dst@) =~= string_views(old(dst)@) + string_views(src@));
    }
}

/// The views of a sequence of character vectors.
pub open spec fn views_of(v: Seq<Vec<char>>) -> Seq<Seq<char>> {
    v.map_values(|x: Vec<char>| x@)
}

/// Splitting a sequence on a separator character; the separator itself
/// is dropped, and `n` separators yield `n + 1` pieces.
pub open spec fn split_seq(s: Seq<char>, sep: char) -> Seq<Seq<char>>
    decreases s.len(),
{
    if s.len() == 0 {
        seq![Seq::<char>::empty()]
    } else if s[0] == sep {
        seq![Seq::<char>::empty()] + split_seq(s.skip(1), sep)
    } else {
        let rest = split_seq(s.skip(1), sep);
        seq![seq![s[0]] + rest[0]] + rest.skip(1)
    }
}

pub proof fn lemma_split_seq_len(s: Seq<char>, sep: char)
    ensures
        split_seq(s, sep).len() >= 1,
    decreases s.len(),
{
    if s.len() == 0 {
    } else {
        lemma_split_seq_len(s.skip(1), sep);
    }
}

pub fn split_chars(v: &[char], sep: char) -> (r: Vec<Vec<char>>)
    ensures
        views_of(r@) == split_seq(v@, sep),
    decreases v@.len(),
{
    proof {
        lemma_split_seq_len(v@, sep);
    }
    if v.len() == 0 {
        let mut r: Vec<Vec<char>> = Vec::new();
        r.push(Vec::new());
        proof {
            assert(views_of(r@) =~= split_seq(v@, sep));
        }
        return r;
    }
    let tail = vstd::slice::slice_subrange(v, 1, v.len());
    proof {
        assert(tail@ =~= v@.skip(1));
    }
    if v[0] == sep {
        let mut rest = split_chars(tail, sep);
        rest.insert(0, Vec::new());
        proof {
            assert(views_of(rest@) =~= split_seq(v@, sep));
        }
        rest
    } else {
        let mut rest = split_chars(tail, sep);
        proof {
            lemma_split_seq_len(v@.skip(1), sep);
        }
        let mut first = rest.remove(0);
        first.insert(0, v[0]);
        rest.insert(0, first);
        proof {
            let full = split_seq(v@, sep);
            let sub = split_seq(v@.skip(1), sep);
            assert(first@ =~= seq![v@[0]] + sub[0]);
            assert(full[0] == seq![v@[0]] + sub[0]);
            assert(forall|k: int|
                1 <= k < full.len() ==> full[k] == sub.skip(1)[k - 1] && sub.skip(1)[k - 1]
                    == sub[k]);
            assert(views_of(rest@) =~= split_seq(v@, sep));
        }
        rest
    }
}

/// Equality of two string slices.
pub fn str_eq(a: &str, b: &str) -> (r: bool)
    ensures
        r == (a@ == b@),
{
    let na = a.unicode_len();
    let nb = b.unicode_len();
    if na != nb {
        return false;
    }
    let mut i: usize = 0;
    while i < na
        invariant
            na == a@.len(),
            na == b@.len(),
            i <= na,
            forall|k: int| 0 <= k < i ==> a@[k] == b@[k],
        decreases na - i,
    {
        if a.get_char(i) != b.get_char(i) {
            return false;
        }
        i = i + 1;
    }
    proof {
        assert(a@ =~= b@);
    }
    true
}

/// Some string in `s` has the view `id`.
pub open spec fn contains_string(s: Seq<String>, id: Seq<char>) -> bool {
    exists|i: int| 0 <= i < s.len() && s[i]@ == id
}

pub fn contains_string_exec(v: &Vec<String>, id: &str) -> (r: bool)
    ensures
        r == contains_string(v@, id@),
{
    let mut i: usize = 0;
    while i < v.len()
        invariant
            i <= v@.len(),
            forall|k: int| 0 <= k < i ==> v@[k]@ != id@,
        decreases v@.len() - i,
    {
        if str_eq(v[i].as_str(), id) {
            return true;
        }
        i = i + 1;
    }
    false
}

/// Case-insensitive (ASCII) equality of two strings, the comparison
/// used for the URL-placeholder token in command templates.
pub fn str_eq_ignore_ascii_case(a: &str, b: &str) -> (r: bool)
    ensures
        r == (lower_seq(a@) == lower_seq(b@)),
{
    let na = a.unicode_len();
    let nb = b.unicode_len();
    if na != nb {
        proof {
            assert(lower_seq(a@).len() != lower_seq(b@).len());
        }
        return false;
    }
    let mut i: usize = 0;
    while i < na
        invariant
            na == a@.len(),
            na == b@.len(),
            i <= na,
            forall|k: int| 0 <= k < i ==> lower_char(a@[k]) == lower_char(b@[k]),
        decreases na - i,
    {
        let ca = lower_char_exec(a.get_char(i));
        let cb = lower_char_exec(b.get_char(i));
        if ca != cb {
            proof {
                assert(lower_seq(a@)[i as int] != lower_seq(b@)[i as int]);
            }
            return false;
        }
        i = i + 1;
    }
    proof {
        assert(lower_seq(a@) =~= lower_seq(b@));
    }
    true
}

} // verus!
