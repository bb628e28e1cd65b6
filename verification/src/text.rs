//! Character-level helpers shared by the parsers.

use vstd::prelude::*;
use vstd::string::StrSliceExecFns;

verus! {

pub open spec fn is_ascii_digit(c: char) -> bool {
    '0' <= c && c <= '9'
}

pub open spec fn is_ascii_lower(c: char) -> bool {
    'a' <= c && c <= 'z'
}

pub open spec fn is_ascii_upper(c: char) -> bool {
    'A' <= c && c <= 'Z'
}

pub open spec fn is_ascii_alphabetic(c: char) -> bool {
    is_ascii_lower(c) || is_ascii_upper(c)
}

pub open spec fn is_ascii_alphanumeric(c: char) -> bool {
    is_ascii_alphabetic(c) || is_ascii_digit(c)
}

/// The characters of `s`, in order, as a vector (one pass over the string).
pub fn chars_of(s: &str) -> (out: Vec<char>)
    ensures
        out@ == s@,
        s@.len() <= usize::MAX,
{
    let mut out: Vec<char> = Vec::new();
    for c in it: s.chars()
        invariant
            out@ == it.seq().take(it.index() as int),
    {
        out.push(c);
    }
    assert(out@.len() == out.len());
    out
}

} // verus!

verus! {

/// The first position at or after `from` that holds `c`.
pub open spec fn find_from(s: Seq<char>, from: int, c: char) -> Option<int>
    decreases s.len() - from,
{
    if from < 0 || from >= s.len() {
        None
    } else if s[from] == c {
        Some(from)
    } else {
        find_from(s, from + 1, c)
    }
}

pub proof fn lemma_find_from(s: Seq<char>, from: int, c: char)
    requires
        0 <= from,
    ensures
        match find_from(s, from, c) {
            Some(k) => from <= k < s.len() && s[k] == c && forall|j: int|
                from <= j < k ==> s[j] != c,
            None => forall|j: int| from <= j < s.len() ==> s[j] != c,
        },
    decreases s.len() - from,
{
    if from < s.len() && s[from] != c {
        lemma_find_from(s, from + 1, c);
    }
}

/// The text before and after the first `c`, as `str::split_once` gives it.
pub open spec fn split_once(s: Seq<char>, c: char) -> Option<(Seq<char>, Seq<char>)> {
    match find_from(s, 0, c) {
        Some(k) => Some((s.subrange(0, k), s.subrange(k + 1, s.len() as int))),
        None => None,
    }
}

pub fn find_char(s: &[char], from: usize, c: char) -> (r: Option<usize>)
    requires
        from <= s@.len(),
    ensures
        match (r, find_from(s@, from as int, c)) {
            (Some(k), Some(mk)) => k as int == mk,
            (None, None) => true,
            _ => false,
        },
        r matches Some(k) ==> from <= k < s@.len(),
{
    let mut k = from;
    while k < s.len()
        invariant
            from <= k <= s@.len(),
            find_from(s@, from as int, c) == find_from(s@, k as int, c),
        decreases s@.len() - k,
    {
        if s[k] == c {
            return Some(k);
        }
        k = k + 1;
    }
    None
}

/// `str::split_once` with a character pattern.
pub fn split_once_char<'a>(t: &'a str, c: char) -> (r: Option<(&'a str, &'a str)>)
    ensures
        match (r, split_once(t@, c)) {
            (Some((a, b)), Some((ma, mb))) => a@ == ma && b@ == mb,
            (None, None) => true,
            _ => false,
        },
{
    let cs = chars_of(t);
    match find_char(cs.as_slice(), 0, c) {
        Some(k) => Some((t.substring_char(0, k), t.substring_char(k + 1, cs.len()))),
        None => None,
    }
}

/// `s` is exactly the text `lit`.
pub fn str_eq(s: &str, lit: &str) -> (b: bool)
    ensures
        b == (s@ == lit@),
{
    let a = chars_of(s);
    let l = chars_of(lit);
    if a.len() != l.len() {
        return false;
    }
    let mut i: usize = 0;
    while i < a.len()
        invariant
            a@ == s@,
            l@ == lit@,
            a@.len() == l@.len(),
            i <= a@.len(),
            forall|j: int| 0 <= j < i ==> a@[j] == l@[j],
        decreases a@.len() - i,
    {
        if a[i] != l[i] {
            return false;
        }
        i = i + 1;
    }
    assert(a@ =~= l@);
    true
}

} // verus!
