//! Scanning primitives over a character sequence: character classes, runs,
//! literals and decimal numbers.

use vstd::prelude::*;
use crate::bindings::{char_is_alphanumeric, unicode_alphanumeric};
use crate::text::{chars_of, is_ascii_alphabetic, is_ascii_alphanumeric, is_ascii_digit, is_ascii_upper};

verus! {

/// The classes of characters that the grammars take runs of.
#[derive(Debug, Clone, Copy, PartialEq, Eq, Structural)]
pub enum CharClass {
    /// ASCII upper-case letters and the space (section headers).
    HeaderChar,
    /// Space and tab.
    Blank,
    /// ASCII letters and digits, `_`, `-` and `.`.
    GemNameChar,
    /// ASCII letters and digits and `_`.
    CpuChar,
    /// ASCII letters and digits, `_`, `.` and `-`.
    OsChar,
    AsciiAlpha,
    AsciiAlnum,
    Digit,
    HexDigit,
    /// Unicode letters and digits.
    Alnum,
    /// Unicode letters and digits and `.`.
    VersionChar,
    /// Unicode letters and digits, `.`, `-`, `_` and `/`.
    RefChar,
    /// `RefChar` and the glob metacharacters `*?[]^\{},`.
    GlobChar,
}

pub open spec fn is_hex_digit(c: char) -> bool {
    is_ascii_digit(c) || ('a' <= c && c <= 'f') || ('A' <= c && c <= 'F')
}

pub open spec fn is_ref_char(c: char) -> bool {
    unicode_alphanumeric(c) || c == '.' || c == '-' || c == '_' || c == '/'
}

pub open spec fn class_holds(cls: CharClass, c: char) -> bool {
    match cls {
        CharClass::HeaderChar => is_ascii_upper(c) || c == ' ',
        CharClass::Blank => c == ' ' || c == '\t',
        CharClass::GemNameChar => is_ascii_alphanumeric(c) || c == '_' || c == '-' || c == '.',
        CharClass::CpuChar => is_ascii_alphanumeric(c) || c == '_',
        CharClass::OsChar => is_ascii_alphanumeric(c) || c == '_' || c == '.' || c == '-',
        CharClass::AsciiAlpha => is_ascii_alphabetic(c),
        CharClass::AsciiAlnum => is_ascii_alphanumeric(c),
        CharClass::Digit => is_ascii_digit(c),
        CharClass::HexDigit => is_hex_digit(c),
        CharClass::Alnum => unicode_alphanumeric(c),
        CharClass::VersionChar => unicode_alphanumeric(c) || c == '.',
        CharClass::RefChar => is_ref_char(c),
        CharClass::GlobChar => is_ref_char(c) || c == '*' || c == '?' || c == '[' || c == ']'
            || c == '^' || c == '\\' || c == '{' || c == '}' || c == ',',
    }
}

pub fn holds(cls: CharClass, c: char) -> (b: bool)
    ensures
        b == class_holds(cls, c),
{
    let ascii_alnum = ('a' <= c && c <= 'z') || ('A' <= c && c <= 'Z') || ('0' <= c && c <= '9');
    match cls {
        CharClass::HeaderChar => ('A' <= c && c <= 'Z') || c == ' ',
        CharClass::Blank => c == ' ' || c == '\t',
        CharClass::GemNameChar => ascii_alnum || c == '_' || c == '-' || c == '.',
        CharClass::CpuChar => ascii_alnum || c == '_',
        CharClass::OsChar => ascii_alnum || c == '_' || c == '.' || c == '-',
        CharClass::AsciiAlpha => ('a' <= c && c <= 'z') || ('A' <= c && c <= 'Z'),
        CharClass::AsciiAlnum => ascii_alnum,
        CharClass::Digit => '0' <= c && c <= '9',
        CharClass::HexDigit => ('0' <= c && c <= '9') || ('a' <= c && c <= 'f') || ('A' <= c && c
            <= 'F'),
        CharClass::Alnum => char_is_alphanumeric(c),
        CharClass::VersionChar => c == '.' || char_is_alphanumeric(c),
        CharClass::RefChar => c == '.' || c == '-' || c == '_' || c == '/' || char_is_alphanumeric(
            c,
        ),
        CharClass::GlobChar => c == '.' || c == '-' || c == '_' || c == '/' || c == '*' || c == '?'
            || c == '[' || c == ']' || c == '^' || c == '\\' || c == '{' || c == '}' || c == ','
            || char_is_alphanumeric(c),
    }
}

/// The end of the longest run of `cls` characters that starts at `p`.
pub open spec fn run_end(s: Seq<char>, p: int, cls: CharClass) -> int
    decreases s.len() - p,
{
    if p < 0 || p >= s.len() || !class_holds(cls, s[p]) {
        p
    } else {
        run_end(s, p + 1, cls)
    }
}

pub proof fn lemma_run_end(s: Seq<char>, p: int, cls: CharClass)
    requires
        0 <= p <= s.len(),
    ensures
        p <= run_end(s, p, cls) <= s.len(),
        forall|k: int| p <= k < run_end(s, p, cls) ==> class_holds(cls, #[trigger] s[k]),
        run_end(s, p, cls) < s.len() ==> !class_holds(cls, s[run_end(s, p, cls)]),
    decreases s.len() - p,
{
    if p < s.len() && class_holds(cls, s[p]) {
        lemma_run_end(s, p + 1, cls);
    }
}

/// The end of the run of `cls` characters that starts at `p`.
pub fn scan(s: &[char], p: usize, cls: CharClass) -> (q: usize)
    requires
        p <= s@.len(),
    ensures
        q == run_end(s@, p as int, cls),
        p <= q <= s@.len(),
{
    proof {
        lemma_run_end(s@, p as int, cls);
    }
    let mut i = p;
    while i < s.len() && holds(cls, s[i])
        invariant
            p <= i <= s@.len(),
            run_end(s@, p as int, cls) == run_end(s@, i as int, cls),
        decreases s@.len() - i,
    {
        i = i + 1;
    }
    i
}

/// `lit` occurs in `s` at position `p`.
pub open spec fn has_at(s: Seq<char>, p: int, lit: Seq<char>) -> bool {
    0 <= p && p + lit.len() <= s.len() && s.subrange(p, p + lit.len()) =~= lit
}

pub fn chars_at(s: &[char], p: usize, lit: &[char]) -> (b: bool)
    requires
        p <= s@.len(),
    ensures
        b == has_at(s@, p as int, lit@),
{
    if lit.len() > s.len() - p {
        return false;
    }
    let mut k: usize = 0;
    while k < lit.len()
        invariant
            p + lit@.len() <= s@.len(),
            s@.len() <= usize::MAX,
            k <= lit@.len(),
            forall|j: int| 0 <= j < k ==> s@[p + j] == lit@[j],
        decreases lit@.len() - k,
    {
        if s[p + k] != lit[k] {
            assert(s@.subrange(p as int, p + lit@.len())[k as int] != lit@[k as int]);
            return false;
        }
        k = k + 1;
    }
    assert(s@.subrange(p as int, p + lit@.len()) =~= lit@);
    true
}

/// Whether the literal `lit` occurs in `s` at position `p`.
pub fn str_at(s: &[char], p: usize, lit: &str) -> (b: bool)
    requires
        p <= s@.len(),
    ensures
        b == has_at(s@, p as int, lit@),
{
    let l = chars_of(lit);
    chars_at(s, p, l.as_slice())
}

/// The characters `s[a..b]` are exactly `lit`.
pub fn span_is(s: &[char], a: usize, b: usize, lit: &str) -> (r: bool)
    requires
        a <= b <= s@.len(),
    ensures
        r == (s@.subrange(a as int, b as int) =~= lit@),
{
    let l = chars_of(lit);
    if l.len() != b - a {
        return false;
    }
    let r = chars_at(s, a, l.as_slice());
    assert(r == (s@.subrange(a as int, b as int) =~= lit@));
    r
}

/// The value of a sequence of ASCII digits, read in base ten.
pub open spec fn digits_value(ds: Seq<char>) -> nat
    decreases ds.len(),
{
    if ds.len() == 0 {
        0
    } else {
        digits_value(ds.drop_last()) * 10 + ((ds.last() as int - '0' as int) as nat)
    }
}

pub proof fn lemma_digits_value_monotone(ds: Seq<char>, j: int, k: int)
    requires
        0 <= j <= k <= ds.len(),
        forall|i: int| 0 <= i < ds.len() ==> is_ascii_digit(#[trigger] ds[i]),
    ensures
        digits_value(ds.subrange(0, j)) <= digits_value(ds.subrange(0, k)),
    decreases k - j,
{
    if j < k {
        lemma_digits_value_monotone(ds, j, k - 1);
        assert(ds.subrange(0, k).drop_last() =~= ds.subrange(0, k - 1));
        assert(is_ascii_digit(ds[k - 1]));
    }
}

/// The value of the digits `s[a..b]` when it is at most `limit`.
pub fn decimal_value(s: &[char], a: usize, b: usize, limit: u64) -> (r: Option<u64>)
    requires
        a <= b <= s@.len(),
        forall|i: int| a <= i < b ==> is_ascii_digit(#[trigger] s@[i]),
    ensures
        match r {
            Some(v) => v == digits_value(s@.subrange(a as int, b as int)) && v <= limit,
            None => digits_value(s@.subrange(a as int, b as int)) > limit,
        },
{
    let ghost ds = s@.subrange(a as int, b as int);
    assert(forall|i: int| 0 <= i < ds.len() ==> is_ascii_digit(#[trigger] ds[i]));
    let mut acc: u64 = 0;
    let mut i = a;
    while i < b
        invariant
            a <= i <= b <= s@.len(),
            ds == s@.subrange(a as int, b as int),
            forall|j: int| 0 <= j < ds.len() ==> is_ascii_digit(#[trigger] ds[j]),
            acc == digits_value(ds.subrange(0, i - a)),
            acc <= limit,
        decreases b - i,
    {
        assert(ds[i - a] == s@[i as int]);
        assert(is_ascii_digit(s@[i as int]));
        let d = (s[i] as u32 - '0' as u32) as u64;
        proof {
            assert(ds[i - a] == s@[i as int]);
            assert(ds.subrange(0, i - a + 1).drop_last() =~= ds.subrange(0, i - a));
        }
        let next: u128 = acc as u128 * 10 + d as u128;
        if next > limit as u128 {
            proof {
                lemma_digits_value_monotone(ds, i - a + 1, ds.len() as int);
                assert(ds.subrange(0, ds.len() as int) =~= ds);
            }
            return None;
        }
        acc = next as u64;
        i = i + 1;
    }
    assert(ds.subrange(0, b - a) =~= ds);
    Some(acc)
}

} // verus!
