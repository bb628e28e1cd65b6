//! Calls into std and outside crates whose results this library relies on.
//! Each item here is trusted: Verus believes its contract without a proof.

use vstd::prelude::*;
use base64::Engine;
use sha2::Digest;
use crate::text::is_ascii_alphanumeric;
use vstd::string::StringSliceAdditionalSpecFns;
use crate::github::{UrlError, UrlParts};
use crate::storage::{all_normal, bad_component_from, PathComponent};

verus! {

/// What `char::is_alphanumeric` answers for `c` (the Unicode `Alphabetic`
/// or `Numeric` properties).
pub uninterp spec fn unicode_alphanumeric(c: char) -> bool;

/// What `char::is_whitespace` answers for `c` (the Unicode `White_Space`
/// property).
pub uninterp spec fn unicode_whitespace(c: char) -> bool;

/// Calls `char::is_alphanumeric`. The contract names the answer and states
/// only what std's documentation makes plain for ASCII: there it agrees with
/// `is_ascii_alphanumeric`.
#[verifier::external_body]
pub fn char_is_alphanumeric(c: char) -> (b: bool)
    ensures
        b == unicode_alphanumeric(c),
        (c as u32) < 128 ==> (b == is_ascii_alphanumeric(c)),
{
    c.is_alphanumeric()
}

/// Calls `char::is_whitespace`. The contract names the answer and states for
/// ASCII what the `White_Space` property holds there: tab, line feed, vertical
/// tab, form feed, carriage return and space.
#[verifier::external_body]
pub fn char_is_whitespace(c: char) -> (b: bool)
    ensures
        b == unicode_whitespace(c),
        (c as u32) < 128 ==> (b == (('\t' <= c && c <= '\r') || c == ' ')),
{
    c.is_whitespace()
}

} // verus!

verus! {

/// Why `hex::decode` refused its input.
#[derive(Debug, Clone, Copy, PartialEq, Eq, Structural)]
pub enum HexError {
    InvalidHexCharacter { c: char, index: usize },
    OddLength,
    InvalidStringLength,
}

/// The value of an ASCII hex digit, given as a byte.
pub open spec fn hex_digit_value(b: u8) -> Option<u8> {
    if 48 <= b <= 57 {
        Some((b - 48) as u8)
    } else if 97 <= b <= 102 {
        Some((b - 87) as u8)
    } else if 65 <= b <= 70 {
        Some((b - 55) as u8)
    } else {
        None
    }
}

/// The index of the first byte at or after `i` that is not a hex digit.
pub open spec fn first_non_hex(bytes: Seq<u8>, i: int) -> Option<int>
    decreases bytes.len() - i,
{
    if i < 0 || i >= bytes.len() {
        None
    } else if hex_digit_value(bytes[i]) is None {
        Some(i)
    } else {
        first_non_hex(bytes, i + 1)
    }
}

/// Hex decoding as `hex::decode` does it: an odd length is refused first,
/// then the first byte that is not a hex digit; otherwise each pair of digits
/// gives one byte, high nibble first.
pub open spec fn hex_decoding(bytes: Seq<u8>) -> Result<Seq<u8>, HexError> {
    if bytes.len() % 2 != 0 {
        Err(HexError::OddLength)
    } else {
        match first_non_hex(bytes, 0) {
            Some(i) => Err(HexError::InvalidHexCharacter { c: bytes[i] as char, index: i as usize }),
            None => Ok(
                Seq::new(
                    (bytes.len() / 2) as nat,
                    |k: int|
                        (hex_digit_value(bytes[2 * k])->0 * 16 + hex_digit_value(
                            bytes[2 * k + 1],
                        )->0) as u8,
                ),
            ),
        }
    }
}

/// Calls `hex::decode` on the UTF-8 bytes of `data`. The contract restates
/// the crate's decoding (see `hex_decoding`), and the wrapper maps the crate's
/// `FromHexError` to `HexError` variant by variant.
#[verifier::external_body]
pub fn hex_decode(data: &str) -> (r: Result<Vec<u8>, HexError>)
    ensures
        match r {
            Ok(v) => hex_decoding(data.spec_bytes()) == Ok::<Seq<u8>, HexError>(v@),
            Err(e) => hex_decoding(data.spec_bytes()) == Err::<Seq<u8>, HexError>(e),
        },
{
    match hex::decode(data) {
        Ok(v) => Ok(v),
        Err(hex::FromHexError::InvalidHexCharacter { c, index }) => Err(
            HexError::InvalidHexCharacter { c, index },
        ),
        Err(hex::FromHexError::OddLength) => Err(HexError::OddLength),
        Err(hex::FromHexError::InvalidStringLength) => Err(HexError::InvalidStringLength),
    }
}

} // verus!

verus! {

#[verifier::external_type_specification]
#[verifier::external_body]
pub struct ExIoError(std::io::Error);

#[verifier::external_type_specification]
#[verifier::external_body]
pub struct ExSerdeJsonError(serde_json::Error);


/// The SHA-256 digest of `data`, as `sha2::Sha256::digest` computes it.
pub uninterp spec fn sha256_of(data: Seq<u8>) -> Seq<u8>;

/// Calls `sha2::Sha256::digest`. The contract names the digest and states
/// its length, 32 bytes.
#[verifier::external_body]
pub fn sha256_digest(data: &[u8]) -> (d: Vec<u8>)
    ensures
        d@ == sha256_of(data@),
        d@.len() == 32,
{
    sha2::Sha256::digest(data).to_vec()
}

/// The character of the standard base64 alphabet for the 6-bit value `v`.
pub open spec fn base64_char(v: u8) -> char {
    if v < 26 {
        (v + 65) as char
    } else if v < 52 {
        (v - 26 + 97) as char
    } else if v < 62 {
        (v - 52 + 48) as char
    } else if v == 62 {
        '+'
    } else {
        '/'
    }
}

/// Base64 with the standard alphabet and `=` padding (RFC 4648, section 4):
/// each group of three bytes gives four characters, and a final group of one
/// or two bytes gives two or three characters and padding.
pub open spec fn base64_standard(d: Seq<u8>) -> Seq<char>
    decreases d.len(),
{
    if d.len() == 0 {
        seq![]
    } else if d.len() == 1 {
        seq![base64_char(d[0] >> 2), base64_char((d[0] & 3) << 4), '=', '=']
    } else if d.len() == 2 {
        seq![
            base64_char(d[0] >> 2),
            base64_char(((d[0] & 3) << 4) | (d[1] >> 4)),
            base64_char((d[1] & 15) << 2),
            '=',
        ]
    } else {
        seq![
            base64_char(d[0] >> 2),
            base64_char(((d[0] & 3) << 4) | (d[1] >> 4)),
            base64_char(((d[1] & 15) << 2) | (d[2] >> 6)),
            base64_char(d[2] & 63),
        ] + base64_standard(d.subrange(3, d.len() as int))
    }
}

/// Calls `base64::engine::general_purpose::STANDARD.encode`. The contract
/// restates the standard padded encoding (see `base64_standard`).
#[verifier::external_body]
pub fn base64_encode(data: &[u8]) -> (t: String)
    ensures
        t@ == base64_standard(data@),
{
    base64::engine::general_purpose::STANDARD.encode(data)
}

/// The kinds of the components that `std::path::Path::components` yields
/// for `key`, in order.
pub uninterp spec fn path_components(key: Seq<char>) -> Seq<PathComponent>;

/// Calls `std::path::Path::components` on `key` and converts each component
/// to its kind, one for one. The contract names the result and states what
/// the documentation of `components` and `Component` gives for a relative
/// key whose `/`-separated parts are all names: with no root, no `.` or `..`
/// part, no empty part (so no repeated or trailing separator) and no `\` or
/// `:` (so no Windows prefix), every component is a name.
#[verifier::external_body]
pub fn path_component_kinds(key: &str) -> (v: Vec<PathComponent>)
    ensures
        v@ == path_components(key@),
        all_normal(v@) || key@.len() == 0 || key@[0] == '/' || key@.contains('\\')
            || key@.contains(':') || bad_component_from(key@, 0),
{
    std::path::Path::new(key).components().map(
        |c| match c {
            std::path::Component::Prefix(_) => PathComponent::Prefix,
            std::path::Component::RootDir => PathComponent::RootDir,
            std::path::Component::CurDir => PathComponent::CurDir,
            std::path::Component::ParentDir => PathComponent::ParentDir,
            std::path::Component::Normal(_) => PathComponent::Normal,
        },
    ).collect()
}

/// The text of the path that `std::path::Path::join` makes of `base` and
/// `rel`.
pub uninterp spec fn joined_path(base: Seq<char>, rel: Seq<char>) -> Seq<char>;

/// Calls `std::path::Path::join` on `base` and `rel` and gives the joined
/// path as text (valid UTF-8, since both parts are). The contract names the
/// result.
#[verifier::external_body]
pub fn path_join(base: &str, rel: &str) -> (p: String)
    ensures
        p@ == joined_path(base@, rel@),
{
    std::path::Path::new(base).join(rel).to_string_lossy().into_owned()
}

} // verus!

verus! {

/// The capture groups of the leftmost-first match of the regular expression
/// `pattern` in `haystack`, as the `regex` crate finds them: for each group,
/// the text before it and its text, or nothing for a group that did not take
/// part in the match. Nothing at all when there is no match.
pub uninterp spec fn regex_groups(pattern: Seq<char>, haystack: Seq<char>) -> Option<
    Seq<Option<(Seq<char>, Seq<char>)>>,
>;

/// Calls `regex::Regex::new(pattern)` and `Regex::captures(haystack)`, and
/// converts each group's match to the text before it and its text. A pattern
/// that does not compile gives `None`. The contract names the result and
/// states what the crate documents of every match: it is a piece of the
/// haystack, so the text before a group followed by the group is a prefix of
/// the haystack.
#[verifier::external_body]
pub fn regex_captures(pattern: &str, haystack: &str) -> (r: Option<Vec<Option<(String, String)>>>)
    ensures
        r.deep_view() == regex_groups(pattern@, haystack@),
        r matches Some(groups) ==> forall|i: int|
            0 <= i < groups@.len() ==> (#[trigger] groups@[i] matches Some((b, t)) ==> b@.len()
                + t@.len() <= haystack@.len() && haystack@.subrange(0, (b@.len() + t@.len()) as int)
                == b@ + t@),
{
    let re = regex::Regex::new(pattern).ok()?;
    let caps = re.captures(haystack)?;
    Some(
        caps.iter().map(
            |m| m.map(|m| (haystack[..m.start()].to_string(), m.as_str().to_string())),
        ).collect(),
    )
}

} // verus!

verus! {

/// What `url::Url::parse` gives for `text`: the URL's scheme, its host if it
/// has one, and its serialization; or the text of the parse error.
pub uninterp spec fn url_parse(text: Seq<char>) -> Result<
    (Seq<char>, Option<Seq<char>>, Seq<char>),
    Seq<char>,
>;

/// Calls `url::Url::parse` and reads `scheme`, `host_str` and `as_str` of
/// the URL, or the `Display` text of the crate's `ParseError`. The contract
/// names the result and states one fact of the parser's source: text with no
/// `:` has no scheme, and without a base URL that is the error
/// `RelativeUrlWithoutBase`, whose text is "relative URL without a base".
#[verifier::external_body]
pub fn url_parts(text: &str) -> (r: Result<UrlParts, UrlError>)
    ensures
        match r {
            Ok(p) => url_parse(text@) matches Ok(m) && m == p.deep_view(),
            Err(e) => url_parse(text@) matches Err(m) && m == e.message@,
        },
        r is Ok ==> exists|i: int| 0 <= i < text@.len() && text@[i] == ':',
        r matches Err(e) ==> (e.message@ == "relative URL without a base"@ || exists|i: int|
            0 <= i < text@.len() && text@[i] == ':'),
{
    match url::Url::parse(text) {
        Ok(u) => Ok(
            UrlParts {
                scheme: u.scheme().to_string(),
                host: u.host_str().map(|h| h.to_string()),
                serialized: u.as_str().to_string(),
            },
        ),
        Err(e) => Err(UrlError { message: e.to_string() }),
    }
}

} // verus!
