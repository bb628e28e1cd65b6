//! Gem-name validation.
//!
//! Gem names in lockfiles and compact-index responses use one ASCII subset:
//! letters, digits, `.`, `_` and `-`. Refusing path separators and the
//! path-only components `.` and `..` keeps untrusted names from becoming
//! filesystem paths.

use vstd::prelude::*;
use crate::text::{chars_of, is_ascii_alphanumeric};

verus! {

/// Why a gem name was refused.
#[derive(Debug, Clone, Copy, PartialEq, Eq, Structural)]
pub enum GemNameError {
    Empty,
    InvalidCharacters,
    InvalidPathComponent,
}

impl GemNameError {
    /// The human-readable description of the error.
    pub fn message(&self) -> (msg: String)
        ensures
            msg@ == self.spec_message(),
    {
        match self {
            GemNameError::Empty => String::from_str("Gem name cannot be empty"),
            GemNameError::InvalidCharacters => String::from_str(
                "Gem name contains invalid characters",
            ),
            GemNameError::InvalidPathComponent => String::from_str(
                "Gem name cannot be `.` or `..`",
            ),
        }
    }

    pub open spec fn spec_message(&self) -> Seq<char> {
        match self {
            GemNameError::Empty => "Gem name cannot be empty"@,
            GemNameError::InvalidCharacters => "Gem name contains invalid characters"@,
            GemNameError::InvalidPathComponent => "Gem name cannot be `.` or `..`"@,
        }
    }
}

/// A character that may appear in a gem name.
pub open spec fn is_gem_name_char(c: char) -> bool {
    is_ascii_alphanumeric(c) || c == '.' || c == '_' || c == '-'
}

/// `name` is one of the path-only components `.` and `..`.
pub open spec fn is_dot_component(name: Seq<char>) -> bool {
    name =~= seq!['.'] || name =~= seq!['.', '.']
}

/// The verdict on a gem name, checked in this order: emptiness, the
/// components `.` and `..`, then the character set.
pub open spec fn gem_name_verdict(name: Seq<char>) -> Result<(), GemNameError> {
    if name.len() == 0 {
        Err(GemNameError::Empty)
    } else if is_dot_component(name) {
        Err(GemNameError::InvalidPathComponent)
    } else if !(forall|i: int| 0 <= i < name.len() ==> #[trigger] is_gem_name_char(name[i])) {
        Err(GemNameError::InvalidCharacters)
    } else {
        Ok(())
    }
}

/// A gem name that may be used as an identifier or path component.
pub open spec fn is_valid_gem_name(name: Seq<char>) -> bool {
    gem_name_verdict(name) is Ok
}

/// The same check on a name already split into characters.
pub fn validate_gem_name_chars(name: &[char]) -> (res: Result<(), GemNameError>)
    ensures
        res == gem_name_verdict(name@),
{
    let n = name.len();
    if n == 0 {
        return Err(GemNameError::Empty);
    }
    if (n == 1 && name[0] == '.') || (n == 2 && name[0] == '.' && name[1] == '.') {
        assert(is_dot_component(name@));
        return Err(GemNameError::InvalidPathComponent);
    }
    assert(!is_dot_component(name@)) by {
        if name@ =~= seq!['.'] {
            assert(name@[0] == '.');
        }
        if name@ =~= seq!['.', '.'] {
            assert(name@[0] == '.' && name@[1] == '.');
        }
    }
    let mut i: usize = 0;
    while i < n
        invariant
            n == name@.len(),
            i <= n,
            forall|j: int| 0 <= j < i ==> #[trigger] is_gem_name_char(name@[j]),
        decreases n - i,
    {
        let c = name[i];
        if !(('a' <= c && c <= 'z') || ('A' <= c && c <= 'Z') || ('0' <= c && c <= '9') || c == '.'
            || c == '_' || c == '-') {
            assert(!is_gem_name_char(name@[i as int]));
            return Err(GemNameError::InvalidCharacters);
        }
        i = i + 1;
    }
    Ok(())
}

/// Validate a gem name before it is used as an identifier or path component.
///
/// Refuses the empty name, the components `.` and `..`, and any name with a
/// character other than an ASCII letter or digit, `.`, `_` or `-`.
pub fn validate_gem_name(name: &str) -> (res: Result<(), GemNameError>)
    ensures
        res == gem_name_verdict(name@),
{
    let chars = chars_of(name);
    validate_gem_name_chars(chars.as_slice())
}

/// A valid gem name is a single safe path component: it is not empty, not
/// `.` or `..`, and holds no `/`, `\`, `:` or other character that a path
/// could give meaning to.
pub proof fn lemma_valid_gem_name_is_plain_component(name: Seq<char>)
    requires
        is_valid_gem_name(name),
    ensures
        name.len() > 0,
        !is_dot_component(name),
        forall|i: int|
            0 <= i < name.len() ==> (#[trigger] name[i]) != '/' && name[i] != '\\' && name[i]
                != ':' && name[i] != ' ',
{
    assert forall|i: int| 0 <= i < name.len() implies (#[trigger] name[i]) != '/' && name[i]
        != '\\' && name[i] != ':' && name[i] != ' ' by {
        assert(is_gem_name_char(name[i]));
    }
}

} // verus!
