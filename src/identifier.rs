//! Validation of identifiers, as far as client types need it.

use vstd::prelude::*;
use vstd::std_specs::iter::IteratorSpec;
use vstd::utf8::encode_utf8;

verus! {

broadcast use vstd::string::group_string_axioms;

/// Separates the segments of a path; no identifier may hold it.
pub const PATH_SEPARATOR: char = '/';

/// The shortest identifier that may be built from a client type.
pub const MIN_ID_LENGTH: u64 = 9;

/// The longest identifier that may be built from a client type.
pub const MAX_ID_LENGTH: u64 = 64;

/// A client type is the prefix of an identifier `{prefix}-{n}`: the shortest one
/// is made with `n = 0`, which adds two bytes.
pub const CLIENT_TYPE_MIN_LENGTH: u64 = MIN_ID_LENGTH - 2;

/// The longest one is made with `n = u64::MAX`, which adds twenty-one bytes.
pub const CLIENT_TYPE_MAX_LENGTH: u64 = MAX_ID_LENGTH - 21;

/// Why a text is not a valid identifier.
#[derive(Clone, Debug, PartialEq, Eq)]
pub enum IdentifierError {
    /// The text is empty.
    Empty,
    /// The text holds the path separator.
    ContainSeparator { id: String },
    /// The text holds a character that is neither alphanumeric nor one of `._+-#[]<>`.
    InvalidCharacter { id: String },
    /// The length in bytes of the text is outside `min..=max`.
    InvalidLength { id: String, length: u64, min: u64, max: u64 },
}

/// Whether a character is alphabetic or numeric in the Unicode sense.
pub uninterp spec fn alphanumeric(c: char) -> bool;

/// Relies on `char::is_alphanumeric`: whether `c` is alphabetic or numeric in
/// Unicode, which depends on `c` alone.
#[verifier::external_body]
fn is_alphanumeric(c: char) -> (r: bool)
    ensures
        r == alphanumeric(c),
{
    c.is_alphanumeric()
}

/// The punctuation that an identifier may hold besides alphanumerics.
pub open spec fn is_special_char(c: char) -> bool {
    c == '.' || c == '_' || c == '+' || c == '-' || c == '#' || c == '[' || c == ']' || c == '<'
        || c == '>'
}

pub open spec fn is_identifier_char(c: char) -> bool {
    alphanumeric(c) || is_special_char(c)
}

/// Whether `c` may stand in an identifier.
fn check_identifier_char(c: char) -> (r: bool)
    ensures
        r == is_identifier_char(c),
{
    is_alphanumeric(c) || c == '.' || c == '_' || c == '+' || c == '-' || c == '#' || c == '['
        || c == ']' || c == '<' || c == '>'
}

pub open spec fn holds_separator(s: Seq<char>) -> bool {
    exists|i: int| 0 <= i < s.len() && s[i] == PATH_SEPARATOR
}

pub open spec fn has_identifier_chars(s: Seq<char>) -> bool {
    forall|i: int| 0 <= i < s.len() ==> #[trigger] is_identifier_char(s[i])
}

/// The length in bytes of the UTF-8 encoding of `s`.
pub open spec fn byte_len(s: Seq<char>) -> int {
    encode_utf8(s).len() as int
}

pub open spec fn has_client_type_length(s: Seq<char>) -> bool {
    CLIENT_TYPE_MIN_LENGTH <= byte_len(s) <= CLIENT_TYPE_MAX_LENGTH
}

/// A valid client type: non-empty, free of the path separator, made of
/// identifier characters, and of a length that fits every identifier built on it.
pub open spec fn is_valid_client_type(s: Seq<char>) -> bool {
    &&& s.len() > 0
    &&& !holds_separator(s)
    &&& has_identifier_chars(s)
    &&& has_client_type_length(s)
}

/// `e` is the error that the validation of `s` as a client type reports: the
/// first rule that `s` breaks, in the order empty, separator, characters, length.
pub open spec fn is_client_type_error(e: IdentifierError, s: Seq<char>) -> bool {
    match e {
        IdentifierError::Empty => s.len() == 0,
        IdentifierError::ContainSeparator { id } => s.len() > 0 && holds_separator(s) && id@ == s,
        IdentifierError::InvalidCharacter { id } => {
            &&& s.len() > 0
            &&& !holds_separator(s)
            &&& !has_identifier_chars(s)
            &&& id@ == s
        },
        IdentifierError::InvalidLength { id, length, min, max } => {
            &&& s.len() > 0
            &&& !holds_separator(s)
            &&& has_identifier_chars(s)
            &&& !has_client_type_length(s)
            &&& id@ == s
            &&& length == byte_len(s)
            &&& min == CLIENT_TYPE_MIN_LENGTH
            &&& max == CLIENT_TYPE_MAX_LENGTH
        },
    }
}

/// Checks that `id` is a valid client type, and otherwise reports the first rule
/// that it breaks.
pub fn validate_client_type(id: &str) -> (r: Result<(), IdentifierError>)
    ensures
        r is Ok <==> is_valid_client_type(id@),
        r matches Err(e) ==> is_client_type_error(e, id@),
{
    if id.is_empty() {
        return Err(IdentifierError::Empty);
    }
    let mut chars = id.chars();
    let ghost k: int = 0;
    let mut has_separator = false;
    let mut all_identifier_chars = true;
    loop
        invariant
            0 <= k <= id@.len(),
            chars.remaining() == id@.subrange(k, id@.len() as int),
            has_separator <==> holds_separator(id@.subrange(0, k)),
            all_identifier_chars <==> has_identifier_chars(id@.subrange(0, k)),
        ensures
            k == id@.len(),
        decreases id@.len() - k,
    {
        match chars.next() {
            Some(c) => {
                assert(c == id@[k]);
                if c == PATH_SEPARATOR {
                    has_separator = true;
                }
                if !check_identifier_char(c) {
                    all_identifier_chars = false;
                }
                proof {
                    let before = id@.subrange(0, k);
                    let after = id@.subrange(0, k + 1);
                    assert(after =~= before.push(c));
                    if holds_separator(before) {
                        let i = choose|i: int| 0 <= i < before.len() && before[i] == PATH_SEPARATOR;
                        assert(after[i] == PATH_SEPARATOR);
                    }
                    if holds_separator(after) && !holds_separator(before) {
                        let i = choose|i: int| 0 <= i < after.len() && after[i] == PATH_SEPARATOR;
                        assert(i == k);
                    }
                    if !has_identifier_chars(before) {
                        let i = choose|i: int| 0 <= i < before.len() && !is_identifier_char(before[i]);
                        assert(!is_identifier_char(after[i]));
                    }
                    if !is_identifier_char(c) {
                        assert(!is_identifier_char(after[k]));
                    }
                    k = k + 1;
                }
            },
            None => {
                break ;
            },
        }
    }
    assert(id@.subrange(0, k) =~= id@);
    if has_separator {
        return Err(IdentifierError::ContainSeparator { id: id.to_owned() });
    }
    if !all_identifier_chars {
        return Err(IdentifierError::InvalidCharacter { id: id.to_owned() });
    }
    let length = id.as_bytes().len() as u64;
    if length < CLIENT_TYPE_MIN_LENGTH || length > CLIENT_TYPE_MAX_LENGTH {
        return Err(
            IdentifierError::InvalidLength {
                id: id.to_owned(),
                length,
                min: CLIENT_TYPE_MIN_LENGTH,
                max: CLIENT_TYPE_MAX_LENGTH,
            },
        );
    }
    Ok(())
}

} // verus!
