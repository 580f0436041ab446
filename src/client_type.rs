//! The client type: which consensus algorithm a light client follows.

use std::cmp::Ordering;
use vstd::prelude::*;
use vstd::std_specs::cmp::{PartialEqSpec, PartialOrdSpec};
use vstd::string::StringExecFns;
use vstd::utf8::{encode_utf8, encode_utf8_decode_utf8};
use crate::identifier::{is_client_type_error, is_valid_client_type, validate_client_type, IdentifierError};

verus! {

/// Whether `c` has the Unicode `White_Space` property.
pub open spec fn is_white_space(c: char) -> bool {
    let u = c as u32;
    ||| 0x9 <= u <= 0xD
    ||| u == 0x20
    ||| u == 0x85
    ||| u == 0xA0
    ||| u == 0x1680
    ||| 0x2000 <= u <= 0x200A
    ||| u == 0x2028
    ||| u == 0x2029
    ||| u == 0x202F
    ||| u == 0x205F
    ||| u == 0x3000
}

/// `s` without its leading white space.
pub open spec fn trim_start(s: Seq<char>) -> Seq<char>
    decreases s.len(),
{
    if s.len() > 0 && is_white_space(s[0]) {
        trim_start(s.drop_first())
    } else {
        s
    }
}

/// `s` without its trailing white space.
pub open spec fn trim_end(s: Seq<char>) -> Seq<char>
    decreases s.len(),
{
    if s.len() > 0 && is_white_space(s.last()) {
        trim_end(s.drop_last())
    } else {
        s
    }
}

/// `s` without its leading and trailing white space.
pub open spec fn trimmed(s: Seq<char>) -> Seq<char> {
    trim_end(trim_start(s))
}

/// Relies on `str::trim`: the slice of `s` without leading and trailing
/// characters of the Unicode `White_Space` property.
#[verifier::external_body]
fn trim(s: &str) -> (r: &str)
    ensures
        r@ == trimmed(s@),
{
    s.trim()
}

/// The canonical rendering of a client type of text `t`: `ClientType(<t>)`.
pub open spec fn display_text(t: Seq<char>) -> Seq<char> {
    seq!['C', 'l', 'i', 'e', 'n', 't', 'T', 'y', 'p', 'e', '('] + t + seq![')']
}

/// Type of the client, depending on the specific consensus algorithm.
///
/// A value made by [`ClientType::new`] holds a valid client type without
/// surrounding white space; one made by `From<String>` holds its text as given.
#[derive(Clone, Debug, Eq, Ord, Hash)]
pub struct ClientType(String);

impl View for ClientType {
    type V = Seq<char>;

    closed spec fn view(&self) -> Seq<char> {
        self.0@
    }
}

impl ClientType {
    /// Constructs a new `ClientType` from the given `String` if, with its
    /// surrounding white space removed, it is a valid client type.
    pub fn new(s: String) -> (r: Result<Self, IdentifierError>)
        ensures
            r is Ok <==> is_valid_client_type(trimmed(s@)),
            r matches Ok(c) ==> c@ == trimmed(s@),
            r matches Err(e) ==> is_client_type_error(e, trimmed(s@)),
    {
        let s_trim = trim(s.as_str());
        match validate_client_type(s_trim) {
            Ok(()) => Ok(ClientType(s_trim.to_owned())),
            Err(e) => Err(e),
        }
    }

    /// Yields this identifier as a borrowed `&str`.
    pub fn as_str(&self) -> (r: &str)
        ensures
            r@ == self@,
    {
        self.0.as_str()
    }

    /// Renders this client type as `ClientType(<text>)`.
    pub fn to_string(&self) -> (r: String)
        ensures
            r@ == display_text(self@),
    {
        let mut out = String::from_str("ClientType(");
        out.append(self.0.as_str());
        out.append(")");
        proof {
            reveal_strlit("ClientType(");
            reveal_strlit(")");
            assert(out@ =~= display_text(self@));
        }
        out
    }
}

impl From<String> for ClientType {
    /// Constructs a new `ClientType` from the given `String` without performing
    /// any validation or trimming.
    fn from(value: String) -> (r: Self)
        ensures
            r@ == value@,
    {
        ClientType(value)
    }
}

impl vstd::std_specs::convert::FromSpecImpl<String> for ClientType {
    open spec fn obeys_from_spec() -> bool {
        true
    }

    closed spec fn from_spec(v: String) -> Self {
        ClientType(v)
    }
}

/// Lexicographic order of byte strings: the first differing byte decides, and
/// a proper prefix comes first.
pub open spec fn lex_cmp(a: Seq<u8>, b: Seq<u8>) -> Ordering
    decreases a.len(),
{
    if a.len() == 0 {
        if b.len() == 0 {
            Ordering::Equal
        } else {
            Ordering::Less
        }
    } else if b.len() == 0 {
        Ordering::Greater
    } else if a[0] < b[0] {
        Ordering::Less
    } else if a[0] > b[0] {
        Ordering::Greater
    } else {
        lex_cmp(a.drop_first(), b.drop_first())
    }
}

/// The order of texts: lexicographic over their UTF-8 bytes.
pub open spec fn text_cmp(a: Seq<char>, b: Seq<char>) -> Ordering {
    lex_cmp(encode_utf8(a), encode_utf8(b))
}

pub open spec fn reversed(o: Ordering) -> Ordering {
    match o {
        Ordering::Less => Ordering::Greater,
        Ordering::Equal => Ordering::Equal,
        Ordering::Greater => Ordering::Less,
    }
}

/// Compares two byte strings lexicographically.
fn compare_bytes(a: &[u8], b: &[u8]) -> (r: Ordering)
    ensures
        r == lex_cmp(a@, b@),
{
    let mut i: usize = 0;
    assert(a@.subrange(0, a@.len() as int) =~= a@);
    assert(b@.subrange(0, b@.len() as int) =~= b@);
    while i < a.len() && i < b.len()
        invariant
            i <= a@.len(),
            i <= b@.len(),
            lex_cmp(a@, b@) == lex_cmp(a@.subrange(i as int, a@.len() as int), b@.subrange(i as int, b@.len() as int)),
        decreases a@.len() - i,
    {
        if a[i] < b[i] {
            return Ordering::Less;
        }
        if a[i] > b[i] {
            return Ordering::Greater;
        }
        assert(a@.subrange(i as int, a@.len() as int).drop_first() =~= a@.subrange(i + 1, a@.len() as int));
        assert(b@.subrange(i as int, b@.len() as int).drop_first() =~= b@.subrange(i + 1, b@.len() as int));
        i = i + 1;
    }
    if i < b.len() {
        Ordering::Less
    } else if i < a.len() {
        Ordering::Greater
    } else {
        Ordering::Equal
    }
}

impl PartialEq for ClientType {
    fn eq(&self, other: &Self) -> (r: bool) {
        self.0 == other.0
    }
}

impl vstd::std_specs::cmp::PartialEqSpecImpl for ClientType {
    open spec fn obeys_eq_spec() -> bool {
        true
    }

    open spec fn eq_spec(&self, other: &Self) -> bool {
        self@ == other@
    }
}

impl PartialOrd for ClientType {
    fn partial_cmp(&self, other: &Self) -> (r: Option<Ordering>) {
        Some(compare_bytes(self.0.as_str().as_bytes(), other.0.as_str().as_bytes()))
    }
}

impl vstd::std_specs::cmp::PartialOrdSpecImpl for ClientType {
    open spec fn obeys_partial_cmp_spec() -> bool {
        true
    }

    open spec fn partial_cmp_spec(&self, other: &Self) -> Option<Ordering> {
        Some(text_cmp(self@, other@))
    }
}

/// Reversing the arguments of `lex_cmp` reverses its result.
proof fn lemma_lex_cmp_reversed(a: Seq<u8>, b: Seq<u8>)
    ensures
        lex_cmp(b, a) == reversed(lex_cmp(a, b)),
    decreases a.len(),
{
    if a.len() > 0 && b.len() > 0 && a[0] == b[0] {
        lemma_lex_cmp_reversed(a.drop_first(), b.drop_first());
    }
}

/// `lex_cmp` finds two byte strings equal exactly when they are.
proof fn lemma_lex_cmp_equal(a: Seq<u8>, b: Seq<u8>)
    ensures
        lex_cmp(a, b) == Ordering::Equal <==> a == b,
    decreases a.len(),
{
    if a.len() > 0 && b.len() > 0 && a[0] == b[0] {
        lemma_lex_cmp_equal(a.drop_first(), b.drop_first());
        if a.drop_first() == b.drop_first() {
            assert(a =~= seq![a[0]] + a.drop_first());
            assert(b =~= seq![b[0]] + b.drop_first());
        }
    }
    if a.len() == 0 && b.len() == 0 {
        assert(a =~= b);
    }
}

/// `lex_cmp` orders transitively.
proof fn lemma_lex_cmp_transitive(a: Seq<u8>, b: Seq<u8>, c: Seq<u8>)
    requires
        lex_cmp(a, b) == Ordering::Less,
        lex_cmp(b, c) == Ordering::Less,
    ensures
        lex_cmp(a, c) == Ordering::Less,
    decreases a.len(),
{
    if a.len() > 0 && b.len() > 0 && c.len() > 0 && a[0] == b[0] && b[0] == c[0] {
        lemma_lex_cmp_transitive(a.drop_first(), b.drop_first(), c.drop_first());
    }
}

/// Two texts are ordered equal exactly when they are the same text.
proof fn lemma_text_cmp_equal(a: Seq<char>, b: Seq<char>)
    ensures
        text_cmp(a, b) == Ordering::Equal <==> a == b,
{
    lemma_lex_cmp_equal(encode_utf8(a), encode_utf8(b));
    encode_utf8_decode_utf8(a);
    encode_utf8_decode_utf8(b);
}

/// Equality of client types is reflexive, symmetric and transitive, and two
/// client types are equal exactly when their texts are.
pub proof fn lemma_eq_is_text_equality(a: ClientType, b: ClientType, c: ClientType)
    ensures
        a.eq_spec(&a),
        a.eq_spec(&b) == b.eq_spec(&a),
        a.eq_spec(&b) && b.eq_spec(&c) ==> a.eq_spec(&c),
        a.eq_spec(&b) <==> a@ == b@,
{
}

/// The order of client types is total and is the lexicographic order of their
/// texts: any two compare, swapping them reverses the result, they compare
/// equal exactly when they are equal, and `<` and `<=` are transitive.
pub proof fn lemma_cmp_is_total_text_order(a: ClientType, b: ClientType, c: ClientType)
    ensures
        a.partial_cmp_spec(&b) == Some(text_cmp(a@, b@)),
        b.partial_cmp_spec(&a) == Some(reversed(text_cmp(a@, b@))),
        a.partial_cmp_spec(&b) == Some(Ordering::Equal) <==> a.eq_spec(&b),
        a.partial_cmp_spec(&b) == Some(Ordering::Less) && b.partial_cmp_spec(&c) == Some(
            Ordering::Less,
        ) ==> a.partial_cmp_spec(&c) == Some(Ordering::Less),
        a.partial_cmp_spec(&b) != Some(Ordering::Greater) && b.partial_cmp_spec(&c) != Some(
            Ordering::Greater,
        ) ==> a.partial_cmp_spec(&c) != Some(Ordering::Greater),
{
    lemma_lex_cmp_reversed(encode_utf8(a@), encode_utf8(b@));
    lemma_text_cmp_equal(a@, b@);
    lemma_text_cmp_equal(b@, c@);
    lemma_text_cmp_equal(a@, c@);
    lemma_lex_cmp_reversed(encode_utf8(a@), encode_utf8(c@));
    if text_cmp(a@, b@) == Ordering::Less && text_cmp(b@, c@) == Ordering::Less {
        lemma_lex_cmp_transitive(encode_utf8(a@), encode_utf8(b@), encode_utf8(c@));
    }
}

/// Each client type of `s` orders at or before every later one.
pub open spec fn is_sorted(s: Seq<ClientType>) -> bool {
    forall|i: int, j: int|
        0 <= i < j < s.len() ==> #[trigger] s[i].partial_cmp_spec(&s[j]) != Some(
            Ordering::Greater,
        )
}

/// Each text of `t` orders at or before every later one.
pub open spec fn are_texts_sorted(t: Seq<Seq<char>>) -> bool {
    forall|i: int, j: int| 0 <= i < j < t.len() ==> #[trigger] text_cmp(t[i], t[j]) != Ordering::Greater
}

/// A sequence of client types is in order exactly when the sequence of their
/// texts is: sorting the values sorts their texts.
pub proof fn lemma_sorted_exactly_when_texts_sorted(s: Seq<ClientType>)
    ensures
        is_sorted(s) <==> are_texts_sorted(s.map_values(|c: ClientType| c@)),
{
    let t = s.map_values(|c: ClientType| c@);
    if is_sorted(s) {
        assert forall|i: int, j: int| 0 <= i < j < t.len() implies #[trigger] text_cmp(t[i], t[j])
            != Ordering::Greater by {
            assert(s[i].partial_cmp_spec(&s[j]) != Some(Ordering::Greater));
        }
    }
    if are_texts_sorted(t) {
        assert forall|i: int, j: int| 0 <= i < j < s.len() implies #[trigger] s[i].partial_cmp_spec(
            &s[j],
        ) != Some(Ordering::Greater) by {
            assert(text_cmp(t[i], t[j]) != Ordering::Greater);
        }
    }
}

} // verus!
