//! Character classes, and the runs of characters that tokens are made of.

use unicode_xid::UnicodeXID;
use vstd::prelude::*;

verus! {

/// Whether `c` has the Unicode property XID_Start, as the tables of the
/// crate `unicode-xid` have it. The grammar asks this of characters beyond
/// ASCII only.
pub uninterp spec fn xid_start(c: char) -> bool;

/// Whether `c` has the Unicode property XID_Continue, as the tables of the
/// crate `unicode-xid` have it. The grammar asks this of characters beyond
/// ASCII only.
pub uninterp spec fn xid_continue(c: char) -> bool;

pub open spec fn is_ascii_letter(c: char) -> bool {
    ('a' <= c && c <= 'z') || ('A' <= c && c <= 'Z')
}

pub open spec fn is_decimal_digit(c: char) -> bool {
    '0' <= c && c <= '9'
}

pub open spec fn is_hex_digit(c: char) -> bool {
    is_decimal_digit(c) || ('a' <= c && c <= 'f') || ('A' <= c && c <= 'F')
}

pub open spec fn is_whitespace(c: char) -> bool {
    c == ' ' || c == '\t' || c == '\r' || c == '\n'
}

/// The characters that an arithmetic operator is written with.
pub open spec fn is_operator(c: char) -> bool {
    c == '+' || c == '-' || c == '*' || c == '/'
}

/// A character that may begin an identifier: `!`, `_`, or one with the
/// property XID_Start.
pub open spec fn is_identifier_start(c: char) -> bool {
    c == '!' || c == '_' || is_ascii_letter(c) || (c > '\x7f' && xid_start(c))
}

/// A character that may follow the first one of an identifier: `_`, or one
/// with the property XID_Continue.
pub open spec fn is_identifier_continue(c: char) -> bool {
    is_ascii_letter(c) || is_decimal_digit(c) || c == '_' || (c > '\x7f' && xid_continue(c))
}

/// Calls `UnicodeXID::is_xid_start` of the crate `unicode-xid`.
///
/// Trusted: within ASCII the answer is that of the letters `a` to `z` and `A`
/// to `Z`; beyond ASCII it is the crate's table, which `xid_start` names.
#[verifier::external_body]
fn is_xid_start(c: char) -> (r: bool)
    ensures
        r == (is_ascii_letter(c) || (c > '\x7f' && xid_start(c))),
{
    UnicodeXID::is_xid_start(c)
}

/// Calls `UnicodeXID::is_xid_continue` of the crate `unicode-xid`.
///
/// Trusted: within ASCII the answer is that of letters, digits and `_`;
/// beyond ASCII it is the crate's table, which `xid_continue` names.
#[verifier::external_body]
fn is_xid_continue(c: char) -> (r: bool)
    ensures
        r == (is_ascii_letter(c) || is_decimal_digit(c) || c == '_' || (c > '\x7f'
            && xid_continue(c))),
{
    UnicodeXID::is_xid_continue(c)
}

/// Whether `c` may begin an identifier.
pub fn valid_identifier_first_character(c: char) -> (r: bool)
    ensures
        r == is_identifier_start(c),
{
    c == '!' || c == '_' || is_xid_start(c)
}

/// Whether `c` may follow the first character of an identifier.
pub fn valid_later_character(c: char) -> (r: bool)
    ensures
        r == is_identifier_continue(c),
{
    is_xid_continue(c) || c == '_'
}

/// A set of characters that a token is scanned by.
#[derive(Clone, Copy, Debug, PartialEq, Eq)]
pub enum CharClass {
    Whitespace,
    DecimalDigit,
    HexDigit,
    IdentifierContinue,
    /// The one character given.
    Exactly(char),
}

impl CharClass {
    /// Whether `c` belongs to the class.
    pub open spec fn contains(self, c: char) -> bool {
        match self {
            CharClass::Whitespace => is_whitespace(c),
            CharClass::DecimalDigit => is_decimal_digit(c),
            CharClass::HexDigit => is_hex_digit(c),
            CharClass::IdentifierContinue => is_identifier_continue(c),
            CharClass::Exactly(d) => c == d,
        }
    }

    /// Whether `c` belongs to the class, computed.
    pub fn includes(self, c: char) -> (r: bool)
        ensures
            r == self.contains(c),
    {
        match self {
            CharClass::Whitespace => c == ' ' || c == '\t' || c == '\r' || c == '\n',
            CharClass::DecimalDigit => '0' <= c && c <= '9',
            CharClass::HexDigit => ('0' <= c && c <= '9') || ('a' <= c && c <= 'f') || ('A' <= c
                && c <= 'F'),
            CharClass::IdentifierContinue => valid_later_character(c),
            CharClass::Exactly(d) => c == d,
        }
    }
}

/// Where the longest run of characters of `class` that starts at `i` ends.
pub open spec fn run_end(s: Seq<char>, i: int, class: CharClass) -> int
    decreases s.len() - i,
{
    if 0 <= i < s.len() && class.contains(s[i]) {
        run_end(s, i + 1, class)
    } else {
        i
    }
}

/// A run ends at or after its start and inside the text, holds only
/// characters of its class, and is followed by none.
pub proof fn lemma_run_end(s: Seq<char>, i: int, class: CharClass)
    ensures
        i <= run_end(s, i, class),
        i <= s.len() ==> run_end(s, i, class) <= s.len(),
        forall|k: int| i <= k < run_end(s, i, class) ==> class.contains(#[trigger] s[k]),
        0 <= run_end(s, i, class) < s.len() ==> !class.contains(s[run_end(s, i, class)]),
    decreases s.len() - i,
{
    if 0 <= i < s.len() && class.contains(s[i]) {
        lemma_run_end(s, i + 1, class);
    }
}

/// The end of a run is the only place that `lemma_run_end` describes.
pub proof fn lemma_run_end_unique(s: Seq<char>, i: int, class: CharClass, j: int)
    requires
        0 <= i <= j <= s.len(),
        forall|k: int| i <= k < j ==> class.contains(#[trigger] s[k]),
        j < s.len() ==> !class.contains(s[j]),
    ensures
        run_end(s, i, class) == j,
    decreases j - i,
{
    if i < j {
        lemma_run_end_unique(s, i + 1, class, j);
    }
}

} // verus!
