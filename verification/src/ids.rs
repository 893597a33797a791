//! Recognising identifiers that are already UUIDs, so that name lookups can be skipped.

use vstd::prelude::*;
use crate::text::eq_ic;

verus! {

/// A hexadecimal digit in either case.
pub open spec fn is_hex_digit(c: char) -> bool {
    ||| ('0' <= c && c <= '9')
    ||| ('a' <= c && c <= 'f')
    ||| ('A' <= c && c <= 'F')
}

/// Thirty-two hexadecimal digits, no separators.
pub open spec fn simple_uuid_text(s: Seq<char>) -> bool {
    &&& s.len() == 32
    &&& forall|i: int| 0 <= i < 32 ==> #[trigger] is_hex_digit(s[i])
}

/// The positions of the four hyphens in the hyphenated form.
pub open spec fn is_hyphen_position(i: int) -> bool {
    i == 8 || i == 13 || i == 18 || i == 23
}

/// The hyphenated form `xxxxxxxx-xxxx-xxxx-xxxx-xxxxxxxxxxxx`.
pub open spec fn hyphenated_uuid_text(s: Seq<char>) -> bool {
    &&& s.len() == 36
    &&& forall|i: int| 0 <= i < 36 ==> if is_hyphen_position(i) {
        #[trigger] s[i] == '-'
    } else {
        is_hex_digit(s[i])
    }
}

/// The URN prefix, compared without regard to ASCII case.
pub open spec fn urn_prefix() -> Seq<char> {
    seq!['u', 'r', 'n', ':', 'u', 'u', 'i', 'd', ':']
}

/// The texts that `uuid::Uuid::parse_str` accepts: the simple form, the hyphenated
/// form, the hyphenated form in braces, or the hyphenated form behind `urn:uuid:`.
pub open spec fn uuid_text(s: Seq<char>) -> bool {
    ||| simple_uuid_text(s)
    ||| hyphenated_uuid_text(s)
    ||| (s.len() == 38 && s[0] == '{' && s[37] == '}' && hyphenated_uuid_text(s.subrange(1, 37)))
    ||| (s.len() == 45 && eq_ic(s.subrange(0, 9), urn_prefix()) && hyphenated_uuid_text(
        s.subrange(9, 45),
    ))
}

/// Calls `uuid::Uuid::parse_str` and reports whether it succeeded. Its source
/// accepts exactly the four layouts of `uuid_text` (it works on bytes, and every
/// accepted byte is ASCII, so the layouts read the same on characters).
#[verifier::external_body]
fn uuid_parses(s: &str) -> (r: bool)
    ensures
        r == uuid_text(s@),
{
    uuid::Uuid::parse_str(s).is_ok()
}

/// Whether `s` already is a UUID (in any layout the uuid crate parses).
pub fn is_uuid(s: &str) -> (r: bool)
    ensures
        r == uuid_text(s@),
{
    uuid_parses(s)
}

/// Whether every item is already a UUID.
pub fn all_uuids(items: &Vec<String>) -> (r: bool)
    ensures
        r == forall|i: int| 0 <= i < items@.len() ==> uuid_text(#[trigger] items@[i]@),
{
    let n = items.len();
    let mut i: usize = 0;
    while i < n
        invariant
            n == items@.len(),
            i <= n,
            forall|j: int| 0 <= j < i ==> uuid_text(#[trigger] items@[j]@),
        decreases n - i,
    {
        if !is_uuid(items[i].as_str()) {
            return false;
        }
        i = i + 1;
    }
    true
}

} // verus!
