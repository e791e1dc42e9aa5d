//! Ride identifiers: random UUIDs in their canonical text form.
use vstd::prelude::*;

verus! {

/// A lowercase hexadecimal digit.
pub open spec fn is_lower_hex(c: char) -> bool {
    ('0' <= c && c <= '9') || ('a' <= c && c <= 'f')
}

/// The hyphenated text of a UUID: 36 characters, `-` at 8, 13, 18 and 23,
/// lowercase hexadecimal digits elsewhere.
pub open spec fn is_hyphenated_uuid(s: Seq<char>) -> bool {
    &&& s.len() == 36
    &&& forall|i: int|
        0 <= i < 36 ==> if i == 8 || i == 13 || i == 18 || i == 23 {
            s[i] == '-'
        } else {
            is_lower_hex(#[trigger] s[i])
        }
}

/// The hyphenated text of a random (version 4, RFC 4122 variant) UUID: the
/// version digit `4` at 14, and a variant digit of `8`, `9`, `a` or `b` at 19.
pub open spec fn is_v4_uuid_text(s: Seq<char>) -> bool {
    &&& is_hyphenated_uuid(s)
    &&& s[14] == '4'
    &&& (s[19] == '8' || s[19] == '9' || s[19] == 'a' || s[19] == 'b')
}

/// Relies on uuid's `Uuid::new_v4` for a random version-4 UUID, and on its
/// `Hyphenated` adapter (`to_hyphenated`, `Display`), which writes the
/// lowercase hyphenated form; `new_v4` sets the version nibble of byte 6 to
/// 4 and the top bits of byte 8 to `10`, which that form writes at 14 and 19.
/// `new_v4` panics only if the operating system
/// gives no random bytes.
#[verifier::external_body]
pub(crate) fn new_ride_id() -> (r: String)
    ensures
        is_v4_uuid_text(r@),
{
    uuid::Uuid::new_v4().to_hyphenated().to_string()
}

} // verus!
