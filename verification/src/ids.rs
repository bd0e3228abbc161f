//! Record identifiers: random (version 4) UUIDs in their hyphenated text form.
use vstd::prelude::*;

verus! {

/// A lowercase hexadecimal digit.
pub open spec fn is_lower_hex(c: char) -> bool {
    ('0' <= c && c <= '9') || ('a' <= c && c <= 'f')
}

/// The hyphenated text form of a version-4 UUID: 36 characters, `-` at
/// positions 8, 13, 18 and 23, lowercase hexadecimal digits elsewhere, and
/// the version digit `4` at position 14 and the variant digit (`8`, `9`,
/// `a` or `b`) at position 19.
pub open spec fn is_uuid_v4_text(s: Seq<char>) -> bool {
    &&& s.len() == 36
    &&& forall|i: int|
        0 <= i < 36 ==> (if i == 8 || i == 13 || i == 18 || i == 23 {
            s[i] == '-'
        } else {
            is_lower_hex(s[i])
        })
    &&& s[14] == '4'
    &&& (s[19] == '8' || s[19] == '9' || s[19] == 'a' || s[19] == 'b')
}

/// A fresh identifier, from `uuid::Uuid::new_v4().to_string()`.
///
/// The value is random; the contract states only its shape, which the
/// `Display` impl of `Uuid` (lowercase, hyphenated) and `new_v4` (version 4,
/// variant bits `10`) fix. That two calls differ is not stated.
#[verifier::external_body]
pub(crate) fn new_id() -> (id: String)
    ensures
        is_uuid_v4_text(id@),
{
    uuid::Uuid::new_v4().to_string()
}

} // verus!
