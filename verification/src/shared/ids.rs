//! Random identifiers: record ids and invitation codes.
use vstd::prelude::*;

verus! {

/// A lowercase hexadecimal digit.
pub open spec fn is_lower_hex(c: char) -> bool {
    ('0' <= c && c <= '9') || ('a' <= c && c <= 'f')
}

/// The positions of the hyphens in a hyphenated UUID.
pub open spec fn is_uuid_hyphen_position(i: int) -> bool {
    i == 8 || i == 13 || i == 18 || i == 23
}

/// The text of a random (version 4) UUID: 36 characters, lowercase hex
/// digits in groups of 8, 4, 4, 4 and 12 separated by hyphens, the version
/// digit 4 and the variant digit one of 8, 9, a and b.
pub open spec fn is_v4_uuid_text(s: Seq<char>) -> bool {
    &&& s.len() == 36
    &&& forall|i: int|
        0 <= i < 36 ==> if is_uuid_hyphen_position(i) {
            #[trigger] s[i] == '-'
        } else {
            is_lower_hex(s[i])
        }
    &&& s[14] == '4'
    &&& (s[19] == '8' || s[19] == '9' || s[19] == 'a' || s[19] == 'b')
}

/// A fresh random record id (`uuid::Uuid::new_v4`, written by its
/// `Display`, which is the lowercase hyphenated form). Of every outcome it
/// holds that it is the text of a version 4 UUID of the RFC 4122 variant.
#[verifier::external_body]
pub fn new_uuid() -> (r: String)
    ensures
        is_v4_uuid_text(r@),
{
    uuid::Uuid::new_v4().to_string()
}

/// A fresh random identifier of `size` characters drawn from `alphabet`
/// (`nanoid::format` with the default random source). The alphabet must be
/// non-empty, ASCII, and at most 255 long, and the size positive, or the
/// call never returns or panics.
#[verifier::external_body]
pub fn random_id(alphabet: &[char], size: usize) -> (r: String)
    requires
        0 < alphabet@.len() <= 255,
        forall|i: int| 0 <= i < alphabet@.len() ==> (#[trigger] alphabet@[i] as u32) < 128,
        size > 0,
    ensures
        r@.len() == size,
        forall|i: int| 0 <= i < r@.len() ==> alphabet@.contains(#[trigger] r@[i]),
{
    nanoid::format(nanoid::rngs::default, alphabet, size)
}

} // verus!
