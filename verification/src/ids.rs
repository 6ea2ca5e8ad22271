use vstd::prelude::*;

verus! {

/// A lower-case hexadecimal digit.
pub open spec fn is_lower_hex(c: char) -> bool {
    ('0' <= c && c <= '9') || ('a' <= c && c <= 'f')
}

/// The lower-case hyphenated text of a random (version 4, RFC 4122 variant)
/// UUID: groups of 8, 4, 4, 4 and 12 hexadecimal digits joined by hyphens,
/// the first digit of the third group `4`, the first digit of the fourth
/// group one of `8`, `9`, `a`, `b`.
pub open spec fn is_hyphenated_v4(s: Seq<char>) -> bool {
    &&& s.len() == 36
    &&& forall|i: int|
        0 <= i < 36 ==> if i == 8 || i == 13 || i == 18 || i == 23 {
            #[trigger] s[i] == '-'
        } else {
            is_lower_hex(s[i])
        }
    &&& s[14] == '4'
    &&& (s[19] == '8' || s[19] == '9' || s[19] == 'a' || s[19] == 'b')
}

/// A fresh random tab identifier: `uuid::Uuid::new_v4()` rendered through
/// uuid's `From<Uuid> for String`.
///
/// The claim: the text is in the hyphenated version-4 form. uuid's `new_v4`
/// masks the version nibble to 4 and the variant bits to `10`, and its
/// `Display` (which `From<Uuid> for String` uses) writes the hyphenated form
/// with lower-case digits. Which identifier comes back is chance; that two
/// calls differ is not stated.
#[verifier::external_body]
pub(crate) fn new_tab_id() -> (id: String)
    ensures
        is_hyphenated_v4(id@),
{
    String::from(uuid::Uuid::new_v4())
}

} // verus!
