//! Random identifiers for sessions and for the files that a run creates.

use vstd::prelude::*;

verus! {

/// Whether `c` is a lower-case hexadecimal digit.
pub open spec fn is_hex_lower(c: char) -> bool {
    '0' <= c <= '9' || 'a' <= c <= 'f'
}

/// The shape of an identifier: 36 characters, of which those at positions 8,
/// 13, 18 and 23 are hyphens and the others lower-case hexadecimal digits.
pub open spec fn is_token(s: Seq<char>) -> bool {
    &&& s.len() == 36
    &&& forall|i: int|
        0 <= i < 36 ==> if i == 8 || i == 13 || i == 18 || i == 23 {
            #[trigger] s[i] == '-'
        } else {
            is_hex_lower(s[i])
        }
}

/// `Uuid::new_v4` of the `uuid` crate, written out by the crate's `Display`
/// impl. Trusted: that impl prints the hyphenated lower-case form, which is
/// all that is claimed here; which identifier comes back is left open. The
/// call panics if the system's source of random bytes fails.
#[verifier::external_body]
pub(crate) fn random_token() -> (token: String)
    ensures
        is_token(token@),
{
    uuid::Uuid::new_v4().to_string()
}

} // verus!
