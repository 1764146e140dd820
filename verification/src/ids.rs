//! Identifiers carried by instructions and messages.

use vstd::prelude::*;

verus! {

/// Whether `c` is a lower-case hexadecimal digit.
pub open spec fn is_lower_hex(c: char) -> bool {
    ('0' <= c && c <= '9') || ('a' <= c && c <= 'f')
}

/// The shape of every identifier that this runtime generates: thirty-two
/// lower-case hexadecimal digits and no dashes.
pub open spec fn is_identifier(s: Seq<char>) -> bool {
    s.len() == 32 && forall|i: int| 0 <= i < 32 ==> is_lower_hex(#[trigger] s[i])
}

/// Draws a fresh identifier.
///
/// Trusted: the body calls `uuid::Uuid::new_v4` and renders the result with
/// `Uuid::simple`, whose `Display` writes the sixteen bytes as thirty-two
/// lower-case hexadecimal digits. The value is random, so the contract states
/// only the shape that every outcome has.
#[verifier::external_body]
pub(crate) fn fresh_identifier() -> (id: String)
    ensures
        is_identifier(id@),
{
    uuid::Uuid::new_v4().simple().to_string()
}

/// Tells whether `s` has the shape of a generated identifier.
pub fn has_identifier_shape(s: &str) -> (ok: bool)
    ensures
        ok == is_identifier(s@),
{
    if s.unicode_len() != 32 {
        return false;
    }
    let mut i: usize = 0;
    while i < 32
        invariant
            i <= 32,
            s@.len() == 32,
            forall|j: int| 0 <= j < i ==> is_lower_hex(#[trigger] s@[j]),
        decreases 32 - i,
    {
        let c = s.get_char(i);
        if !(('0' <= c && c <= '9') || ('a' <= c && c <= 'f')) {
            return false;
        }
        i += 1;
    }
    true
}

} // verus!
