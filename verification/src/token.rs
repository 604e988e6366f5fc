//! Token generation for the device registry. The token itself comes from a
//! random generator outside this crate, so nothing may be assumed about its
//! value beyond its shape; everything that depends on the value is verified
//! downstream for every possible token.

use vstd::prelude::*;

verus! {

/// Relies on uuid::Uuid::new_v4 and its Display form: a fresh random
/// version-4 identifier rendered hyphenated, which is always 36 characters.
#[verifier::external_body]
pub fn fresh_token() -> (r: String)
    ensures
        r@.len() == 36,
{
    uuid::Uuid::new_v4().to_string()
}

} // verus!
