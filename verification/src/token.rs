//! Generation of per-slot bearer secrets.

use vstd::prelude::*;

verus! {

/// Relies on `uuid::Uuid::new_v4` and the `Display` rendering of `Uuid`: a
/// fresh random version-4 UUID in its hyphenated form, which is exactly 36
/// characters long. The value itself is random, so nothing beyond its
/// length is assumed.
#[verifier::external_body]
pub(crate) fn fresh_secret() -> (r: String)
    ensures
        r@.len() == 36,
{
    uuid::Uuid::new_v4().to_string()
}

} // verus!
