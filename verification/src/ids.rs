//! Fresh identifiers for messages and tasks.

use vstd::prelude::*;

verus! {

/// Calls `uuid::Uuid::new_v4` and gives the UUID as a 128-bit number
/// (`Uuid::as_u128`, most significant byte first). The UUID is random; of
/// every outcome the contract states only what the source guarantees: the
/// version field (bits 76 to 79) is 4 and the variant field (bits 62 and 63)
/// is the RFC 4122 one.
#[verifier::external_body]
pub(crate) fn random_uuid() -> (r: u128)
    ensures
        (r >> 76u128) & 0xfu128 == 4u128,
        (r >> 62u128) & 3u128 == 2u128,
{
    uuid::Uuid::new_v4().as_u128()
}

} // verus!
