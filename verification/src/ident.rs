//! Task identifiers.

use vstd::prelude::*;

verus! {

/// The bits of a UUID that hold its version and its variant.
pub const KIND_BITS: u128 = 0x0000_0000_0000_F000_C000_0000_0000_0000;

/// The value of those bits in a random (version 4) UUID of the RFC variant.
pub const RANDOM_KIND: u128 = 0x0000_0000_0000_4000_8000_0000_0000_0000;

/// Whether `id` is the value of a random (version 4) UUID.
pub open spec fn is_random_id(id: u128) -> bool {
    id & KIND_BITS == RANDOM_KIND
}

/// Draws a random task id.
///
/// Trusted: the body calls `uuid::Uuid::new_v4` and takes the 128-bit value
/// with `Uuid::as_u128`. Nothing is proved of it. The contract claims what
/// holds of every draw: the version bits say 4 and the variant bits say RFC,
/// as `new_v4` sets them; the other 122 bits are random and nothing is said
/// of them.
#[verifier::external_body]
pub(crate) fn random_id() -> (r: u128)
    ensures
        is_random_id(r),
{
    uuid::Uuid::new_v4().as_u128()
}

} // verus!
