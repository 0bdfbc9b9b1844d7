//! Identifiers of requests and of connections.
//!
//! An identifier is a random (version 4) UUID, held as the 128-bit integer whose big-endian
//! bytes are the UUID's bytes.

use vstd::prelude::*;

verus! {

/// The version nibble of a 128-bit UUID (bits 76 to 79).
pub open spec fn uuid_version(id: u128) -> u128 {
    (id >> 76u128) & 0xfu128
}

/// The two variant bits of a 128-bit UUID (bits 62 and 63).
pub open spec fn uuid_variant(id: u128) -> u128 {
    (id >> 62u128) & 0x3u128
}

/// An identifier as `Uuid::new_v4` makes it: version 4, RFC 4122 variant (`0b10`).
pub open spec fn is_random_id(id: u128) -> bool {
    uuid_version(id) == 4 && uuid_variant(id) == 2
}

/// Draws a fresh identifier with `uuid::Uuid::new_v4` and returns it as `Uuid::as_u128` gives it.
///
/// Trusted: the uuid source masks a random 128-bit number so that the version nibble is 4 and
/// the variant bits are `0b10`; that is all this contract claims. The other 122 bits are random,
/// so nothing is said of them, nor that two calls differ. The call panics if the operating
/// system's random source fails.
#[verifier::external_body]
pub(crate) fn new_id() -> (id: u128)
    ensures
        is_random_id(id),
{
    uuid::Uuid::new_v4().as_u128()
}

} // verus!
