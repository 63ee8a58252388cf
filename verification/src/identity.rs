//! Fresh identifiers for rooms and peers.

use vstd::prelude::*;

verus! {

/// The bits of a UUID that hold its version (bits 76..80) and its variant
/// (bits 62..64), read as a big-endian 128-bit value.
pub open spec fn version_variant_bits(id: u128) -> u128 {
    id & 0xF000_C000_0000_0000_0000u128
}

/// A random (version 4) identifier, drawn by `uuid::Uuid::new_v4` and read
/// through `Uuid::as_u128`. Its value is left open; the uuid source masks the
/// random bits so that the version nibble reads 4 and the variant bits read
/// `10`. `new_v4` panics only when the operating system yields no random
/// bytes, which this contract does not cover.
#[verifier::external_body]
pub(crate) fn fresh_id() -> (id: u128)
    ensures
        version_variant_bits(id) == 0x4000_8000_0000_0000_0000u128,
{
    uuid::Uuid::new_v4().as_u128()
}

} // verus!
