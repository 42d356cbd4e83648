//! Random identifiers: the 128 bits of a random UUID, which name the clients
//! and serve as authorization tokens.

use vstd::prelude::*;

verus! {

/// Whether `uuid` has the fixed bits of a random UUID: version 4 in the high
/// half of its seventh byte, and the variant `10` on top of its ninth.
pub open spec fn es_uuid_v4(uuid: u128) -> bool {
    (uuid / 0x1000_0000_0000_0000_0000) % 16 == 4 && (uuid / 0x4000_0000_0000_0000) % 4 == 2
}

/// Draws a random UUID with `uuid::Uuid::new_v4` and returns its 128 bits as
/// `Uuid::as_u128` packs them, first byte on top. Nothing is claimed of the
/// random bits; the version and the variant are those that `new_v4` sets on
/// every UUID it makes. `new_v4` panics if the operating system gives no
/// random bytes.
#[verifier::external_body]
pub(crate) fn nuevo_uuid() -> (uuid: u128)
    ensures
        es_uuid_v4(uuid),
{
    uuid::Uuid::new_v4().as_u128()
}

} // verus!
