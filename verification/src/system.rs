//! What the library takes from the machine: fresh identifiers and the time.

use vstd::prelude::*;

verus! {

/// The bits of an identifier that hold its version and variant.
pub const VERSION_AND_VARIANT: u128 = 0x0000_0000_0000_f000_c000_0000_0000_0000;

/// Those bits in a random (version 4) identifier of the RFC's variant.
pub const RANDOM_IDENTIFIER: u128 = 0x0000_0000_0000_4000_8000_0000_0000_0000;

/// `id` is marked as a random identifier.
pub open spec fn is_random_identifier(id: u128) -> bool {
    id & VERSION_AND_VARIANT == RANDOM_IDENTIFIER
}

/// `Uuid::new_v4` of uuid, as its 128-bit number: random bits, but for the
/// version and the variant, which are set to those of a random identifier.
#[verifier::external_body]
pub(crate) fn fresh_id() -> (id: u128)
    ensures
        is_random_identifier(id),
{
    uuid::Uuid::new_v4().as_u128()
}

/// `Utc::now` of chrono, in microseconds since the Unix epoch. The clock is
/// read as a duration since the epoch, so the number is not negative.
#[verifier::external_body]
pub(crate) fn now_micros() -> (now: i64)
    ensures
        now >= 0,
{
    chrono::Utc::now().timestamp_micros()
}

} // verus!
