//! What the library takes from outside crates: fresh identifiers from `uuid`
//! and the current time from `chrono`.

use chrono::NaiveDateTime;
use vstd::prelude::*;

verus! {

/// A date and time without a time zone, as `chrono` gives it. The library
/// never looks inside one: it only stores it and hands it back.
#[verifier::external_type_specification]
#[verifier::external_body]
pub struct ExNaiveDateTime(NaiveDateTime);

/// The 128-bit value of a version-4 (random) UUID: the version field holds
/// 4 and the variant field holds the RFC 4122 bits `10`.
pub open spec fn is_uuid_v4(id: u128) -> bool {
    &&& (id >> 76u128) & 0xfu128 == 4u128
    &&& (id >> 62u128) & 0x3u128 == 2u128
}

/// A fresh random identifier: `uuid::Uuid::new_v4`, read as its 128-bit
/// big-endian value with `Uuid::as_u128`. `new_v4` masks random bits into
/// the version and variant fields, so the contract claims those fields;
/// the other bits come from a random number generator and nothing is
/// promised of them, not even that the value differs from every identifier
/// already in use.
#[verifier::external_body]
pub(crate) fn new_id() -> (id: u128)
    ensures
        is_uuid_v4(id),
{
    uuid::Uuid::new_v4().as_u128()
}

/// The current time in UTC: `chrono::Utc::now`, with its time zone dropped by
/// `DateTime::naive_utc`. It depends on the machine's clock, so nothing is
/// promised of it.
#[verifier::external_body]
pub(crate) fn current_time() -> (now: NaiveDateTime) {
    chrono::Utc::now().naive_utc()
}

} // verus!
