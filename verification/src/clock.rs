//! The clock and the calendar. Nothing here is proved: each item states
//! what this crate takes `std::time` and the `chrono` crate to do.

use chrono::DateTime;
use std::time::{Duration, SystemTime, UNIX_EPOCH};
use vstd::prelude::*;

verus! {

/// The nanoseconds that make a second.
pub const NANOS_PER_SECOND: u32 = 1_000_000_000;

/// A reading of the system clock, opaque to proofs.
#[verifier::external_type_specification]
#[verifier::external_body]
pub struct ExSystemTime(std::time::SystemTime);

/// The date and time, in UTC and as RFC 3339 writes it, of the instant that
/// lies the given seconds and nanoseconds after the start of 1970: nothing
/// where the calendar of `chrono` does not reach that instant.
pub uninterp spec fn rfc3339_text(secs: i64, nanos: u32) -> Option<Seq<char>>;

/// `SystemTime::now`. The reading depends on the moment of the call, so
/// nothing is stated of it.
#[verifier::external_body]
pub(crate) fn system_now() -> SystemTime {
    SystemTime::now()
}

/// `SystemTime::duration_since` the start of 1970: nothing for a reading
/// that lies before it.
#[verifier::external_body]
pub(crate) fn since_epoch(t: &SystemTime) -> Option<Duration> {
    t.duration_since(UNIX_EPOCH).ok()
}

/// `Duration::as_secs`: the whole seconds of a duration.
#[verifier::external_body]
pub(crate) fn whole_seconds(d: &Duration) -> u64 {
    d.as_secs()
}

/// `Duration::subsec_nanos`: what a duration holds beyond its whole
/// seconds, in nanoseconds. That is a part of a second, so it is less than
/// one billion.
#[verifier::external_body]
pub(crate) fn subsec_nanos(d: &Duration) -> (nanos: u32)
    ensures
        nanos < NANOS_PER_SECOND,
{
    d.subsec_nanos()
}

/// `DateTime::from_timestamp`, then `DateTime::to_rfc3339`. The contract
/// names the result.
#[verifier::external_body]
pub(crate) fn rfc3339(secs: i64, nanos: u32) -> (out: Option<String>)
    ensures
        crate::dns_structs::opt_text(out) == rfc3339_text(secs, nanos),
{
    DateTime::from_timestamp(secs, nanos).map(|d| d.to_rfc3339())
}

} // verus!
