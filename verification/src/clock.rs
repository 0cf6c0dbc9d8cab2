//! Wall-clock readings and RFC 3339 rendering, through the `time` crate.

use vstd::prelude::*;

verus! {

/// The RFC 3339 rendering of a UTC instant given as nanoseconds since the
/// Unix epoch.  The rendering depends on the nanosecond count alone.
pub uninterp spec fn rfc3339_of(nanos: int) -> Seq<char>;

/// Relies on time's OffsetDateTime::format with the well-known Rfc3339
/// description: the rendering is a pure function of the instant.  Any
/// 64-bit nanosecond count lies inside the years the format accepts, so
/// neither conversion nor formatting can fail.
#[verifier::external_body]
pub fn format_rfc3339(nanos: u64) -> (r: String)
    ensures
        r@ == rfc3339_of(nanos as int),
{
    match time::OffsetDateTime::from_unix_timestamp_nanos(nanos as i128) {
        Ok(dt) => match dt.format(&time::format_description::well_known::Rfc3339) {
            Ok(s) => s,
            Err(_) => String::new(),
        },
        Err(_) => String::new(),
    }
}

/// Relies on time's OffsetDateTime::now_utc: a reading of the wall clock,
/// as nanoseconds since the Unix epoch.  Nothing is promised of the
/// value; readings before the epoch or beyond the 64-bit range are
/// clamped by the caller.
#[verifier::external_body]
pub fn now_unix_nanos() -> i128 {
    time::OffsetDateTime::now_utc().unix_timestamp_nanos()
}

} // verus!
