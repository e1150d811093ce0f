//! The wall clock, in whole seconds since the Unix epoch.
use vstd::prelude::*;

verus! {

/// Relies on `time::OffsetDateTime::now_utc` read as a Unix timestamp. The value depends on
/// the machine's clock, so nothing is stated of it.
#[verifier::external_body]
fn utc_timestamp() -> (r: i64) {
    time::OffsetDateTime::now_utc().unix_timestamp()
}

/// The current time in whole seconds since the Unix epoch; a clock set before 1970 reads as 0.
pub fn now_unix_seconds() -> (r: u64)
    ensures
        r <= i64::MAX,
{
    let t = utc_timestamp();
    if t < 0 {
        0
    } else {
        t as u64
    }
}

} // verus!
