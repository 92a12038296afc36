//! Access to the system clock.
//!
//! Every operation of the engines takes the current instant as an explicit
//! argument; the clock is read only by the constructors that stamp a fresh
//! record with its creation time.

use vstd::prelude::*;

verus! {

/// Relies on chrono::Utc::now and chrono::DateTime::timestamp: the current
/// UTC time as whole seconds since the Unix epoch. The result depends on the
/// system clock, so nothing is promised of it.
#[verifier::external_body]
fn utc_now_unix() -> (t: i64) {
    chrono::Utc::now().timestamp()
}

/// The current UTC time in whole seconds since the Unix epoch, clamped to
/// zero for clocks set before 1970.
pub fn now_seconds() -> (t: u64) {
    let raw: i64 = utc_now_unix();
    if raw < 0 {
        0
    } else {
        raw as u64
    }
}

} // verus!
