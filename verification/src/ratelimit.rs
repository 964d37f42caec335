//! Request rates: 50 requests a second without a login, 200 with one.

use vstd::prelude::*;

verus! {

/// The recommended request rate.
pub open spec fn rps(logged_in: bool) -> u32 {
    if logged_in {
        200
    } else {
        50
    }
}

/// The recommended requests per second: 200 logged in, 50 otherwise.
pub fn recommended_rps(logged_in: bool) -> (r: u32)
    ensures
        r == rps(logged_in),
{
    if logged_in {
        200
    } else {
        50
    }
}

/// The `Duration` of a number of milliseconds.
pub uninterp spec fn millis_duration(ms: u64) -> std::time::Duration;

/// `Duration::from_millis`.
#[verifier::external_body]
fn duration_from_millis(ms: u64) -> (d: std::time::Duration)
    ensures
        d == millis_duration(ms),
{
    std::time::Duration::from_millis(ms)
}

/// The least time between two requests: `1000 / rps` milliseconds (5 ms
/// logged in, 20 ms otherwise).
pub fn min_interval(logged_in: bool) -> (d: std::time::Duration)
    ensures
        d == millis_duration((1000u32 / rps(logged_in)) as u64),
{
    let r = recommended_rps(logged_in);
    duration_from_millis(1000 / (r as u64))
}

} // verus!
