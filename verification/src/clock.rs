//! The wall clock.

use vstd::prelude::*;

verus! {

/// `SystemTime::now`, as milliseconds since the Unix epoch; zero for a clock that is set
/// before it. Nothing is promised of the time it returns.
#[verifier::external_body]
fn system_now_ms() -> u64 {
    let since_epoch = std::time::SystemTime::now().duration_since(std::time::UNIX_EPOCH);
    since_epoch.unwrap_or_default().as_millis() as u64
}

/// The time in seconds since the Unix epoch.
pub fn now_unix_secs() -> u64 {
    system_now_ms() / 1000
}

/// The time in milliseconds since the Unix epoch.
pub fn now_unix_ms() -> u64 {
    system_now_ms()
}

} // verus!
