//! The wall clock, read from the system. Nothing is promised of what it
//! returns: everything the engine decides from a time takes the instant as
//! an argument.

use vstd::prelude::*;

verus! {

/// Relies on std::time::SystemTime::now and duration_since: the seconds of
/// Unix time at the call; a clock before the epoch reads as zero.
#[verifier::external_body]
pub fn now_secs() -> u64 {
    match std::time::SystemTime::now().duration_since(std::time::UNIX_EPOCH) {
        Ok(elapsed) => elapsed.as_secs(),
        Err(_) => 0,
    }
}

/// Relies on std::time::SystemTime::now and duration_since: the milliseconds
/// of Unix time at the call, saturated; a clock before the epoch reads as
/// zero.
#[verifier::external_body]
pub fn now_millis() -> u64 {
    match std::time::SystemTime::now().duration_since(std::time::UNIX_EPOCH) {
        Ok(elapsed) => u64::try_from(elapsed.as_millis()).unwrap_or(u64::MAX),
        Err(_) => 0,
    }
}

} // verus!
