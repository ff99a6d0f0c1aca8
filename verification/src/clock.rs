//! The system clock.
use vstd::prelude::*;

verus! {

/// Calls `SystemTime::now().duration_since(UNIX_EPOCH)` and gives the whole
/// seconds of the duration, or none when the clock reads a time before the
/// epoch. Nothing is stated of the value: it is the time.
#[verifier::external_body]
pub(crate) fn unix_time_now() -> (r: Option<u64>) {
    match std::time::SystemTime::now().duration_since(std::time::UNIX_EPOCH) {
        Ok(d) => Some(d.as_secs()),
        Err(_) => None,
    }
}

} // verus!
