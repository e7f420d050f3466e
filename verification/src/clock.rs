use vstd::prelude::*;

verus! {

/// Milliseconds since the Unix epoch by the system clock
/// (`SystemTime::now().duration_since(UNIX_EPOCH)`, 0 for a clock set before
/// the epoch). Nothing is promised of the value: it depends on the clock.
#[verifier::external_body]
pub fn get_timestamp_millis() -> u64 {
    match std::time::SystemTime::now().duration_since(std::time::UNIX_EPOCH) {
        Ok(d) => d.as_millis() as u64,
        Err(_) => 0,
    }
}

/// Seconds since the Unix epoch by the system clock (0 for a clock set
/// before the epoch). Nothing is promised of the value.
#[verifier::external_body]
pub fn get_timestamp_secs() -> u64 {
    match std::time::SystemTime::now().duration_since(std::time::UNIX_EPOCH) {
        Ok(d) => d.as_secs(),
        Err(_) => 0,
    }
}

} // verus!
