//! Calls that depend on the machine: the clock and fresh identifiers.
use vstd::prelude::*;

verus! {

/// Seconds since the Unix epoch, read from `std::time::SystemTime::now`
/// (0 if the clock reads before the epoch). Nothing is claimed about the
/// value: it depends on the clock.
#[verifier::external_body]
pub(crate) fn unix_now_secs() -> u64 {
    std::time::SystemTime::now().duration_since(std::time::UNIX_EPOCH).map(|d| d.as_secs()).unwrap_or(0)
}

/// A fresh random identifier: `uuid::Uuid::new_v4()` rendered as text.
/// Nothing is claimed about the value: it is random.
#[verifier::external_body]
pub(crate) fn new_uuid_string() -> String {
    uuid::Uuid::new_v4().to_string()
}

/// Milliseconds since the Unix epoch, read from `std::time::SystemTime::now`
/// (0 if the clock reads before the epoch). Nothing is claimed about the
/// value: it depends on the clock.
#[verifier::external_body]
pub(crate) fn unix_now_millis() -> u64 {
    std::time::SystemTime::now().duration_since(std::time::UNIX_EPOCH).map(|d| d.as_millis() as u64).unwrap_or(0)
}

/// Nanoseconds since the Unix epoch, read from `std::time::SystemTime::now`
/// (0 if the clock reads before the epoch or past what 64 bits hold).
/// Nothing is claimed about the value: it depends on the clock.
#[verifier::external_body]
pub(crate) fn unix_now_nanos() -> u64 {
    std::time::SystemTime::now().duration_since(std::time::UNIX_EPOCH).map(|d| d.as_nanos()).unwrap_or(0).try_into().unwrap_or(0)
}

/// The current local time as `chrono::Local::now().format("%Y-%m-%d %H:%M:%S%.3f")`
/// renders it. Nothing is claimed about the text: it depends on the clock
/// and on the machine's time zone.
#[verifier::external_body]
pub(crate) fn local_now_text() -> String {
    chrono::Local::now().format("%Y-%m-%d %H:%M:%S%.3f").to_string()
}

/// The local time of the instant `nanos` nanoseconds after the Unix epoch,
/// rendered by `chrono` as "%Y-%m-%d %H:%M:%S%.3f". Nothing is claimed about
/// the text: it depends on the machine's time zone.
#[verifier::external_body]
pub(crate) fn local_time_text(nanos: u64) -> String {
    let t = std::time::UNIX_EPOCH + std::time::Duration::from_nanos(nanos);
    chrono::DateTime::<chrono::Local>::from(t).format("%Y-%m-%d %H:%M:%S%.3f").to_string()
}

} // verus!
