use vstd::prelude::*;

verus! {

/// Wall-clock instants are carried through the library without being inspected.
#[verifier::external_type_specification]
#[verifier::external_body]
pub struct ExSystemTime(std::time::SystemTime);

/// Trusted: `std::time::SystemTime::now` reads the system clock.  Nothing is
/// claimed of the instant it returns, since it depends on the machine's clock.
#[verifier::external_body]
pub(crate) fn system_time_now() -> std::time::SystemTime {
    std::time::SystemTime::now()
}

/// Trusted: `std::time::UNIX_EPOCH`, the instant of 1970-01-01 00:00:00 UTC.
/// Nothing is claimed of it, since instants are opaque here.
#[verifier::external_body]
fn unix_epoch() -> std::time::SystemTime {
    std::time::UNIX_EPOCH
}

/// Trusted: `std::time::SystemTime::duration_since`, the time from
/// `earlier` to `later`, or `None` (its error) when `earlier` is after
/// `later`. Nothing more is claimed, since instants are opaque here.
#[verifier::external_body]
fn duration_since(later: std::time::SystemTime, earlier: std::time::SystemTime) -> Option<std::time::Duration> {
    later.duration_since(earlier).ok()
}

/// Trusted: `std::time::Duration::as_secs`, the whole seconds of `d`.
/// Nothing is claimed of them, since durations are opaque here.
#[verifier::external_body]
fn whole_secs(d: std::time::Duration) -> u64 {
    d.as_secs()
}

/// The whole seconds from the Unix epoch to `t`; an instant before the epoch
/// gives 0.
pub(crate) fn secs_since_epoch(t: std::time::SystemTime) -> u64 {
    match duration_since(t, unix_epoch()) {
        Some(d) => whole_secs(d),
        None => 0,
    }
}

/// The whole seconds from `earlier` to `later`; `None` when `earlier` is
/// after `later`.
pub(crate) fn secs_between(earlier: std::time::SystemTime, later: std::time::SystemTime) -> Option<u64> {
    match duration_since(later, earlier) {
        Some(d) => Some(whole_secs(d)),
        None => None,
    }
}

} // verus!
