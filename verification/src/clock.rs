use vstd::prelude::*;
use crate::span::{Span, NANOS_PER_SEC};

verus! {

#[verifier::external_type_specification]
#[verifier::external_body]
pub struct ExInstant(std::time::Instant);

/// Calls `std::time::Instant::now`; nothing is claimed of the instant returned.
#[verifier::external_body]
pub(crate) fn instant_now() -> (r: std::time::Instant) {
    std::time::Instant::now()
}

/// Calls `std::time::Instant::elapsed` and hands back its seconds and fractional nanoseconds.
/// The one claim is std's documented one: the fraction is below one second. How long it is depends on
/// the clock, and nothing more is claimed.
#[verifier::external_body]
pub(crate) fn instant_elapsed(instant: &std::time::Instant) -> (r: (u64, u32))
    ensures
        r.1 < NANOS_PER_SEC,
{
    let d = instant.elapsed();
    (d.as_secs(), d.subsec_nanos())
}

#[verifier::external_type_specification]
#[verifier::external_body]
pub struct ExSystemTime(std::time::SystemTime);

/// Calls `std::time::SystemTime::now`; nothing is claimed of the time returned.
#[verifier::external_body]
fn system_time_now() -> (r: std::time::SystemTime) {
    std::time::SystemTime::now()
}

/// Calls `std::time::SystemTime::duration_since(UNIX_EPOCH)` on `time` and hands back the seconds and
/// fractional nanoseconds, or `None` when `time` is before the epoch. Only std's documented bound on the
/// fraction is claimed.
#[verifier::external_body]
fn since_unix_epoch(time: std::time::SystemTime) -> (r: Option<(u64, u32)>)
    ensures
        r matches Some(t) ==> t.1 < NANOS_PER_SEC,
{
    match time.duration_since(std::time::UNIX_EPOCH) {
        Ok(d) => Some((d.as_secs(), d.subsec_nanos())),
        Err(_) => None,
    }
}

/// Time elapsed since `instant`.
pub fn elapsed_since(instant: &std::time::Instant) -> (r: Span) {
    let (secs, nanos) = instant_elapsed(instant);
    Span::new(secs, nanos)
}

/// Current time since the UNIX epoch, or `None` when the clock reads a time before the epoch.
pub fn time_since_epoch() -> (r: Option<Span>) {
    match since_unix_epoch(system_time_now()) {
        Some((secs, nanos)) => Some(Span::new(secs, nanos)),
        None => None,
    }
}

} // verus!
