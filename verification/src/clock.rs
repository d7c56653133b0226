//! The monotonic clock that timers are anchored to.

use std::time::{Duration, Instant};
use vstd::prelude::*;

verus! {

/// `std::time::Instant`, carried as an opaque value.
#[verifier::external_type_specification]
#[verifier::external_body]
pub struct ExInstant(Instant);

/// `Instant::saturating_duration_since`: the span from `earlier` to `now`
/// (zero when `earlier` is later). The span is opaque here, so nothing is
/// promised of it.
#[verifier::external_body]
fn span_since(now: &Instant, earlier: &Instant) -> Duration {
    now.saturating_duration_since(*earlier)
}

/// `Duration::as_secs`: the whole seconds of a span. The span is opaque
/// here, so nothing is promised of the count.
#[verifier::external_body]
fn span_whole_secs(span: &Duration) -> u64 {
    span.as_secs()
}

/// Whole seconds elapsed on the monotonic clock from `earlier` to `now`
/// (zero when `earlier` is later). Any count may come back.
pub(crate) fn whole_secs_since(now: &Instant, earlier: &Instant) -> u64 {
    let span = span_since(now, earlier);
    span_whole_secs(&span)
}

} // verus!
