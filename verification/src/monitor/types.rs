//! What every metric collector reports about itself.

use std::time::Duration;
use vstd::prelude::*;

verus! {

/// The duration of `ms` milliseconds.
pub uninterp spec fn millis(ms: u64) -> Duration;

/// `Duration::from_millis`: the duration of `ms` milliseconds.
#[verifier::external_body]
pub(crate) fn duration_from_millis(ms: u64) -> (d: Duration)
    ensures
        d == millis(ms),
{
    Duration::from_millis(ms)
}

/// Identity and pacing of a metric collector.
pub trait Collector {
    /// A short, stable identifier (e.g. `"cpu"`).
    fn id(&self) -> &'static str;

    /// The name shown to users.
    fn display_name(&self) -> &'static str;

    /// How often the collector should be polled.
    fn interval_hint(&self) -> Duration;
}

} // verus!
