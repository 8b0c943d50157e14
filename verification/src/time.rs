//! Durations as the assertion engine sees them: a count of nanoseconds.

use std::time::Duration;
use vstd::prelude::*;

verus! {

/// The length of a `Duration` in whole nanoseconds.
pub uninterp spec fn duration_nanos(d: Duration) -> nat;

/// The text that `Duration`'s `Debug` formatting gives for a duration of
/// the given length in nanoseconds, such as `5s` or `200ms`.
pub uninterp spec fn duration_debug_text(nanos: nat) -> Seq<char>;

/// `Duration::from_millis`: a duration of `millis` milliseconds, each of
/// them a million nanoseconds.
pub assume_specification[ Duration::from_millis ](millis: u64) -> (d: Duration)
    ensures
        duration_nanos(d) == millis as nat * 1_000_000,
;

/// `Duration::as_nanos`: the length of the duration in whole nanoseconds.
pub assume_specification[ Duration::as_nanos ](d: &Duration) -> (nanos: u128)
    ensures
        nanos == duration_nanos(*d),
;

/// `Duration`'s `Debug` formatting. The text depends on the length of the
/// duration alone.
#[verifier::external_body]
pub(crate) fn debug_text(d: &Duration) -> (text: String)
    ensures
        text@ == duration_debug_text(duration_nanos(*d)),
{
    format!("{:?}", d)
}

} // verus!
