//! Elapsed times, read as whole nanoseconds.

use std::time::Duration;
use vstd::prelude::*;

verus! {

/// Nanoseconds in one second.
pub const NANOS_PER_SEC: u32 = 1_000_000_000;

/// The length of a `Duration` in nanoseconds.
pub uninterp spec fn duration_nanos(d: Duration) -> nat;

/// The text that the `Debug` form of `Duration` gives for a length of
/// `nanos` nanoseconds.
pub uninterp spec fn elapsed_text(nanos: nat) -> Seq<char>;

/// `Duration::as_secs`: the whole seconds of the duration.
#[verifier::external_body]
pub(crate) fn whole_seconds(d: &Duration) -> (secs: u64)
    ensures
        secs == duration_nanos(*d) / (NANOS_PER_SEC as nat),
{
    d.as_secs()
}

/// `Duration::subsec_nanos`: what is left of the duration after its whole
/// seconds, in nanoseconds.
#[verifier::external_body]
pub(crate) fn subsecond_nanos(d: &Duration) -> (nanos: u32)
    ensures
        nanos == duration_nanos(*d) % (NANOS_PER_SEC as nat),
{
    d.subsec_nanos()
}

/// `Duration::new` on a nanosecond part below one second: the duration of
/// `secs` seconds and `nanos` nanoseconds.
#[verifier::external_body]
pub(crate) fn duration_of(secs: u64, nanos: u32) -> (d: Duration)
    requires
        nanos < NANOS_PER_SEC,
    ensures
        duration_nanos(d) == secs * NANOS_PER_SEC + nanos,
{
    Duration::new(secs, nanos)
}

/// The `Debug` form of a `Duration`, as `format!` renders it.
#[verifier::external_body]
pub(crate) fn format_elapsed(d: &Duration) -> (text: String)
    ensures
        text@ == elapsed_text(duration_nanos(*d)),
{
    format!("{:?}", d)
}

} // verus!
