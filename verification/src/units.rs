//! Time units shared by the driver and its diagnostics.

use vstd::prelude::*;

verus! {

/// Nanoseconds in one second.
pub const NS_IN_SEC: u64 = 1_000_000_000;

/// The length in nanoseconds of a duration given as whole seconds plus a
/// sub-second part, as an unbounded number.
pub open spec fn nanos_of(secs: u64, subsec_nanos: u32) -> nat {
    (secs * NS_IN_SEC + subsec_nanos) as nat
}

/// Converts a duration split into whole seconds and sub-second nanoseconds
/// into a single nanosecond count, or `None` when the count does not fit.
pub fn elapsed_nanos(secs: u64, subsec_nanos: u32) -> (total: Option<u64>)
    ensures
        total.is_some() <==> nanos_of(secs, subsec_nanos) <= u64::MAX,
        total matches Some(ns) ==> ns == nanos_of(secs, subsec_nanos),
{
    match secs.checked_mul(NS_IN_SEC) {
        Some(whole) => whole.checked_add(subsec_nanos as u64),
        None => None,
    }
}

} // verus!
