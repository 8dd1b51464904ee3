//! Spans of time.

use std::time::Duration;
use vstd::prelude::*;

use crate::wire;

verus! {

/// How many nanoseconds a `Duration` lasts.
pub uninterp spec fn nanos(d: Duration) -> nat;

/// A number of milliseconds cut down to 64 bits.
pub open spec fn millis(d: Duration) -> nat {
    (nanos(d) / 1_000_000) % 0x1_0000_0000_0000_0000
}

/// `Duration::from_secs`: that many seconds.
pub assume_specification[ Duration::from_secs ](secs: u64) -> (r: Duration)
    ensures
        nanos(r) == secs * 1_000_000_000,
;

/// `Duration::as_millis`: the whole milliseconds in the span.
pub assume_specification[ Duration::as_millis ](d: &Duration) -> (r: u128)
    ensures
        r == nanos(*d) / 1_000_000,
;

/// The whole milliseconds in `d`, modulo 2^64.
pub fn as_millis_u64(d: &Duration) -> (r: u64)
    ensures
        r == millis(*d),
{
    (d.as_millis() % 0x1_0000_0000_0000_0000) as u64
}

/// The whole milliseconds in `d` as a signed number with the same 64 bits.
pub fn as_millis_i64(d: &Duration) -> (r: i64)
    ensures
        r == wire::signed64(millis(*d)),
{
    wire::to_signed64(as_millis_u64(d))
}

} // verus!
