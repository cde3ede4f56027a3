//! A length of time, held as whole seconds and a nanosecond remainder.

use vstd::prelude::*;

verus! {

/// A non-negative length of time with nanosecond resolution.
///
/// The two fields add up: a `nanos` of a second or more is allowed and simply
/// counts on top of `secs`.
#[derive(Clone, Copy, Debug, PartialEq, Eq, Structural)]
pub struct Span {
    pub secs: u64,
    pub nanos: u32,
}

impl Span {
    /// The length of the span in nanoseconds.
    pub open spec fn total_nanos(self) -> nat {
        (self.secs as nat) * 1_000_000_000 + (self.nanos as nat)
    }

    /// The span's length in nanoseconds, as a machine integer.
    pub fn as_nanos(&self) -> (n: u128)
        ensures
            n == self.total_nanos(),
    {
        (self.secs as u128) * 1_000_000_000u128 + (self.nanos as u128)
    }

    /// The span of `n` nanoseconds, with the nanosecond field below one second.
    pub fn from_nanos(n: u128) -> (s: Span)
        requires
            n / 1_000_000_000 <= u64::MAX,
        ensures
            s.total_nanos() == n,
            s.nanos < 1_000_000_000,
    {
        Span { secs: (n / 1_000_000_000u128) as u64, nanos: (n % 1_000_000_000u128) as u32 }
    }
}

} // verus!
