//! Spans and instants as whole numbers of nanoseconds.

use vstd::prelude::*;

verus! {

/// A span of time.
#[derive(Debug, Clone, Copy, PartialEq, Eq, PartialOrd, Ord, Structural)]
pub struct Duration {
    nanos: u128,
}

impl Duration {
    /// The span in nanoseconds.
    pub closed spec fn view(self) -> nat {
        self.nanos as nat
    }

    /// The empty span.
    pub fn zero() -> (r: Self)
        ensures
            r@ == 0,
    {
        Duration { nanos: 0 }
    }

    /// A number of seconds.
    pub fn from_secs(secs: u64) -> (r: Self)
        ensures
            r@ == secs * 1_000_000_000,
    {
        Duration { nanos: secs as u128 * 1_000_000_000 }
    }

    /// A number of milliseconds.
    pub fn from_millis(millis: u64) -> (r: Self)
        ensures
            r@ == millis * 1_000_000,
    {
        Duration { nanos: millis as u128 * 1_000_000 }
    }

    /// A number of nanoseconds.
    pub fn from_nanos(nanos: u64) -> (r: Self)
        ensures
            r@ == nanos,
    {
        Duration { nanos: nanos as u128 }
    }

    /// The span in whole nanoseconds.
    pub fn as_nanos(self) -> (r: u128)
        ensures
            r == self@,
    {
        self.nanos
    }

    /// The span in whole milliseconds.
    pub fn as_millis(self) -> (r: u128)
        ensures
            r == self@ / 1_000_000,
    {
        self.nanos / 1_000_000
    }
}

/// An instant on the media clock, in nanoseconds.
#[derive(Debug, Clone, Copy, PartialEq, Eq, PartialOrd, Ord, Structural)]
pub struct MediaTime {
    nanos: i64,
}

impl MediaTime {
    /// The instant in nanoseconds.
    pub closed spec fn view(self) -> int {
        self.nanos as int
    }

    /// The instant zero.
    pub fn zero() -> (r: Self)
        ensures
            r@ == 0,
    {
        MediaTime { nanos: 0 }
    }

    /// An instant from its nanoseconds.
    pub fn from_nanos(nanos: i64) -> (r: Self)
        ensures
            r@ == nanos,
    {
        MediaTime { nanos }
    }

    /// The instant in nanoseconds.
    pub fn as_nanos(self) -> (r: i64)
        ensures
            r == self@,
    {
        self.nanos
    }

    /// The instant fits the clock.
    pub proof fn lemma_range(self)
        ensures
            i64::MIN <= self@ <= i64::MAX,
    {
    }

    /// Instants with the same nanoseconds are the same instant.
    pub proof fn lemma_same(self, other: MediaTime)
        requires
            self@ == other@,
        ensures
            self == other,
    {
    }

    /// The time from `earlier` to `self`, held within the range of the clock.
    pub fn saturating_sub(self, earlier: MediaTime) -> (r: MediaTime)
        ensures
            r@ == clamp_i64(self@ - earlier@),
    {
        let d: i128 = self.nanos as i128 - earlier.nanos as i128;
        if d > i64::MAX as i128 {
            MediaTime { nanos: i64::MAX }
        } else if d < i64::MIN as i128 {
            MediaTime { nanos: i64::MIN }
        } else {
            MediaTime { nanos: d as i64 }
        }
    }
}

/// `n`, held within the range of `i64`.
pub open spec fn clamp_i64(n: int) -> int {
    if n > i64::MAX {
        i64::MAX as int
    } else if n < i64::MIN {
        i64::MIN as int
    } else {
        n
    }
}

/// Whole milliseconds of a nanosecond count, rounded towards the past.
pub fn millis_of(nanos: i64) -> (r: i64)
    ensures
        r == nanos as int / 1_000_000,
{
    if nanos >= 0 {
        nanos / 1_000_000
    } else {
        let up: i128 = 0 - nanos as i128;
        let q: i128 = (up + 999_999) / 1_000_000;
        (0 - q) as i64
    }
}

/// A number that fits stays, and one that does not becomes the nearest that does.
pub proof fn law_clamped_number_is_the_nearest(n: int)
    ensures
        i64::MIN <= n <= i64::MAX ==> clamp_i64(n) == n,
        n > i64::MAX ==> clamp_i64(n) == i64::MAX,
        n < i64::MIN ==> clamp_i64(n) == i64::MIN,
{
}

} // verus!
