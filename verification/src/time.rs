//! Simulated time on an integer clock.
//!
//! Every instant and every span is a whole number of milliseconds held in an
//! `i64`. Sums and differences that leave the range of `i64` stop at its
//! nearest end, so no operation here can overflow or panic.

use vstd::prelude::*;

verus! {

/// Milliseconds in one second.
pub const MS_PER_SECOND: i64 = 1000;

/// Milliseconds in one hour.
pub const MS_PER_HOUR: i64 = 3600000;

/// The `i64` nearest to `i`.
pub open spec fn clamp_i64(i: int) -> i64 {
    if i < i64::MIN {
        i64::MIN
    } else if i > i64::MAX {
        i64::MAX
    } else {
        i as i64
    }
}

/// Computes [`clamp_i64`] of a value that is known to fit in an `i128`.
fn clamp_wide(i: i128) -> (r: i64)
    ensures
        r == clamp_i64(i as int),
{
    if i < -9223372036854775808i128 {
        i64::MIN
    } else if i > 9223372036854775807i128 {
        i64::MAX
    } else {
        i as i64
    }
}

/// A span of simulated time; negative spans point into the past.
#[derive(Clone, Copy, Debug, PartialEq, Eq, Structural)]
pub struct Duration {
    pub ms: i64,
}

/// An instant of simulated time, counted from the start of the first day.
#[derive(Clone, Copy, Debug, PartialEq, Eq, Structural)]
pub struct Time {
    pub ms: i64,
}

/// An instant that may lie infinitely far in the future.
#[derive(Clone, Copy, Debug, PartialEq, Eq, Structural)]
pub enum AnyTime {
    Finite(Time),
    Infinite,
}

impl Duration {
    /// The empty span.
    pub fn zero() -> (d: Duration)
        ensures
            d.ms == 0,
    {
        Duration { ms: 0 }
    }

    pub fn milliseconds(ms: i64) -> (d: Duration)
        ensures
            d.ms == ms,
    {
        Duration { ms }
    }

    pub fn seconds(s: i64) -> (d: Duration)
        ensures
            d.ms == clamp_i64(s * MS_PER_SECOND),
    {
        let wide: i128 = (s as i128) * 1000;
        Duration { ms: clamp_wide(wide) }
    }

    pub fn hours(h: usize) -> (d: Duration)
        ensures
            d.ms == clamp_i64(h * MS_PER_HOUR),
    {
        let wide: i128 = (h as i128) * 3600000;
        Duration { ms: clamp_wide(wide) }
    }

    pub fn inner_milliseconds(&self) -> (ms: i64)
        ensures
            ms == self.ms,
    {
        self.ms
    }
}

impl Time {
    /// The first instant of the simulation.
    pub fn start_of_day() -> (t: Time)
        ensures
            t.ms == 0,
    {
        Time { ms: 0 }
    }

    pub fn milliseconds(ms: i64) -> (t: Time)
        ensures
            t.ms == ms,
    {
        Time { ms }
    }

    pub fn inner_milliseconds(&self) -> (ms: i64)
        ensures
            ms == self.ms,
    {
        self.ms
    }

    /// The instant `d` after `self`.
    pub open spec fn spec_add(self, d: Duration) -> Time {
        Time { ms: clamp_i64(self.ms + d.ms) }
    }

    /// The span from `earlier` to `self`.
    pub open spec fn spec_since(self, earlier: Time) -> Duration {
        Duration { ms: clamp_i64(self.ms - earlier.ms) }
    }

    /// The later of two instants.
    pub open spec fn spec_max(self, other: Time) -> Time {
        if self.ms >= other.ms {
            self
        } else {
            other
        }
    }

    pub fn add(self, d: Duration) -> (t: Time)
        ensures
            t == self.spec_add(d),
    {
        let wide: i128 = (self.ms as i128) + (d.ms as i128);
        Time { ms: clamp_wide(wide) }
    }

    pub fn since(self, earlier: Time) -> (d: Duration)
        ensures
            d == self.spec_since(earlier),
    {
        let wide: i128 = (self.ms as i128) - (earlier.ms as i128);
        Duration { ms: clamp_wide(wide) }
    }

    pub fn max(self, other: Time) -> (t: Time)
        ensures
            t == self.spec_max(other),
    {
        if self.ms >= other.ms {
            self
        } else {
            other
        }
    }
}

impl AnyTime {
    /// The instant that never comes.
    pub fn infinity() -> (t: AnyTime)
        ensures
            t == AnyTime::Infinite,
    {
        AnyTime::Infinite
    }

    pub fn from_time(t: Time) -> (a: AnyTime)
        ensures
            a == AnyTime::Finite(t),
    {
        AnyTime::Finite(t)
    }

    pub open spec fn spec_is_finite(&self) -> bool {
        self is Finite
    }

    #[verifier::when_used_as_spec(spec_is_finite)]
    pub fn is_finite(&self) -> (b: bool)
        ensures
            b == self.spec_is_finite(),
    {
        match self {
            AnyTime::Finite(_) => true,
            AnyTime::Infinite => false,
        }
    }

    /// The instant `d` after `self`; infinity stays where it is.
    pub open spec fn spec_add(self, d: Duration) -> AnyTime {
        match self {
            AnyTime::Finite(t) => AnyTime::Finite(t.spec_add(d)),
            AnyTime::Infinite => AnyTime::Infinite,
        }
    }

    /// The instant `d` before `self`; infinity stays where it is.
    pub open spec fn spec_sub(self, d: Duration) -> AnyTime {
        match self {
            AnyTime::Finite(t) => AnyTime::Finite(Time { ms: clamp_i64(t.ms - d.ms) }),
            AnyTime::Infinite => AnyTime::Infinite,
        }
    }

    pub fn add(self, d: Duration) -> (a: AnyTime)
        ensures
            a == self.spec_add(d),
    {
        match self {
            AnyTime::Finite(t) => AnyTime::Finite(t.add(d)),
            AnyTime::Infinite => AnyTime::Infinite,
        }
    }

    pub fn sub(self, d: Duration) -> (a: AnyTime)
        ensures
            a == self.spec_sub(d),
    {
        match self {
            AnyTime::Finite(t) => {
                let wide: i128 = (t.ms as i128) - (d.ms as i128);
                AnyTime::Finite(Time { ms: clamp_wide(wide) })
            },
            AnyTime::Infinite => AnyTime::Infinite,
        }
    }

    /// The finite instant held, if there is one.
    pub fn into_time(self) -> (t: Option<Time>)
        ensures
            t == (match self {
                AnyTime::Finite(at) => Some(at),
                AnyTime::Infinite => None::<Time>,
            }),
    {
        match self {
            AnyTime::Finite(at) => Some(at),
            AnyTime::Infinite => None,
        }
    }
}

} // verus!
