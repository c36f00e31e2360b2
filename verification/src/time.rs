//! Durations and instants, counted in milliseconds
use vstd::prelude::*;

verus! {

/// Half the range of the tick counter: the longest duration that can be added
/// to an instant, and how far apart two instants may be and still be ordered.
pub const HALF_RANGE: u64 = 0x7fff_ffff_ffff_ffff;

/// Number of values of the tick counter
pub open spec fn tick_range() -> int {
    0x1_0000_0000_0000_0000int
}

/// A duration in milliseconds
#[derive(Debug, Clone, Copy, PartialEq, Eq, PartialOrd, Ord, Hash, Default, Structural)]
pub struct Millis(pub u64);

/// A point in time: the milliseconds a clock has counted since its epoch.
///
/// The counter wraps around, so instants are ordered relative to each other:
/// `a` is not before `b` when `a` is at most half the counter's range after `b`.
#[derive(Debug, Clone, Copy, PartialEq, Eq, Hash, Structural)]
pub struct Instant(pub u64);

/// `later` is `earlier` or lies within half the counter's range after it
pub open spec fn spec_not_before(later: u64, earlier: u64) -> bool {
    later == earlier || (later - earlier) % tick_range() <= HALF_RANGE
}

/// The instant `d` milliseconds after `t`, on the wrapping counter
pub open spec fn spec_after(t: u64, d: u64) -> u64 {
    ((t + d) % tick_range()) as u64
}

impl Instant {
    /// The instant at `ticks` milliseconds since the epoch
    pub fn new(ticks: u64) -> (r: Instant)
        ensures
            r.0 == ticks,
    {
        Instant(ticks)
    }

    /// Time elapsed between the clock's epoch and this instant
    pub fn duration_since_epoch(&self) -> (r: Millis)
        ensures
            r.0 == self.0,
    {
        Millis(self.0)
    }

    /// This instant plus a duration, or `None` when the duration is longer
    /// than half the counter's range
    pub fn checked_add(self, d: Millis) -> (r: Option<Instant>)
        ensures
            r == (if d.0 <= HALF_RANGE {
                Some(Instant(spec_after(self.0, d.0)))
            } else {
                None
            }),
    {
        if d.0 <= HALF_RANGE {
            proof {
                if self.0 + d.0 > u64::MAX {
                    assert((self.0 + d.0) % tick_range() == self.0 + d.0 - tick_range());
                } else {
                    assert((self.0 + d.0) % tick_range() == self.0 + d.0);
                }
            }
            Some(Instant(self.0.wrapping_add(d.0)))
        } else {
            None
        }
    }

    /// Whether this instant is `other` or comes after it
    pub fn is_not_before(&self, other: &Instant) -> (r: bool)
        ensures
            r == spec_not_before(self.0, other.0),
    {
        if self.0 == other.0 {
            true
        } else {
            let d = self.0.wrapping_sub(other.0);
            proof {
                if self.0 < other.0 {
                    assert((self.0 - other.0) % tick_range() == self.0 - other.0 + tick_range());
                } else {
                    assert((self.0 - other.0) % tick_range() == self.0 - other.0);
                }
            }
            d <= HALF_RANGE
        }
    }
}

/// How long to wait for something
#[derive(Debug, Clone, Copy, PartialEq, Eq, Structural)]
pub enum Timeout {
    /// Give up after this many milliseconds
    Millis(u64),
    /// Wait for ever
    Never,
}

impl Timeout {
    /// Whether, waiting since `start`, this timeout has passed at `now`: more
    /// milliseconds than it allows have gone by on the wrapping counter
    pub fn timed_out(&self, start: Instant, now: Instant) -> (r: bool)
        ensures
            r == match *self {
                Timeout::Millis(ms) => (now.0 - start.0) % tick_range() > ms,
                Timeout::Never => false,
            },
    {
        match self {
            Timeout::Millis(ms) => {
                let elapsed = now.0.wrapping_sub(start.0);
                proof {
                    if now.0 < start.0 {
                        assert((now.0 - start.0) % tick_range() == now.0 - start.0 + tick_range());
                    } else {
                        assert((now.0 - start.0) % tick_range() == now.0 - start.0);
                    }
                }
                elapsed > *ms
            },
            Timeout::Never => false,
        }
    }
}

} // verus!
