use vstd::prelude::*;

verus! {

/// A point in time, in milliseconds since an agreed origin.
#[derive(Debug, Clone, Copy, PartialEq, Eq, Structural, PartialOrd, Ord, Hash)]
pub struct Timestamp(pub u64);

impl Timestamp {
    /// The origin.
    pub fn zero() -> (t: Self)
        ensures
            t.0 == 0,
    {
        Timestamp(0)
    }

    pub fn from_millis(millis: u64) -> (t: Self)
        ensures
            t.0 == millis,
    {
        Timestamp(millis)
    }

    pub fn as_millis(self) -> (m: u64)
        ensures
            m == self.0,
    {
        self.0
    }

    /// Milliseconds from `earlier` to `self`; zero when `earlier` is not before `self`.
    pub fn elapsed_since(self, earlier: Timestamp) -> (ms: u64)
        ensures
            ms == elapsed(self, earlier),
    {
        self.0.saturating_sub(earlier.0)
    }
}

/// Milliseconds from `earlier` to `now`, saturating at zero.
pub open spec fn elapsed(now: Timestamp, earlier: Timestamp) -> u64 {
    if now.0 >= earlier.0 {
        (now.0 - earlier.0) as u64
    } else {
        0
    }
}

/// A logical clock that orders events across devices.
pub trait LogicalClock {
    fn tick(&self) -> Timestamp;

    /// Merges a timestamp received with a message.
    fn observe(&self, remote: Timestamp) -> Timestamp;
}

/// A coarse generation counter.
pub struct Epoch(u64);


/// The time elapsed from `earlier` to `now` takes `earlier` to `now` when the
/// clock has not gone back, and is nothing when it has.
pub proof fn law_elapsed(now: Timestamp, earlier: Timestamp)
    ensures
        now.0 >= earlier.0 ==> earlier.0 + elapsed(now, earlier) == now.0,
        now.0 < earlier.0 ==> elapsed(now, earlier) == 0,
{
}

} // verus!
