//! Points in time, counted in ticks of 100 nanoseconds since the start of
//! the year 1601 (UTC), as property sets store them.

use std::time::SystemTime;
use time::ext::SystemTimeExt;
use vstd::prelude::*;

verus! {

/// The number of nanoseconds in a tick.
pub const NANOS_PER_TICK: u64 = 100;

/// The tick count of the start of the year 1970: the number of ticks in the
/// 11 644 473 600 seconds between the two epochs.
pub const UNIX_EPOCH_TICKS: u64 = 116_444_736_000_000_000;

/// The largest tick count that a [`Timestamp`] holds: the last tick of the
/// year 9999, the last year of the calendar of the `time` crate.
pub const MAX_TICK_COUNT: u64 = 2_650_467_743_999_999_999;

/// A point in time between the start of the year 1601 and the end of the
/// year 9999, to a precision of 100 nanoseconds.
#[derive(Clone, Copy, Debug, PartialEq, Eq, Hash, PartialOrd, Ord)]
pub struct Timestamp {
    ticks: u64,
}

impl View for Timestamp {
    type V = u64;

    /// The tick count.
    closed spec fn view(&self) -> u64 {
        self.ticks
    }
}

/// The tick that holds the moment `nanos` nanoseconds after the start of
/// the year 1970 (before it, where `nanos` is negative).
pub open spec fn ticks_of_unix_nanos(nanos: int) -> int {
    (nanos + UNIX_EPOCH_TICKS * NANOS_PER_TICK) / (NANOS_PER_TICK as int)
}

/// The number of nanoseconds from the start of the year 1970 to the start
/// of tick `ticks`.
pub open spec fn unix_nanos_of_ticks(ticks: int) -> int {
    (ticks - UNIX_EPOCH_TICKS) * NANOS_PER_TICK
}

/// `SystemTime::now`, measured from the start of the year 1970 by
/// `time::ext::SystemTimeExt::signed_duration_since` and counted by
/// `time::SignedDuration::whole_nanoseconds`: the reading of the system
/// clock in nanoseconds, negative for a clock set before 1970.  Nothing is
/// known of it.
#[verifier::external_body]
fn clock_unix_nanos() -> (nanos: i128) {
    SystemTime::now().signed_duration_since(SystemTime::UNIX_EPOCH).whole_nanoseconds()
}

impl Timestamp {
    /// The invariant of the type: the tick count is at most
    /// [`MAX_TICK_COUNT`].
    #[verifier::type_invariant]
    pub closed spec fn wf(&self) -> bool {
        self.ticks <= MAX_TICK_COUNT
    }

    /// The tick count of a timestamp is in range.
    pub proof fn lemma_wf(&self)
        requires
            self.wf(),
        ensures
            self@ <= MAX_TICK_COUNT,
    {
    }

    /// The timestamp with the given tick count, if it is in range: `None`
    /// for a count above [`MAX_TICK_COUNT`].
    pub fn from_tick_count(ticks: u64) -> (r: Option<Timestamp>)
        ensures
            ticks <= MAX_TICK_COUNT ==> r is Some && r->0@ == ticks && r->0.wf(),
            ticks > MAX_TICK_COUNT ==> r is None,
    {
        if ticks <= MAX_TICK_COUNT {
            Some(Timestamp { ticks })
        } else {
            None
        }
    }

    /// The tick count.
    pub fn to_tick_count(&self) -> (ticks: u64)
        ensures
            ticks == self@,
            ticks <= MAX_TICK_COUNT,
    {
        proof {
            use_type_invariant(self);
        }
        self.ticks
    }

    /// The timestamp of the moment `nanos` nanoseconds after the start of the
    /// year 1970, cut down to a whole tick; `None` if that tick is before the
    /// year 1601 or after the year 9999.
    pub fn from_unix_nanos(nanos: i128) -> (r: Option<Timestamp>)
        ensures
            0 <= ticks_of_unix_nanos(nanos as int) <= MAX_TICK_COUNT ==> r is Some && r->0@
                == ticks_of_unix_nanos(nanos as int) && r->0.wf(),
            !(0 <= ticks_of_unix_nanos(nanos as int) <= MAX_TICK_COUNT) ==> r is None,
    {
        let lowest: i128 = -11_644_473_600_000_000_000;
        let highest: i128 = 253_402_300_799_999_999_999;
        if nanos < lowest || nanos > highest {
            return None;
        }
        let since_1601: u128 = (nanos - lowest) as u128;
        let ticks: u64 = (since_1601 / 100) as u64;
        Some(Timestamp { ticks })
    }

    /// The number of nanoseconds from the start of the year 1970 to the
    /// timestamp; negative for a timestamp before that year.  It converts
    /// back to the timestamp.
    pub fn to_unix_nanos(&self) -> (nanos: i128)
        ensures
            nanos == unix_nanos_of_ticks(self@ as int),
            ticks_of_unix_nanos(nanos as int) == self@,
    {
        proof {
            use_type_invariant(self);
        }
        (self.ticks as i128 - UNIX_EPOCH_TICKS as i128) * 100
    }

    /// The timestamp nearest to the moment `nanos` nanoseconds after the
    /// start of the year 1970: that moment cut down to a whole tick, or the
    /// first or the last timestamp if it lies outside the range.
    pub fn nearest(nanos: i128) -> (t: Timestamp)
        ensures
            t.wf(),
            t@ == if ticks_of_unix_nanos(nanos as int) < 0 {
                0
            } else if ticks_of_unix_nanos(nanos as int) > MAX_TICK_COUNT {
                MAX_TICK_COUNT as int
            } else {
                ticks_of_unix_nanos(nanos as int)
            },
    {
        match Timestamp::from_unix_nanos(nanos) {
            Some(t) => t,
            None => if nanos < 0 {
                Timestamp { ticks: 0 }
            } else {
                Timestamp { ticks: MAX_TICK_COUNT }
            },
        }
    }

    /// The current time, cut down to a whole tick.  It depends on the clock
    /// of the machine, so all that is known of it is that it is a
    /// timestamp: [`nearest`](Self::nearest) says which, for each reading
    /// of the clock.
    pub fn now() -> (t: Timestamp)
        ensures
            t.wf(),
    {
        Timestamp::nearest(clock_unix_nanos())
    }
}

/// A timestamp is recovered from its nanoseconds: converting a tick count
/// to nanoseconds since 1970 and back gives the same tick count.
pub proof fn lemma_ticks_of_unix_nanos(ticks: int)
    ensures
        ticks_of_unix_nanos(unix_nanos_of_ticks(ticks)) == ticks,
{
}

} // verus!
