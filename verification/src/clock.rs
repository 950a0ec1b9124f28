//! Time as the library sees it: points on a monotonic clock and the spans
//! between them, both counted in whole nanoseconds.

use crate::text::{push_two_digits, two_digits};
use vstd::prelude::*;

verus! {

/// Nanoseconds in a millisecond.
pub const NANOS_PER_MILLI: u64 = 1_000_000;

/// Nanoseconds in a second.
pub const NANOS_PER_SEC: u64 = 1_000_000_000;

/// A span of time. The longest span that it can hold is `u64::MAX`
/// nanoseconds, some 584 years; a longer one is cut to that.
#[derive(Debug, Clone, Copy, PartialEq, Eq, Structural)]
pub struct Duration {
    pub nanos: u64,
}

/// A point in time: the nanoseconds since an origin that the caller picks
/// once, such as the start of the program.
#[derive(Debug, Clone, Copy, PartialEq, Eq, Structural)]
pub struct Instant {
    pub nanos: u64,
}

/// `a * b`, or `u64::MAX` where the product does not fit.
pub open spec fn saturating_product(a: nat, b: nat) -> nat {
    if a * b > u64::MAX {
        u64::MAX as nat
    } else {
        a * b
    }
}

/// The time that passed from `earlier` to `now`; none if `earlier` is in
/// fact the later of the two.
pub open spec fn elapsed(now: Instant, earlier: Instant) -> nat {
    if now.nanos >= earlier.nanos {
        (now.nanos - earlier.nanos) as nat
    } else {
        0
    }
}

/// The span of `secs` seconds.
pub open spec fn seconds(secs: u64) -> Duration {
    Duration { nanos: saturating_product(secs as nat, NANOS_PER_SEC as nat) as u64 }
}

/// The span of `millis` milliseconds.
pub open spec fn milliseconds(millis: u64) -> Duration {
    Duration { nanos: saturating_product(millis as nat, NANOS_PER_MILLI as nat) as u64 }
}

impl Duration {
    /// A span of `nanos` nanoseconds.
    pub fn from_nanos(nanos: u64) -> (d: Duration)
        ensures
            d.nanos == nanos,
    {
        Duration { nanos }
    }

    /// A span of `millis` milliseconds.
    pub fn from_millis(millis: u64) -> (d: Duration)
        ensures
            d == milliseconds(millis),
    {
        if millis > u64::MAX / NANOS_PER_MILLI {
            Duration { nanos: u64::MAX }
        } else {
            Duration { nanos: millis * NANOS_PER_MILLI }
        }
    }

    /// A span of `secs` seconds.
    pub fn from_secs(secs: u64) -> (d: Duration)
        ensures
            d == seconds(secs),
    {
        if secs > u64::MAX / NANOS_PER_SEC {
            Duration { nanos: u64::MAX }
        } else {
            Duration { nanos: secs * NANOS_PER_SEC }
        }
    }

    /// The span in nanoseconds.
    pub fn as_nanos(&self) -> (n: u64)
        ensures
            n == self.nanos,
    {
        self.nanos
    }
}

impl Instant {
    /// The point `nanos` nanoseconds after the origin.
    pub fn from_nanos(nanos: u64) -> (t: Instant)
        ensures
            t.nanos == nanos,
    {
        Instant { nanos }
    }

    /// The point `d` after this one, or the last point that can be told
    /// where that lies beyond it.
    pub fn saturating_add(&self, d: Duration) -> (t: Instant)
        ensures
            t.nanos == if self.nanos + d.nanos > u64::MAX {
                u64::MAX as int
            } else {
                self.nanos + d.nanos
            },
    {
        if d.nanos > u64::MAX - self.nanos {
            Instant { nanos: u64::MAX }
        } else {
            Instant { nanos: self.nanos + d.nanos }
        }
    }

    /// The time that passed since `earlier`; zero if `earlier` is later
    /// than this point.
    pub fn duration_since(&self, earlier: Instant) -> (d: Duration)
        ensures
            d.nanos == elapsed(*self, earlier),
    {
        if self.nanos >= earlier.nanos {
            Duration { nanos: self.nanos - earlier.nanos }
        } else {
            Duration { nanos: 0 }
        }
    }
}

/// The time of day, `HH:MM:SS`, at `epoch_secs` seconds after midnight of
/// some day.
pub open spec fn clock_text(epoch_secs: nat) -> Seq<char> {
    two_digits((epoch_secs % 86400) / 3600) + seq![':'] + two_digits((epoch_secs % 3600) / 60)
        + seq![':'] + two_digits(epoch_secs % 60)
}

/// Writes the time of day at `epoch_secs` seconds since the Unix epoch as
/// `HH:MM:SS`.
pub fn format_clock(epoch_secs: u64) -> (text: String)
    ensures
        text@ == clock_text(epoch_secs as nat),
        text@.len() == 8,
{
    let h = (epoch_secs % 86400) / 3600;
    let m = (epoch_secs % 3600) / 60;
    let s = epoch_secs % 60;
    let mut text = String::new();
    push_two_digits(&mut text, h as u8);
    text.push(':');
    push_two_digits(&mut text, m as u8);
    text.push(':');
    push_two_digits(&mut text, s as u8);
    assert(text@ =~= clock_text(epoch_secs as nat));
    text
}

} // verus!
