//! Moments and the system's clock.

use vstd::prelude::*;

verus! {

/// The last second that a calendar date is known for.
pub const LAST_SECOND: i64 = 8_210_266_876_799;

/// Nanoseconds in a second.
pub const NANOS: u32 = 1_000_000_000;

/// A moment, counted from the beginning of 1970 in universal time.
#[derive(Clone, Copy, Debug, PartialEq, Eq, Structural)]
pub struct Moment {
    pub secs: i64,
    /// Nanoseconds since the second began.
    pub nanos: u32,
}

impl Moment {
    /// Whether the clock can show this moment.
    pub open spec fn valid(self) -> bool {
        0 <= self.secs <= LAST_SECOND && self.nanos < NANOS
    }

    /// The nanoseconds that have passed.
    pub open spec fn total_nanos(self) -> int {
        self.secs * NANOS + self.nanos
    }

    /// Whether at least the given number of seconds lie between an earlier moment and this one.
    pub open spec fn at_least_after(self, earlier: Moment, secs: int) -> bool {
        self.total_nanos() - earlier.total_nanos() >= secs * NANOS
    }

    /// Whether at least the given number of seconds lie between an earlier moment and this one.
    pub fn is_at_least_after(&self, earlier: &Moment, secs: u32) -> (r: bool)
        requires
            self.valid(),
            earlier.valid(),
        ensures
            r == self.at_least_after(*earlier, secs as int),
    {
        let whole: i64 = self.secs - earlier.secs;
        if self.nanos >= earlier.nanos {
            whole >= secs as i64
        } else {
            whole > secs as i64
        }
    }
}

/// Asks `chrono::Utc::now` for the time. It is at or after the beginning of 1970: before that the
/// call does not return. It is a moment that chrono has a date for, with less than a second of
/// nanoseconds.
#[verifier::external_body]
pub(crate) fn now() -> (r: Moment)
    ensures
        r.valid(),
{
    let t = chrono::Utc::now();
    Moment { secs: t.timestamp(), nanos: t.timestamp_subsec_nanos() }
}

/// What `chrono::DateTime::to_rfc3339` writes for the universal time at a moment.
pub uninterp spec fn rfc3339(secs: i64, nanos: u32) -> Seq<char>;

/// Calls `chrono::DateTime::from_timestamp`, which has a date for every valid moment, and
/// `chrono::DateTime::to_rfc3339` on that date. The text is known only by name.
#[verifier::external_body]
pub(crate) fn to_rfc3339(m: Moment) -> (r: String)
    requires
        m.valid(),
    ensures
        r@ == rfc3339(m.secs, m.nanos),
{
    chrono::DateTime::from_timestamp(m.secs, m.nanos).unwrap().to_rfc3339()
}

} // verus!
