//! Points in time.

use vstd::prelude::*;

verus! {

/// The first second of the calendar, counted from the Unix epoch.
pub const FIRST_SECOND: i64 = -8_334_601_228_800;

/// The last second of the calendar, counted from the Unix epoch.
pub const LAST_SECOND: i64 = 8_210_266_876_799;

/// A point in time: whole seconds since the Unix epoch, and nanoseconds into that
/// second. There are no leap seconds.
#[derive(Clone, Copy, Debug, PartialEq, Eq, Structural)]
pub struct Timestamp {
    pub secs: i64,
    pub nanos: u32,
}

impl Timestamp {
    /// The point lies in the calendar.
    pub open spec fn in_calendar(self) -> bool {
        FIRST_SECOND <= self.secs <= LAST_SECOND && self.nanos < 1_000_000_000
    }

    /// Nanoseconds since the epoch.
    pub open spec fn in_nanos(self) -> int {
        self.secs * 1_000_000_000 + self.nanos
    }

    /// Nanoseconds since the epoch.
    pub fn nanos_since_epoch(&self) -> (r: i128)
        ensures
            r == self.in_nanos(),
    {
        self.secs as i128 * 1_000_000_000 + self.nanos as i128
    }

    /// The point with the given nanoseconds since the epoch, if it is a point in the
    /// calendar.
    pub fn from_nanos(nanos: i128) -> (r: Option<Timestamp>)
        ensures
            r matches Some(t) ==> t.in_calendar() && t.in_nanos() == nanos,
            r is Some <==> FIRST_SECOND * 1_000_000_000 <= nanos < (LAST_SECOND + 1)
                * 1_000_000_000,
    {
        if nanos < FIRST_SECOND as i128 * 1_000_000_000 || nanos >= (LAST_SECOND as i128 + 1)
            * 1_000_000_000 {
            return None;
        }
        let shift: u128 = (nanos - FIRST_SECOND as i128 * 1_000_000_000) as u128;
        let secs: i64 = FIRST_SECOND + (shift / 1_000_000_000) as i64;
        let rest: u32 = (shift % 1_000_000_000) as u32;
        Some(Timestamp { secs, nanos: rest })
    }
}

/// A stretch of time, in nanoseconds.
#[derive(Clone, Copy, Debug, PartialEq, Eq, Structural)]
pub struct TimeDelta {
    pub nanos: i128,
}

/// What chrono writes for a point in the calendar.
pub uninterp spec fn utc_text(secs: i64, nanos: u32) -> Seq<char>;

/// `to_string` of chrono's `DateTime<Utc>` at this point. The text is named, not
/// spelled out.
#[verifier::external_body]
pub(crate) fn utc_display(at: Timestamp) -> (r: String)
    requires
        at.in_calendar(),
    ensures
        r@ == utc_text(at.secs, at.nanos),
{
    chrono::DateTime::from_timestamp(at.secs, at.nanos).map(|t| t.to_string()).unwrap_or_default()
}

/// `chrono::Utc::now`: the present point in the calendar, whatever it is.
#[verifier::external_body]
pub(crate) fn utc_now() -> (r: Timestamp)
    ensures
        r.in_calendar(),
{
    let now = chrono::Utc::now();
    Timestamp { secs: now.timestamp(), nanos: now.timestamp_subsec_nanos() }
}

} // verus!
