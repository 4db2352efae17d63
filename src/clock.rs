use vstd::prelude::*;

verus! {

/// A point in time: whole seconds since the Unix epoch and the nanoseconds
/// past that second (above a billion only inside a leap second).
#[derive(Clone, Copy, Debug, PartialEq, Eq, Structural)]
pub struct Instant {
    pub secs: i64,
    pub nanos: u32,
}

impl Instant {
    /// The instant as a count of nanoseconds since the epoch.
    pub open spec fn total_nanos(self) -> int {
        self.secs as int * 1_000_000_000 + self.nanos as int
    }

    /// Nanoseconds from `earlier` to `self` (negative when `earlier` is later).
    pub fn nanos_since(&self, earlier: &Instant) -> (r: i128)
        ensures
            r as int == self.total_nanos() - earlier.total_nanos(),
    {
        let a: i128 = self.secs as i128 * 1_000_000_000i128 + self.nanos as i128;
        let b: i128 = earlier.secs as i128 * 1_000_000_000i128 + earlier.nanos as i128;
        a - b
    }
}

/// The moment of a request as the check-in logic reads it: the instant, the
/// local calendar date (`YYYY-MM-DD`), the local time of day, and the
/// RFC 3339 form that a session marker stores.
#[derive(Clone, Debug)]
pub struct Moment {
    pub instant: Instant,
    pub date: String,
    pub time: String,
    pub stamp: String,
}

/// What chrono's RFC 3339 parser makes of a text: the epoch seconds and the
/// sub-second nanoseconds of the instant it denotes, or nothing when the text
/// is not an RFC 3339 timestamp.
pub uninterp spec fn rfc3339_instant(s: Seq<char>) -> Option<(i64, u32)>;

/// Relies on chrono's `DateTime::parse_from_rfc3339`, read back through
/// `timestamp` and `timestamp_subsec_nanos`.
#[verifier::external_body]
pub(crate) fn parse_rfc3339(text: &str) -> (r: Option<Instant>)
    ensures
        match r {
            Some(i) => rfc3339_instant(text@) == Some((i.secs, i.nanos)),
            None => rfc3339_instant(text@).is_none(),
        },
{
    match chrono::DateTime::parse_from_rfc3339(text) {
        Ok(t) => Some(Instant { secs: t.timestamp(), nanos: t.timestamp_subsec_nanos() }),
        Err(_) => None,
    }
}

/// Relies on chrono's `Local::now`: the current instant together with its
/// local date, local time of day and RFC 3339 text. The values come from the
/// system clock; chrono prints a date as at least `YYYY-MM-DD` and a time of
/// day as at least `HH:MM:SS`.
#[verifier::external_body]
pub(crate) fn local_now() -> (r: Moment)
    ensures
        r.date@.len() >= 10,
        r.time@.len() >= 8,
{
    let t = chrono::Local::now();
    Moment {
        instant: Instant { secs: t.timestamp(), nanos: t.timestamp_subsec_nanos() },
        date: t.date_naive().to_string(),
        time: t.time().to_string(),
        stamp: t.to_rfc3339(),
    }
}

} // verus!
