use vstd::prelude::*;

use crate::clock::{parse_rfc3339, rfc3339_instant, Instant};
use crate::error::CheckinError;

verus! {

/// How long a session must wait after an accepted check-in: 22 hours, in
/// nanoseconds.
pub const COOLDOWN_NANOS: i128 = 22 * 3600 * 1_000_000_000;

/// The answer to a check-in request.
#[derive(Clone, Copy, Debug, PartialEq, Eq, Structural)]
pub enum Verdict {
    Grant,
    Deny,
}

/// A session is denied exactly when it holds a marker from less than the
/// cooldown window before `now`.
pub open spec fn cooldown_verdict(marker: Option<Instant>, now: Instant) -> Verdict {
    match marker {
        Some(m) => if now.total_nanos() - m.total_nanos() < COOLDOWN_NANOS as int {
            Verdict::Deny
        } else {
            Verdict::Grant
        },
        None => Verdict::Grant,
    }
}

/// The instant that a marker text records, if it is an RFC 3339 timestamp.
pub open spec fn marker_instant(text: Seq<char>) -> Option<Instant> {
    match rfc3339_instant(text) {
        Some(p) => Some(Instant { secs: p.0, nanos: p.1 }),
        None => None,
    }
}

/// The instant a session's marker records; a marker that cannot be read
/// counts as no marker.
pub open spec fn held_instant(marker: Option<&str>) -> Option<Instant> {
    match marker {
        Some(t) => marker_instant(t@),
        None => None,
    }
}

/// Decides whether a session whose last accepted check-in was at `marker`
/// may check in at `now`.
pub fn evaluate(marker: Option<Instant>, now: Instant) -> (r: Verdict)
    ensures
        r == cooldown_verdict(marker, now),
        r == Verdict::Deny <==> (marker.is_some() && now.total_nanos()
            - marker.unwrap().total_nanos() < COOLDOWN_NANOS as int),
{
    match marker {
        Some(m) => {
            if now.nanos_since(&m) < COOLDOWN_NANOS {
                Verdict::Deny
            } else {
                Verdict::Grant
            }
        },
        None => Verdict::Grant,
    }
}

/// Reads the instant that a session marker records.
pub fn parse_marker(text: &str) -> (r: Result<Instant, CheckinError>)
    ensures
        match marker_instant(text@) {
            Some(i) => r == Ok::<Instant, CheckinError>(i),
            None => r == Err::<Instant, CheckinError>(CheckinError::MalformedMarker),
        },
{
    match parse_rfc3339(text) {
        Some(i) => Ok(i),
        None => Err(CheckinError::MalformedMarker),
    }
}

/// The cooldown rule applied to the marker text a session holds, if any. A marker
/// that cannot be read is treated as absent, so such a session is granted.
pub fn evaluate_session(marker: Option<&str>, now: Instant) -> (r: Verdict)
    ensures
        r == cooldown_verdict(held_instant(marker), now),
{
    let held: Option<Instant> = match marker {
        Some(t) => match parse_marker(t) {
            Ok(i) => Some(i),
            Err(_) => None,
        },
        None => None,
    };
    evaluate(held, now)
}

} // verus!
