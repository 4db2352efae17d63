use vstd::prelude::*;

use crate::clock::Moment;
use crate::codec::{decode, decoded, records_unique, starting_snapshot, JsonData};
use crate::error::CheckinError;
use crate::cooldown::{cooldown_verdict, evaluate_session, held_instant, Verdict};
use crate::ledger::{
    checked_in, count_for, dates_unique, has_date, lemma_checked_in_unique, AppData, DayView,
};

verus! {

/// What a check-in request gets back.
#[derive(Clone, Debug)]
pub struct CheckinOutcome {
    /// Whether the check-in was accepted.
    pub granted: bool,
    /// Today's visit count after the request.
    pub visit_count: u32,
    /// The local time of day of the request.
    pub checkin_time: String,
    /// The marker the session must store from now on, when it changes.
    pub marker: Option<String>,
}

/// Handles one check-in request of a session holding `marker`, at `now`.
///
/// A denied session leaves the ledger and its marker as they are and learns
/// today's count. A granted one counts one more visit for today's date and
/// must store `now` as its marker; when today's count cannot grow any
/// further the request fails with `CounterFull` and nothing changes.
pub fn register_checkin(ledger: &mut AppData, marker: Option<&str>, now: &Moment) -> (r: Result<
    CheckinOutcome,
    CheckinError,
>)
    requires
        old(ledger).wf(),
    ensures
        final(ledger).wf(),
        cooldown_verdict(held_instant(marker), now.instant) == Verdict::Deny ==> {
            &&& final(ledger)@ == old(ledger)@
            &&& r matches Ok(o)
            &&& !o.granted
            &&& o.visit_count as nat == count_for(old(ledger)@, now.date@)
            &&& o.checkin_time@ == now.time@
            &&& o.marker.is_none()
        },
        cooldown_verdict(held_instant(marker), now.instant) == Verdict::Grant ==> {
            if count_for(old(ledger)@, now.date@) == u32::MAX {
                &&& final(ledger)@ == old(ledger)@
                &&& r == Err::<CheckinOutcome, CheckinError>(CheckinError::CounterFull)
            } else {
                &&& final(ledger)@ == checked_in(old(ledger)@, now.date@, now.time@)
                &&& r matches Ok(o)
                &&& o.granted
                &&& o.visit_count as nat == count_for(final(ledger)@, now.date@)
                &&& o.visit_count as nat == count_for(old(ledger)@, now.date@) + 1
                &&& o.checkin_time@ == now.time@
                &&& o.marker matches Some(m) && m@ == now.stamp@
            }
        },
{
    let verdict = evaluate_session(marker, now.instant);
    match verdict {
        Verdict::Deny => {
            let count = ledger.count_on(&now.date);
            Ok(
                CheckinOutcome {
                    granted: false,
                    visit_count: count,
                    checkin_time: now.time.clone(),
                    marker: None,
                },
            )
        },
        Verdict::Grant => {
            match ledger.find_or_create_today(now) {
                Some(count) => Ok(
                    CheckinOutcome {
                        granted: true,
                        visit_count: count,
                        checkin_time: now.time.clone(),
                        marker: Some(now.stamp.clone()),
                    },
                ),
                None => Err(CheckinError::CounterFull),
            }
        },
    }
}

/// The ledger to start from: the loaded snapshot when it could be read and
/// is valid, otherwise one fresh entry for the day of `now` with a count of
/// zero (a missing snapshot file included).
pub fn initial_ledger(loaded: Result<JsonData, CheckinError>, now: &Moment) -> (r: AppData)
    ensures
        r.wf(),
        match loaded {
            Ok(s) => if records_unique(s@) {
                r@ == decoded(s@)
            } else {
                r@ == decoded(starting_snapshot(now.date@, now.time@))
            },
            Err(_) => r@ == decoded(starting_snapshot(now.date@, now.time@)),
        },
{
    if let Ok(s) = &loaded {
        if let Ok(l) = decode(s) {
            return l;
        }
    }
    let fresh = JsonData::starting_at(now);
    match decode(&fresh) {
        Ok(l) => l,
        Err(_) => {
            // a single record cannot repeat a date
            assert(records_unique(fresh@));
            AppData::new()
        },
    }
}

/// The ledger after granted check-ins on `date` at each of `times`, in order.
pub open spec fn checkins_on(l: Seq<DayView>, date: Seq<char>, times: Seq<Seq<char>>) -> Seq<
    DayView,
>
    decreases times.len(),
{
    if times.len() == 0 {
        l
    } else {
        checked_in(checkins_on(l, date, times.drop_last()), date, times.last())
    }
}

/// No lost updates and no duplicate entries: after any number of granted
/// check-ins on one date, that date's count has grown by exactly that number
/// and the ledger still holds at most one entry per date. Starting from no
/// entry for the date, the count equals the number of check-ins.
pub proof fn lemma_checkins_accumulate(l: Seq<DayView>, date: Seq<char>, times: Seq<Seq<char>>)
    requires
        dates_unique(l),
    ensures
        dates_unique(checkins_on(l, date, times)),
        count_for(checkins_on(l, date, times), date) == count_for(l, date) + times.len(),
        times.len() > 0 ==> has_date(checkins_on(l, date, times), date),
        !has_date(l, date) ==> count_for(checkins_on(l, date, times), date) == times.len(),
    decreases times.len(),
{
    if times.len() > 0 {
        let prior = checkins_on(l, date, times.drop_last());
        lemma_checkins_accumulate(l, date, times.drop_last());
        lemma_checked_in_unique(prior, date, times.last());
    }
}

} // verus!
