use vstd::prelude::*;

use crate::clock::Moment;
use crate::error::CheckinError;

verus! {

/// One calendar date's visit count and the time of its latest check-in.
#[derive(Clone, Debug)]
pub struct AppState {
    pub last_date: String,
    pub date: String,
    pub counter: u32,
    pub time: String,
    pub last_time: String,
}

/// The ledger: one entry per date seen, in the order of first appearance.
#[derive(Clone, Debug)]
pub struct AppData {
    pub state: Vec<AppState>,
}

/// The mathematical content of an [`AppState`].
pub ghost struct DayView {
    pub last_date: Seq<char>,
    pub date: Seq<char>,
    pub counter: nat,
    pub time: Seq<char>,
    pub last_time: Seq<char>,
}

impl View for AppState {
    type V = DayView;

    open spec fn view(&self) -> DayView {
        DayView {
            last_date: self.last_date@,
            date: self.date@,
            counter: self.counter as nat,
            time: self.time@,
            last_time: self.last_time@,
        }
    }
}

impl View for AppData {
    type V = Seq<DayView>;

    open spec fn view(&self) -> Seq<DayView> {
        self.state@.map_values(|e: AppState| e@)
    }
}

/// No two entries share a date.
pub open spec fn dates_unique(l: Seq<DayView>) -> bool {
    forall|i: int, j: int| 0 <= i < j < l.len() ==> l[i].date != l[j].date
}

/// Some entry carries date `d`.
pub open spec fn has_date(l: Seq<DayView>, d: Seq<char>) -> bool {
    exists|i: int| 0 <= i < l.len() && l[i].date == d
}

/// The position of the entry for date `d`, or -1 when there is none.
pub open spec fn date_index(l: Seq<DayView>, d: Seq<char>) -> int {
    if has_date(l, d) {
        choose|i: int| 0 <= i < l.len() && l[i].date == d
    } else {
        -1
    }
}

/// The visit count recorded for date `d` (zero when the date has no entry).
pub open spec fn count_for(l: Seq<DayView>, d: Seq<char>) -> nat {
    let i = date_index(l, d);
    if i >= 0 {
        l[i].counter
    } else {
        0
    }
}

/// The entry that a date's first check-in creates.
pub open spec fn fresh_day(date: Seq<char>, time: Seq<char>) -> DayView {
    DayView { last_date: date, date, counter: 1, time, last_time: time }
}

/// The ledger after one granted check-in on `date` at `time`: the date's
/// entry counts one more and records the check-in, or a new entry with a
/// count of one is appended.
pub open spec fn checked_in(l: Seq<DayView>, date: Seq<char>, time: Seq<char>) -> Seq<DayView> {
    let i = date_index(l, date);
    if i >= 0 {
        l.update(
            i,
            DayView {
                last_date: date,
                date: l[i].date,
                counter: l[i].counter + 1,
                time,
                last_time: time,
            },
        )
    } else {
        l.push(fresh_day(date, time))
    }
}

/// In a ledger with unique dates, the entry at `i` is the one found for its date.
pub proof fn lemma_date_index(l: Seq<DayView>, i: int)
    requires
        dates_unique(l),
        0 <= i < l.len(),
    ensures
        date_index(l, l[i].date) == i,
{
    assert(has_date(l, l[i].date));
    let j = choose|j: int| 0 <= j < l.len() && l[j].date == l[i].date;
    assert(l[j].date == l[i].date);
}

/// A check-in keeps the dates of a ledger unique.
pub proof fn lemma_checked_in_unique(l: Seq<DayView>, date: Seq<char>, time: Seq<char>)
    requires
        dates_unique(l),
    ensures
        dates_unique(checked_in(l, date, time)),
        has_date(checked_in(l, date, time), date),
        count_for(checked_in(l, date, time), date) == count_for(l, date) + 1,
{
    let r = checked_in(l, date, time);
    let i = date_index(l, date);
    if i >= 0 {
        assert(has_date(l, date));
        assert(0 <= i < l.len() && l[i].date == date);
        assert forall|a: int, b: int| 0 <= a < b < r.len() implies r[a].date != r[b].date by {
            assert(r[a].date == l[a].date);
            assert(r[b].date == l[b].date);
        }
        lemma_date_index(r, i);
    } else {
        assert forall|a: int, b: int| 0 <= a < b < r.len() implies r[a].date != r[b].date by {
            if b == l.len() {
                assert(!(0 <= a < l.len() && l[a].date == date));
            }
        }
        lemma_date_index(r, l.len() as int);
    }
}

impl AppData {
    /// The ledger's invariant: one entry per date.
    pub open spec fn wf(&self) -> bool {
        dates_unique(self@)
    }

    /// An empty ledger.
    pub fn new() -> (r: AppData)
        ensures
            r@ == Seq::<DayView>::empty(),
            r.wf(),
    {
        let r = AppData { state: Vec::new() };
        assert(r@ =~= Seq::<DayView>::empty());
        r
    }

    /// Whether the ledger holds one entry per date.
    pub fn is_well_formed(&self) -> (r: bool)
        ensures
            r == self.wf(),
    {
        let n = self.state.len();
        let mut i: usize = 0;
        while i < n
            invariant
                n == self.state@.len(),
                i <= n,
                forall|a: int, b: int| 0 <= a < i && a < b < n ==> self@[a].date != self@[b].date,
            decreases n - i,
        {
            let mut j: usize = i + 1;
            while j < n
                invariant
                    n == self.state@.len(),
                    i < n,
                    i < j <= n,
                    forall|a: int, b: int| 0 <= a < i && a < b < n ==> self@[a].date != self@[b].date,
                    forall|b: int| i < b < j ==> self@[i as int].date != self@[b].date,
                decreases n - j,
            {
                if self.state[i].date == self.state[j].date {
                    assert(self@[i as int].date == self@[j as int].date);
                    return false;
                }
                j = j + 1;
            }
            i = i + 1;
        }
        true
    }

    /// The position of the entry for `date`, if there is one.
    pub fn find_date(&self, date: &String) -> (r: Option<usize>)
        requires
            self.wf(),
        ensures
            match r {
                Some(i) => i < self@.len() && date_index(self@, date@) == i as int,
                None => !has_date(self@, date@) && date_index(self@, date@) == -1,
            },
    {
        let n = self.state.len();
        let mut i: usize = 0;
        while i < n
            invariant
                self.wf(),
                n == self.state@.len(),
                i <= n,
                forall|j: int| 0 <= j < i ==> self@[j].date != date@,
            decreases n - i,
        {
            if self.state[i].date == *date {
                proof {
                    lemma_date_index(self@, i as int);
                }
                return Some(i);
            }
            i = i + 1;
        }
        None
    }

    /// The visit count recorded for `date`, zero when the date has no entry.
    pub fn count_on(&self, date: &String) -> (r: u32)
        requires
            self.wf(),
        ensures
            r as nat == count_for(self@, date@),
    {
        match self.find_date(date) {
            Some(i) => self.state[i].counter,
            None => 0,
        }
    }

    /// Registers one granted check-in at `now`: the entry for today's date
    /// counts one more and records the check-in, or a new entry with a count
    /// of one is appended. Returns the new count for today, or `None`, with
    /// the ledger unchanged, when today's count cannot grow any further.
    pub fn find_or_create_today(&mut self, now: &Moment) -> (r: Option<u32>)
        requires
            old(self).wf(),
        ensures
            final(self).wf(),
            r.is_none() <==> count_for(old(self)@, now.date@) == u32::MAX,
            match r {
                Some(n) => {
                    &&& final(self)@ == checked_in(old(self)@, now.date@, now.time@)
                    &&& n as nat == count_for(final(self)@, now.date@)
                    &&& n as nat == count_for(old(self)@, now.date@) + 1
                },
                None => final(self)@ == old(self)@,
            },
    {
        proof {
            lemma_checked_in_unique(self@, now.date@, now.time@);
        }
        match self.find_date(&now.date) {
            Some(i) => {
                let c = self.state[i].counter;
                if c == u32::MAX {
                    return None;
                }
                let entry = AppState {
                    last_date: now.date.clone(),
                    date: self.state[i].date.clone(),
                    counter: c + 1,
                    time: now.time.clone(),
                    last_time: now.time.clone(),
                };
                let ghost before = self@;
                self.state.set(i, entry);
                assert(self@ =~= checked_in(before, now.date@, now.time@));
                Some(c + 1)
            },
            None => {
                let entry = AppState {
                    last_date: now.date.clone(),
                    date: now.date.clone(),
                    counter: 1,
                    time: now.time.clone(),
                    last_time: now.time.clone(),
                };
                let ghost before = self@;
                self.state.push(entry);
                assert(self@ =~= checked_in(before, now.date@, now.time@));
                Some(1)
            },
        }
    }

    /// A copy of the most recent entry, or `EmptyLedger` when there is none.
    pub fn latest(&self) -> (r: Result<AppState, CheckinError>)
        ensures
            self@.len() == 0 <==> r == Err::<AppState, CheckinError>(CheckinError::EmptyLedger),
            match r {
                Ok(e) => self@.len() > 0 && e@ == self@.last(),
                Err(_) => self@.len() == 0,
            },
    {
        let n = self.state.len();
        if n == 0 {
            return Err(CheckinError::EmptyLedger);
        }
        let e = &self.state[n - 1];
        Ok(e.duplicate())
    }
}

impl AppState {
    /// A field-by-field copy.
    pub fn duplicate(&self) -> (r: AppState)
        ensures
            r@ == self@,
    {
        AppState {
            last_date: self.last_date.clone(),
            date: self.date.clone(),
            counter: self.counter,
            time: self.time.clone(),
            last_time: self.last_time.clone(),
        }
    }
}

} // verus!
