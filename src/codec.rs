use vstd::prelude::*;

use crate::clock::{local_now, Moment};
use crate::error::CheckinError;
use crate::ledger::{dates_unique, AppData, AppState, DayView};

verus! {

/// One stored record: a date, its visit count and its latest check-in time.
#[derive(Clone, Debug)]
pub struct JsonState {
    pub date: String,
    pub last_count: u32,
    pub last_time: String,
}

/// The stored form of a ledger: one record per entry, in ledger order.
#[derive(Clone, Debug)]
pub struct JsonData {
    pub state: Vec<JsonState>,
}

/// The mathematical content of a [`JsonState`].
pub ghost struct RecordView {
    pub date: Seq<char>,
    pub count: nat,
    pub time: Seq<char>,
}

impl View for JsonState {
    type V = RecordView;

    open spec fn view(&self) -> RecordView {
        RecordView { date: self.date@, count: self.last_count as nat, time: self.last_time@ }
    }
}

impl View for JsonData {
    type V = Seq<RecordView>;

    open spec fn view(&self) -> Seq<RecordView> {
        self.state@.map_values(|r: JsonState| r@)
    }
}

/// The record that stores a ledger entry.
pub open spec fn record_of(d: DayView) -> RecordView {
    RecordView { date: d.date, count: d.counter, time: d.time }
}

/// The ledger entry that a record restores: its check-in date is its date.
pub open spec fn day_of(r: RecordView) -> DayView {
    DayView { last_date: r.date, date: r.date, counter: r.count, time: r.time, last_time: r.time }
}

/// The snapshot of a ledger.
pub open spec fn encoded(l: Seq<DayView>) -> Seq<RecordView> {
    l.map_values(|d: DayView| record_of(d))
}

/// The ledger that a snapshot restores.
pub open spec fn decoded(s: Seq<RecordView>) -> Seq<DayView> {
    s.map_values(|r: RecordView| day_of(r))
}

/// No two records share a date.
pub open spec fn records_unique(s: Seq<RecordView>) -> bool {
    forall|i: int, j: int| 0 <= i < j < s.len() ==> s[i].date != s[j].date
}

/// An entry whose check-in date and time are those of the entry itself, as
/// every entry that a check-in or a restore writes is.
pub open spec fn day_consistent(d: DayView) -> bool {
    d.last_date == d.date && d.last_time == d.time
}

/// The snapshot of a single fresh record for the day of `now`, with a count of zero.
pub open spec fn starting_snapshot(now_date: Seq<char>, now_time: Seq<char>) -> Seq<RecordView> {
    seq![RecordView { date: now_date, count: 0, time: now_time }]
}

impl JsonState {
    /// The record of an entry.
    pub fn from_entry(e: &AppState) -> (r: JsonState)
        ensures
            r@ == record_of(e@),
    {
        JsonState { date: e.date.clone(), last_count: e.counter, last_time: e.time.clone() }
    }

    /// The entry that this record restores.
    pub fn to_entry(&self) -> (r: AppState)
        ensures
            r@ == day_of(self@),
    {
        AppState {
            last_date: self.date.clone(),
            date: self.date.clone(),
            counter: self.last_count,
            time: self.last_time.clone(),
            last_time: self.last_time.clone(),
        }
    }

    /// A record for the day of `now` with a count of zero.
    pub fn starting_at(now: &Moment) -> (r: JsonState)
        ensures
            r@ == (RecordView { date: now.date@, count: 0, time: now.time@ }),
    {
        JsonState { date: now.date.clone(), last_count: 0, last_time: now.time.clone() }
    }
}

impl Default for JsonState {
    /// A record for today, by the local clock, with a count of zero.
    fn default() -> (r: JsonState)
        ensures
            r.last_count == 0,
            r.date@.len() >= 10,
            r.last_time@.len() >= 8,
    {
        JsonState::starting_at(&local_now())
    }
}

impl JsonData {
    /// A snapshot that holds one record for the day of `now`, with a count of zero.
    pub fn starting_at(now: &Moment) -> (r: JsonData)
        ensures
            r@ == starting_snapshot(now.date@, now.time@),
    {
        let r = JsonData { state: vec![JsonState::starting_at(now)] };
        assert(r@ =~= starting_snapshot(now.date@, now.time@));
        r
    }

    /// Whether no two records share a date.
    pub fn dates_distinct(&self) -> (r: bool)
        ensures
            r == records_unique(self@),
    {
        let n = self.state.len();
        let mut i: usize = 0;
        while i < n
            invariant
                n == self.state@.len(),
                i <= n,
                forall|a: int, b: int| 0 <= a < i && a < b < n ==> self@[a].date != self@[b].date,
            decreases n - i,
        {
            let mut j: usize = i + 1;
            while j < n
                invariant
                    n == self.state@.len(),
                    i < n,
                    i < j <= n,
                    forall|a: int, b: int| 0 <= a < i && a < b < n ==> self@[a].date != self@[b].date,
                    forall|b: int| i < b < j ==> self@[i as int].date != self@[b].date,
                decreases n - j,
            {
                if self.state[i].date == self.state[j].date {
                    assert(self@[i as int].date == self@[j as int].date);
                    return false;
                }
                j = j + 1;
            }
            i = i + 1;
        }
        true
    }
}

impl Default for JsonData {
    /// A snapshot that holds one record for today, by the local clock, with a
    /// count of zero.
    fn default() -> (r: JsonData)
        ensures
            r@.len() == 1,
            r@[0].count == 0,
            r@[0].date.len() >= 10,
            r@[0].time.len() >= 8,
    {
        JsonData::starting_at(&local_now())
    }
}

/// A stored record as read from an older or partial snapshot: any field may
/// be missing.
#[derive(Clone, Debug)]
pub struct PartialRecord {
    pub date: Option<String>,
    pub last_count: Option<u32>,
    pub last_time: Option<String>,
}

/// The record that a partial record stands for at `now`: a missing date is
/// today's, a missing count is zero, a missing time is the current time.
pub open spec fn filled_record(
    date: Option<Seq<char>>,
    count: Option<nat>,
    time: Option<Seq<char>>,
    now_date: Seq<char>,
    now_time: Seq<char>,
) -> RecordView {
    RecordView {
        date: match date {
            Some(d) => d,
            None => now_date,
        },
        count: match count {
            Some(c) => c,
            None => 0,
        },
        time: match time {
            Some(t) => t,
            None => now_time,
        },
    }
}

impl PartialRecord {
    /// The record filled in from `now` where fields are missing.
    pub open spec fn filled(&self, now_date: Seq<char>, now_time: Seq<char>) -> RecordView {
        filled_record(
            match self.date {
                Some(d) => Some(d@),
                None => None,
            },
            match self.last_count {
                Some(c) => Some(c as nat),
                None => None,
            },
            match self.last_time {
                Some(t) => Some(t@),
                None => None,
            },
            now_date,
            now_time,
        )
    }

    /// Completes this record: a missing date becomes the date of `now`, a
    /// missing count zero, and a missing time the time of `now`.
    pub fn fill(&self, now: &Moment) -> (r: JsonState)
        ensures
            r@ == self.filled(now.date@, now.time@),
    {
        let date = match &self.date {
            Some(d) => d.clone(),
            None => now.date.clone(),
        };
        let last_count: u32 = match self.last_count {
            Some(c) => c,
            None => 0,
        };
        let last_time = match &self.last_time {
            Some(t) => t.clone(),
            None => now.time.clone(),
        };
        JsonState { date, last_count, last_time }
    }
}

/// Completes every record of a partial snapshot from `now`, in order.
pub fn fill_snapshot(records: &Vec<PartialRecord>, now: &Moment) -> (r: JsonData)
    ensures
        r@.len() == records@.len(),
        forall|k: int|
            0 <= k < records@.len() ==> #[trigger] r@[k] == records@[k].filled(
                now.date@,
                now.time@,
            ),
{
    let n = records.len();
    let mut out: Vec<JsonState> = Vec::new();
    let mut i: usize = 0;
    while i < n
        invariant
            n == records@.len(),
            i <= n,
            out@.len() == i,
            forall|k: int|
                0 <= k < i ==> (#[trigger] out@[k])@ == records@[k].filled(now.date@, now.time@),
        decreases n - i,
    {
        out.push(records[i].fill(now));
        i = i + 1;
    }
    let r = JsonData { state: out };
    assert forall|k: int| 0 <= k < records@.len() implies #[trigger] r@[k] == records@[k].filled(
        now.date@,
        now.time@,
    ) by {
        assert(r@[k] == out@[k]@);
    }
    r
}

/// The snapshot of a ledger: one record per entry, in ledger order.
pub fn encode(ledger: &AppData) -> (r: JsonData)
    ensures
        r@ == encoded(ledger@),
{
    let n = ledger.state.len();
    let mut out: Vec<JsonState> = Vec::new();
    let mut i: usize = 0;
    while i < n
        invariant
            n == ledger.state@.len(),
            i <= n,
            out@.len() == i,
            forall|k: int| 0 <= k < i ==> (#[trigger] out@[k])@ == record_of(ledger@[k]),
        decreases n - i,
    {
        out.push(JsonState::from_entry(&ledger.state[i]));
        i = i + 1;
    }
    let r = JsonData { state: out };
    assert(r@ =~= encoded(ledger@));
    r
}

/// The ledger that a snapshot restores, or `MalformedSnapshot` when two of
/// its records share a date.
pub fn decode(snapshot: &JsonData) -> (r: Result<AppData, CheckinError>)
    ensures
        match r {
            Ok(l) => records_unique(snapshot@) && l@ == decoded(snapshot@) && l.wf(),
            Err(e) => !records_unique(snapshot@) && e == CheckinError::MalformedSnapshot,
        },
{
    if !snapshot.dates_distinct() {
        return Err(CheckinError::MalformedSnapshot);
    }
    let n = snapshot.state.len();
    let mut out: Vec<AppState> = Vec::new();
    let mut i: usize = 0;
    while i < n
        invariant
            n == snapshot.state@.len(),
            i <= n,
            out@.len() == i,
            forall|k: int| 0 <= k < i ==> (#[trigger] out@[k])@ == day_of(snapshot@[k]),
        decreases n - i,
    {
        out.push(snapshot.state[i].to_entry());
        i = i + 1;
    }
    let l = AppData { state: out };
    assert(l@ =~= decoded(snapshot@));
    proof {
        lemma_decoded_unique(snapshot@);
    }
    Ok(l)
}

/// Restoring a snapshot whose dates are unique gives a ledger whose dates are unique.
pub proof fn lemma_decoded_unique(s: Seq<RecordView>)
    requires
        records_unique(s),
    ensures
        dates_unique(decoded(s)),
{
    let l = decoded(s);
    assert forall|i: int, j: int| 0 <= i < j < l.len() implies l[i].date != l[j].date by {
        assert(l[i].date == s[i].date);
        assert(l[j].date == s[j].date);
    }
}

/// Storing a ledger and restoring it gives back every entry's date, count
/// and check-in time, in order; an entry whose check-in date and time are
/// its own comes back whole.
pub proof fn lemma_round_trip(l: Seq<DayView>)
    requires
        dates_unique(l),
    ensures
        records_unique(encoded(l)),
        decoded(encoded(l)).len() == l.len(),
        forall|i: int|
            0 <= i < l.len() ==> {
                &&& (#[trigger] decoded(encoded(l))[i]).date == l[i].date
                &&& decoded(encoded(l))[i].counter == l[i].counter
                &&& decoded(encoded(l))[i].time == l[i].time
            },
        encoded(decoded(encoded(l))) == encoded(l),
        (forall|i: int| 0 <= i < l.len() ==> day_consistent(#[trigger] l[i])) ==> decoded(
            encoded(l),
        ) == l,
{
    let e = encoded(l);
    assert forall|i: int, j: int| 0 <= i < j < e.len() implies e[i].date != e[j].date by {
        assert(e[i].date == l[i].date);
        assert(e[j].date == l[j].date);
    }
    assert(encoded(decoded(e)) =~= e);
    if forall|i: int| 0 <= i < l.len() ==> day_consistent(#[trigger] l[i]) {
        assert(decoded(e) =~= l);
    }
}

} // verus!
