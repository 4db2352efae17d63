use visit_counter::clock::{Instant, Moment};
use visit_counter::codec::{decode, encode, fill_snapshot, JsonData, JsonState, PartialRecord};
use visit_counter::error::CheckinError;
use visit_counter::cooldown::{evaluate, evaluate_session, parse_marker, Verdict, COOLDOWN_NANOS};
use visit_counter::ledger::{AppData, AppState};
use visit_counter::service::{initial_ledger, register_checkin};

fn moment(secs: i64, date: &str, time: &str, stamp: &str) -> Moment {
    Moment {
        instant: Instant { secs, nanos: 0 },
        date: date.to_string(),
        time: time.to_string(),
        stamp: stamp.to_string(),
    }
}

fn march_first_ten() -> Moment {
    moment(1709287200, "2024-03-01", "10:00:00", "2024-03-01T10:00:00+00:00")
}

fn march_first_fifteen() -> Moment {
    moment(1709305200, "2024-03-01", "15:00:00", "2024-03-01T15:00:00+00:00")
}

fn march_second_nine() -> Moment {
    moment(1709370000, "2024-03-02", "09:00:00", "2024-03-02T09:00:00+00:00")
}

#[test]
fn first_checkin_on_empty_ledger_is_granted() {
    let mut ledger = AppData::new();
    let out = register_checkin(&mut ledger, None, &march_first_ten()).unwrap();
    assert!(out.granted);
    assert_eq!(out.visit_count, 1);
    assert_eq!(out.marker.as_deref(), Some("2024-03-01T10:00:00+00:00"));
    assert_eq!(ledger.state.len(), 1);
    assert_eq!(ledger.state[0].date, "2024-03-01");
    assert_eq!(ledger.state[0].counter, 1);
}

#[test]
fn retry_five_hours_later_is_denied() {
    let mut ledger = AppData::new();
    let first = register_checkin(&mut ledger, None, &march_first_ten()).unwrap();
    let marker = first.marker.unwrap();
    let again = register_checkin(&mut ledger, Some(&marker), &march_first_fifteen()).unwrap();
    assert!(!again.granted);
    assert_eq!(again.visit_count, 1);
    assert_eq!(again.marker, None);
    assert_eq!(ledger.state.len(), 1);
    assert_eq!(ledger.state[0].counter, 1);
}

#[test]
fn retry_next_day_is_granted_with_new_entry() {
    let mut ledger = AppData::new();
    let first = register_checkin(&mut ledger, None, &march_first_ten()).unwrap();
    let marker = first.marker.unwrap();
    let denied = register_checkin(&mut ledger, Some(&marker), &march_first_fifteen()).unwrap();
    assert!(!denied.granted);
    let next = register_checkin(&mut ledger, Some(&marker), &march_second_nine()).unwrap();
    assert!(next.granted);
    assert_eq!(next.visit_count, 1);
    assert_eq!(next.marker.as_deref(), Some("2024-03-02T09:00:00+00:00"));
    assert_eq!(ledger.state.len(), 2);
    assert_eq!(ledger.state[0].date, "2024-03-01");
    assert_eq!(ledger.state[0].counter, 1);
    assert_eq!(ledger.state[1].date, "2024-03-02");
    assert_eq!(ledger.state[1].counter, 1);
}

fn snapshot_from_json(text: &str) -> JsonData {
    let value: serde_json::Value = serde_json::from_str(text).unwrap();
    let mut state = Vec::new();
    for record in value["state"].as_array().unwrap() {
        state.push(JsonState {
            date: record["date"].as_str().unwrap().to_string(),
            last_count: record["last_count"].as_u64().unwrap() as u32,
            last_time: record["last_time"].as_str().unwrap().to_string(),
        });
    }
    JsonData { state }
}

#[test]
fn restored_snapshot_keeps_old_entry() {
    let snapshot = snapshot_from_json(
        r#"{"state":[{"date":"2024-02-01","last_count":5,"last_time":"08:30:00"}]}"#,
    );
    let mut ledger = initial_ledger(Ok(snapshot), &march_first_ten());
    let latest = ledger.latest().unwrap();
    assert_eq!(latest.date, "2024-02-01");
    assert_eq!(latest.counter, 5);
    assert_eq!(latest.last_time, "08:30:00");
    let out = register_checkin(&mut ledger, None, &march_first_ten()).unwrap();
    assert!(out.granted);
    assert_eq!(out.visit_count, 1);
    assert_eq!(ledger.state.len(), 2);
    assert_eq!(ledger.state[0].date, "2024-02-01");
    assert_eq!(ledger.state[0].counter, 5);
    assert_eq!(ledger.state[1].date, "2024-03-01");
    assert_eq!(ledger.state[1].counter, 1);
}

#[test]
fn missing_snapshot_starts_fresh_ledger() {
    let now = march_first_ten();
    let ledger = initial_ledger(Err(CheckinError::NotFound), &now);
    assert_eq!(ledger.state.len(), 1);
    assert_eq!(ledger.state[0].date, "2024-03-01");
    assert_eq!(ledger.state[0].counter, 0);
    assert_eq!(ledger.state[0].time, "10:00:00");
    let latest = ledger.latest().unwrap();
    assert_eq!(latest.counter, 0);
}

#[test]
fn fresh_ledger_counts_first_checkin_as_one() {
    let now = march_first_ten();
    let mut ledger = initial_ledger(Err(CheckinError::NotFound), &now);
    let out = register_checkin(&mut ledger, None, &now).unwrap();
    assert_eq!(out.visit_count, 1);
    assert_eq!(ledger.state.len(), 1);
}

#[test]
fn unreadable_snapshot_starts_fresh_ledger() {
    let now = march_first_ten();
    let ledger = initial_ledger(Err(CheckinError::IoError), &now);
    assert_eq!(ledger.state.len(), 1);
    assert_eq!(ledger.state[0].counter, 0);
}

#[test]
fn snapshot_with_repeated_date_is_malformed() {
    let snapshot = snapshot_from_json(
        r#"{"state":[{"date":"2024-02-01","last_count":5,"last_time":"a"},{"date":"2024-02-01","last_count":2,"last_time":"b"}]}"#,
    );
    assert_eq!(decode(&snapshot).unwrap_err(), CheckinError::MalformedSnapshot);
    let ledger = initial_ledger(Ok(snapshot), &march_first_ten());
    assert_eq!(ledger.state.len(), 1);
    assert_eq!(ledger.state[0].date, "2024-03-01");
    assert_eq!(ledger.state[0].counter, 0);
}

#[test]
fn many_granted_checkins_count_exactly() {
    let mut ledger = AppData::new();
    let now = march_first_ten();
    for k in 1..=7u32 {
        let out = register_checkin(&mut ledger, None, &now).unwrap();
        assert!(out.granted);
        assert_eq!(out.visit_count, k);
    }
    assert_eq!(ledger.state.len(), 1);
    assert_eq!(ledger.state[0].counter, 7);
}

#[test]
fn cooldown_grants_without_marker() {
    let now = Instant { secs: 1709287200, nanos: 0 };
    assert_eq!(evaluate(None, now), Verdict::Grant);
}

#[test]
fn cooldown_boundary_is_twenty_two_hours() {
    let marker = Instant { secs: 1709287200, nanos: 0 };
    let at = Instant { secs: 1709287200 + 22 * 3600, nanos: 0 };
    assert_eq!(evaluate(Some(marker), at), Verdict::Grant);
    let before = Instant { secs: 1709287200 + 22 * 3600 - 1, nanos: 999_999_999 };
    assert_eq!(evaluate(Some(marker), before), Verdict::Deny);
    assert_eq!(COOLDOWN_NANOS, 22 * 3600 * 1_000_000_000);
}

#[test]
fn cooldown_denies_marker_in_future() {
    let marker = Instant { secs: 1709370000, nanos: 0 };
    let now = Instant { secs: 1709287200, nanos: 0 };
    assert_eq!(evaluate(Some(marker), now), Verdict::Deny);
}

#[test]
fn marker_text_is_parsed_with_offset() {
    let utc = parse_marker("2024-03-01T10:00:00Z").unwrap();
    assert_eq!(utc, Instant { secs: 1709287200, nanos: 0 });
    let shifted = parse_marker("2024-03-01T10:00:00.25+01:00").unwrap();
    assert_eq!(shifted, Instant { secs: 1709283600, nanos: 250_000_000 });
}

#[test]
fn malformed_marker_is_reported_and_fails_open() {
    assert_eq!(parse_marker("yesterday").unwrap_err(), CheckinError::MalformedMarker);
    let now = Instant { secs: 1709287200, nanos: 0 };
    assert_eq!(evaluate_session(Some("yesterday"), now), Verdict::Grant);
    assert_eq!(evaluate_session(Some("2024-03-01T05:00:00Z"), now), Verdict::Deny);
}

#[test]
fn malformed_marker_session_is_granted_checkin() {
    let mut ledger = AppData::new();
    let out = register_checkin(&mut ledger, Some("not a time"), &march_first_ten()).unwrap();
    assert!(out.granted);
    assert_eq!(out.visit_count, 1);
}

#[test]
fn round_trip_keeps_every_entry() {
    let mut ledger = AppData::new();
    register_checkin(&mut ledger, None, &march_first_ten()).unwrap();
    register_checkin(&mut ledger, None, &march_first_fifteen()).unwrap();
    register_checkin(&mut ledger, None, &march_second_nine()).unwrap();
    let snapshot = encode(&ledger);
    assert_eq!(snapshot.state.len(), 2);
    assert_eq!(snapshot.state[0].date, "2024-03-01");
    assert_eq!(snapshot.state[0].last_count, 2);
    assert_eq!(snapshot.state[0].last_time, "15:00:00");
    let back = decode(&snapshot).unwrap();
    assert_eq!(back.state.len(), ledger.state.len());
    for (a, b) in back.state.iter().zip(ledger.state.iter()) {
        assert_eq!(a.date, b.date);
        assert_eq!(a.counter, b.counter);
        assert_eq!(a.time, b.time);
        assert_eq!(a.last_time, b.last_time);
        assert_eq!(a.last_date, b.last_date);
    }
}

#[test]
fn latest_of_empty_ledger_fails() {
    let ledger = AppData::new();
    assert_eq!(ledger.latest().unwrap_err(), CheckinError::EmptyLedger);
}

#[test]
fn full_counter_reports_counter_full() {
    let mut ledger = AppData {
        state: vec![AppState {
            last_date: "2024-03-01".to_string(),
            date: "2024-03-01".to_string(),
            counter: u32::MAX,
            time: "09:00:00".to_string(),
            last_time: "09:00:00".to_string(),
        }],
    };
    let err = register_checkin(&mut ledger, None, &march_first_ten()).unwrap_err();
    assert_eq!(err, CheckinError::CounterFull);
    assert_eq!(ledger.state[0].counter, u32::MAX);
    assert_eq!(ledger.state[0].time, "09:00:00");
}

#[test]
fn count_on_reads_todays_count() {
    let mut ledger = AppData::new();
    let d = "2024-03-01".to_string();
    assert_eq!(ledger.count_on(&d), 0);
    register_checkin(&mut ledger, None, &march_first_ten()).unwrap();
    assert_eq!(ledger.count_on(&d), 1);
    assert_eq!(ledger.find_date(&d), Some(0));
    assert_eq!(ledger.find_date(&"2024-03-02".to_string()), None);
}

#[test]
fn default_snapshot_has_one_zero_record() {
    let d = JsonData::default();
    assert_eq!(d.state.len(), 1);
    assert_eq!(d.state[0].last_count, 0);
    assert!(d.state[0].date.len() >= 10);
    assert!(d.state[0].last_time.len() >= 8);
    let s = JsonState::default();
    assert_eq!(s.last_count, 0);
    assert!(s.date.len() >= 10);
    assert!(s.last_time.len() >= 8);
}

#[test]
fn partial_records_are_filled_from_now() {
    let records = vec![
        PartialRecord {
            date: Some("2024-02-01".to_string()),
            last_count: Some(5),
            last_time: Some("08:30:00".to_string()),
        },
        PartialRecord { date: Some("2024-02-02".to_string()), last_count: None, last_time: None },
        PartialRecord { date: None, last_count: Some(3), last_time: None },
    ];
    let snapshot = fill_snapshot(&records, &march_first_ten());
    assert_eq!(snapshot.state.len(), 3);
    assert_eq!(snapshot.state[0].date, "2024-02-01");
    assert_eq!(snapshot.state[0].last_count, 5);
    assert_eq!(snapshot.state[0].last_time, "08:30:00");
    assert_eq!(snapshot.state[1].date, "2024-02-02");
    assert_eq!(snapshot.state[1].last_count, 0);
    assert_eq!(snapshot.state[1].last_time, "10:00:00");
    assert_eq!(snapshot.state[2].date, "2024-03-01");
    assert_eq!(snapshot.state[2].last_count, 3);
    assert_eq!(snapshot.state[2].last_time, "10:00:00");
    let ledger = initial_ledger(Ok(snapshot), &march_first_ten());
    assert_eq!(ledger.state.len(), 3);
    assert_eq!(ledger.count_on(&"2024-02-01".to_string()), 5);
}

#[test]
fn repeated_dates_make_ledger_ill_formed() {
    let mut ledger = AppData::new();
    assert!(ledger.is_well_formed());
    register_checkin(&mut ledger, None, &march_first_ten()).unwrap();
    register_checkin(&mut ledger, None, &march_second_nine()).unwrap();
    assert!(ledger.is_well_formed());
    let copy = ledger.state[0].duplicate();
    ledger.state.push(copy);
    assert!(!ledger.is_well_formed());
}
