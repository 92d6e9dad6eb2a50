use race_ingest::batch::{PersonRaceResult, RaceResult, RaceResults};
use race_ingest::store::{max_seat, resolve_seat, ResultLink, SeatAssignment, Store};
use race_ingest::{mode_from_flag, ConfigMode, LibError};

fn row(driver_id: i32, seat_id: Option<i32>, position: i32) -> PersonRaceResult {
    PersonRaceResult {
        driver_id,
        seat_id,
        position,
        bot_result: None,
        pole: None,
        leading_lap: None,
        fastest_lap: None,
        qualy_result: None,
    }
}

#[test]
fn normalization_fills_defaults() {
    let normalized = RaceResult::from(row(7, Some(9), 4));
    assert_eq!(normalized.position, 4);
    assert!(!normalized.bot_result);
    assert!(!normalized.pole);
    assert!(!normalized.leading_lap);
    assert!(!normalized.fastest_lap);
    assert_eq!(normalized.qualy_result, 20);
}

#[test]
fn normalization_keeps_present_values() {
    let mut r = row(7, Some(9), 4);
    r.bot_result = Some(true);
    r.pole = Some(true);
    r.qualy_result = Some(3);
    let normalized = RaceResult::from(r);
    assert!(normalized.bot_result);
    assert!(normalized.pole);
    assert!(!normalized.leading_lap);
    assert_eq!(normalized.qualy_result, 3);
}

#[test]
fn missing_race_rejects_batch_unchanged() {
    let mut store = Store::new(vec![1, 2], vec![SeatAssignment { driver_id: 7, seat_id: 9 }]);
    let before = store.clone();
    let batch = RaceResults { season: 1, race_id: 5, results: vec![row(7, Some(9), 1)] };
    let outcome = store.ingest(&batch);
    assert_eq!(outcome, Err(LibError::RaceDoesntExist));
    assert_eq!(store, before);
}

#[test]
fn one_bad_seat_rejects_whole_batch_unchanged() {
    let mut store = Store::new(
        vec![3],
        vec![
            SeatAssignment { driver_id: 7, seat_id: 9 },
            SeatAssignment { driver_id: 8, seat_id: 2 },
        ],
    );
    let before = store.clone();
    let batch = RaceResults {
        season: 1,
        race_id: 3,
        results: vec![row(7, Some(9), 1), row(8, Some(4), 2), row(8, Some(2), 3)],
    };
    let outcome = store.ingest(&batch);
    assert_eq!(outcome, Err(LibError::SeatNotFound));
    assert_eq!(store, before);
}

#[test]
fn driver_without_assignment_rejects_batch() {
    let mut store = Store::new(vec![3], vec![SeatAssignment { driver_id: 7, seat_id: 9 }]);
    let before = store.clone();
    let batch = RaceResults { season: 1, race_id: 3, results: vec![row(6, None, 1)] };
    let outcome = store.ingest(&batch);
    assert_eq!(outcome, Err(LibError::SeatNotFound));
    assert_eq!(store, before);
}

#[test]
fn absent_seat_resolves_to_highest_assigned() {
    let mut store = Store::new(
        vec![3],
        vec![
            SeatAssignment { driver_id: 7, seat_id: 5 },
            SeatAssignment { driver_id: 7, seat_id: 9 },
        ],
    );
    let batch = RaceResults { season: 1, race_id: 3, results: vec![row(7, None, 1)] };
    assert_eq!(store.ingest(&batch), Ok(()));
    assert_eq!(store.links.len(), 1);
    assert_eq!(store.links[0].seat_id, 9);

    // The same resolution, assignment order reversed.
    let mut store2 = Store::new(
        vec![3],
        vec![
            SeatAssignment { driver_id: 7, seat_id: 9 },
            SeatAssignment { driver_id: 7, seat_id: 5 },
        ],
    );
    assert_eq!(store2.ingest(&batch), Ok(()));
    assert_eq!(store2.links[0].seat_id, 9);
}

#[test]
fn explicit_seat_wins_over_assignments() {
    let mut store = Store::new(
        vec![3],
        vec![
            SeatAssignment { driver_id: 7, seat_id: 5 },
            SeatAssignment { driver_id: 7, seat_id: 9 },
        ],
    );
    let batch = RaceResults { season: 1, race_id: 3, results: vec![row(7, Some(5), 1)] };
    assert_eq!(store.ingest(&batch), Ok(()));
    assert_eq!(store.links[0].seat_id, 5);
}

#[test]
fn explicit_seat_is_still_validated() {
    // Seat 4 is assigned to nobody: an explicit seat_id is not trusted.
    let mut store = Store::new(vec![3], vec![SeatAssignment { driver_id: 7, seat_id: 9 }]);
    let before = store.clone();
    let batch = RaceResults { season: 1, race_id: 3, results: vec![row(7, Some(4), 1)] };
    assert_eq!(store.ingest(&batch), Err(LibError::SeatNotFound));
    assert_eq!(store, before);
}

#[test]
fn valid_batch_stores_one_row_and_one_link() {
    let mut store = Store::new(vec![3], vec![SeatAssignment { driver_id: 7, seat_id: 9 }]);
    let mut r = row(7, Some(9), 1);
    r.pole = Some(true);
    let batch = RaceResults { season: 2, race_id: 3, results: vec![r] };
    assert_eq!(store.ingest(&batch), Ok(()));

    assert_eq!(store.results.len(), 1);
    let stored = store.results[0];
    assert_eq!(stored.position, 1);
    assert!(stored.pole);
    assert!(!stored.bot_result);
    assert!(!stored.leading_lap);
    assert!(!stored.fastest_lap);
    assert_eq!(stored.qualy_result, 20);
    assert_eq!(stored.season, 2);
    assert_eq!(stored.race_id, 3);

    assert_eq!(store.links.len(), 1);
    assert_eq!(store.links[0], ResultLink { seat_id: 9, result_id: stored.result_id });
}

#[test]
fn reingesting_same_batch_stores_second_distinct_result() {
    let mut store = Store::new(vec![3], vec![SeatAssignment { driver_id: 7, seat_id: 9 }]);
    let batch = RaceResults { season: 2, race_id: 3, results: vec![row(7, Some(9), 1)] };
    assert_eq!(store.ingest(&batch), Ok(()));
    assert_eq!(store.ingest(&batch), Ok(()));
    assert_eq!(store.results.len(), 2);
    assert_eq!(store.links.len(), 2);
    assert_ne!(store.results[0].result_id, store.results[1].result_id);
    assert_eq!(store.links[0].result_id, store.results[0].result_id);
    assert_eq!(store.links[1].result_id, store.results[1].result_id);
}

#[test]
fn duplicate_driver_rows_are_each_processed() {
    let mut store = Store::new(vec![3], vec![SeatAssignment { driver_id: 7, seat_id: 9 }]);
    let batch =
        RaceResults { season: 1, race_id: 3, results: vec![row(7, Some(9), 1), row(7, None, 2)] };
    assert_eq!(store.ingest(&batch), Ok(()));
    assert_eq!(store.results.len(), 2);
    assert_eq!(store.links[0].seat_id, 9);
    assert_eq!(store.links[1].seat_id, 9);
}

#[test]
fn empty_batch_commits_with_no_rows() {
    let mut store = Store::new(vec![3], vec![]);
    let batch = RaceResults { season: 1, race_id: 3, results: vec![] };
    assert_eq!(store.ingest(&batch), Ok(()));
    assert_eq!(store.results.len(), 0);
    assert_eq!(store.links.len(), 0);
}

#[test]
fn resolve_seat_picks_explicit_or_maximum() {
    assert_eq!(resolve_seat(Some(4), &vec![5, 9]), Ok(4));
    assert_eq!(resolve_seat(None, &vec![5, 9]), Ok(9));
    assert_eq!(resolve_seat(None, &vec![9, 5]), Ok(9));
    assert_eq!(resolve_seat(None, &vec![]), Err(LibError::SeatNotFound));
    assert_eq!(max_seat(&vec![3, 7, 7, 1]), Some(7));
    assert_eq!(max_seat(&vec![]), None);
}

#[test]
fn mode_flag_accepts_r_either_case() {
    assert_eq!(mode_from_flag("r"), Some(ConfigMode::RaceResult));
    assert_eq!(mode_from_flag("R"), Some(ConfigMode::RaceResult));
    assert_eq!(mode_from_flag("x"), None);
    assert_eq!(mode_from_flag("rr"), None);
    assert_eq!(mode_from_flag(""), None);
}
