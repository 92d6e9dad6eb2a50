//! One decoded result batch: the race and season it belongs to and one row
//! per driver. Rows arrive with optional fields; normalization fills the
//! defaults in exactly one place, turning a raw row into a record with every
//! field required.
use vstd::prelude::*;

verus! {

/// A decoded result document: one race event with its per-driver rows,
/// immutable once built and consumed once by ingestion.
#[derive(Debug, Clone)]
pub struct RaceResults {
    pub season: i32,
    pub race_id: i32,
    pub results: Vec<PersonRaceResult>,
}

/// One driver's decoded outcome. Absent optional fields are distinct from
/// fields present with their default value; defaults are applied only by
/// normalization.
#[derive(Debug, Clone, Copy)]
pub struct PersonRaceResult {
    pub driver_id: i32,
    pub seat_id: Option<i32>,
    pub position: i32,
    pub bot_result: Option<bool>,
    pub pole: Option<bool>,
    pub leading_lap: Option<bool>,
    pub fastest_lap: Option<bool>,
    pub qualy_result: Option<i32>,
}

/// A normalized record: every optional field of the decoded row replaced by
/// its value or its default (flags false, qualifying position 20).
#[derive(Debug, Clone, Copy, PartialEq, Eq, Structural)]
pub struct RaceResult {
    pub position: i32,
    pub bot_result: bool,
    pub pole: bool,
    pub leading_lap: bool,
    pub fastest_lap: bool,
    pub qualy_result: i32,
}

/// The normalized form of a decoded row: flags default to false and the
/// qualifying position to 20, the worst-case default.
pub open spec fn normalized(row: PersonRaceResult) -> RaceResult {
    RaceResult {
        position: row.position,
        bot_result: row.bot_result.unwrap_or(false),
        pole: row.pole.unwrap_or(false),
        leading_lap: row.leading_lap.unwrap_or(false),
        fastest_lap: row.fastest_lap.unwrap_or(false),
        qualy_result: row.qualy_result.unwrap_or(20),
    }
}

impl From<PersonRaceResult> for RaceResult {
    fn from(value: PersonRaceResult) -> (normalized_row: RaceResult)
        ensures
            normalized_row == normalized(value),
    {
        RaceResult {
            position: value.position,
            bot_result: value.bot_result.unwrap_or(false),
            pole: value.pole.unwrap_or(false),
            leading_lap: value.leading_lap.unwrap_or(false),
            fastest_lap: value.fastest_lap.unwrap_or(false),
            qualy_result: value.qualy_result.unwrap_or(20),
        }
    }
}

impl vstd::std_specs::convert::FromSpecImpl<PersonRaceResult> for RaceResult {
    open spec fn obeys_from_spec() -> bool {
        true
    }

    open spec fn from_spec(value: PersonRaceResult) -> RaceResult {
        normalized(value)
    }
}

} // verus!
