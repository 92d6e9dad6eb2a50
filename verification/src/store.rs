//! The relational store and the ingestion engine. The store holds the four
//! tables the engine touches: races (existence only), seat assignments
//! (driver-to-seat, many-to-many), stored results, and the join records that
//! link each stored result to exactly one seat. Ingestion validates the
//! whole batch against the store and then records it atomically: either
//! every row of the batch is written or the store is left unchanged.
use vstd::prelude::*;

use crate::LibError;
use crate::batch::{PersonRaceResult, RaceResult, RaceResults, normalized};

verus! {

/// One row of the seat-assignment table: the given driver drives in the
/// given seat.
#[derive(Debug, Clone, Copy, PartialEq, Eq, Structural)]
pub struct SeatAssignment {
    pub driver_id: i32,
    pub seat_id: i32,
}

/// One persisted result row: the normalized fields plus the season and race
/// they belong to and a generated identifier.
#[derive(Debug, Clone, Copy, PartialEq, Eq, Structural)]
pub struct StoredResult {
    pub result_id: i32,
    pub position: i32,
    pub pole: bool,
    pub leading_lap: bool,
    pub fastest_lap: bool,
    pub qualy_result: i32,
    pub season: i32,
    pub race_id: i32,
    pub bot_result: bool,
}

/// One row of the join table: the stored result with this identifier is
/// credited to this seat.
#[derive(Debug, Clone, Copy, PartialEq, Eq, Structural)]
pub struct ResultLink {
    pub seat_id: i32,
    pub result_id: i32,
}

/// A race exists when its identifier appears in the race table.
pub open spec fn race_exists_in(races: Seq<i32>, race_id: i32) -> bool {
    races.contains(race_id)
}

/// A seat exists when some assignment row carries its identifier,
/// independent of which driver the row names.
pub open spec fn seat_exists_in(seats: Seq<SeatAssignment>, seat_id: i32) -> bool {
    exists|k: int| 0 <= k < seats.len() && (#[trigger] seats[k]).seat_id == seat_id
}

/// The seat identifiers assigned to one driver, in table order.
pub open spec fn assignments_of(seats: Seq<SeatAssignment>, driver_id: i32) -> Seq<i32>
    decreases seats.len(),
{
    if seats.len() == 0 {
        Seq::empty()
    } else {
        let rest = assignments_of(seats.drop_last(), driver_id);
        if seats.last().driver_id == driver_id {
            rest.push(seats.last().seat_id)
        } else {
            rest
        }
    }
}

/// The numerically largest identifier in a sequence, or None when it is
/// empty.
pub open spec fn max_of(ids: Seq<i32>) -> Option<i32>
    decreases ids.len(),
{
    if ids.len() == 0 {
        None
    } else {
        match max_of(ids.drop_last()) {
            None => Some(ids.last()),
            Some(m) => if ids.last() >= m {
                Some(ids.last())
            } else {
                Some(m)
            },
        }
    }
}

/// The seat a row is credited to: the explicitly supplied seat when there is
/// one, otherwise the highest-numbered seat among the driver's assignments;
/// None when nothing was supplied and the driver has no assignment.
pub open spec fn resolved_from(explicit: Option<i32>, assigned: Seq<i32>) -> Option<i32> {
    match explicit {
        Some(s) => Some(s),
        None => max_of(assigned),
    }
}

/// Seat resolution of one batch row against the assignment table.
pub open spec fn resolved_seat(seats: Seq<SeatAssignment>, row: PersonRaceResult) -> Option<i32> {
    resolved_from(row.seat_id, assignments_of(seats, row.driver_id))
}

/// A row passes validation when its seat resolves and the resolved (or
/// supplied) seat exists in the assignment table; explicit seats are not
/// trusted without this second check.
pub open spec fn row_valid(seats: Seq<SeatAssignment>, row: PersonRaceResult) -> bool {
    match resolved_seat(seats, row) {
        Some(s) => seat_exists_in(seats, s),
        None => false,
    }
}

/// A batch may be ingested when its race exists and every row passes
/// validation.
pub open spec fn batch_valid(
    races: Seq<i32>,
    seats: Seq<SeatAssignment>,
    race_id: i32,
    rows: Seq<PersonRaceResult>,
) -> bool {
    &&& race_exists_in(races, race_id)
    &&& forall|k: int| 0 <= k < rows.len() ==> row_valid(seats, #[trigger] rows[k])
}

/// The result row stored for one batch row: its normalized fields, the
/// batch's season and race, and the generated identifier.
pub open spec fn stored_row(row: PersonRaceResult, season: i32, race_id: i32, result_id: i32) -> StoredResult {
    let n = normalized(row);
    StoredResult {
        result_id: result_id,
        position: n.position,
        pole: n.pole,
        leading_lap: n.leading_lap,
        fastest_lap: n.fastest_lap,
        qualy_result: n.qualy_result,
        season: season,
        race_id: race_id,
        bot_result: n.bot_result,
    }
}

/// The result rows one successful ingestion appends, with identifiers
/// generated in sequence from `first_id`.
pub open spec fn ingested_results(rows: Seq<PersonRaceResult>, season: i32, race_id: i32, first_id: int) -> Seq<StoredResult> {
    Seq::new(rows.len(), |k: int| stored_row(rows[k], season, race_id, (first_id + k) as i32))
}

/// The join rows one successful ingestion appends: each generated result
/// identifier paired with the seat its row resolved to.
pub open spec fn ingested_links(seats: Seq<SeatAssignment>, rows: Seq<PersonRaceResult>, first_id: int) -> Seq<ResultLink> {
    Seq::new(rows.len(), |k: int| ResultLink {
        seat_id: resolved_seat(seats, rows[k]).unwrap(),
        result_id: (first_id + k) as i32,
    })
}

/// The relational store as the engine sees it: races and seat assignments
/// are read-only reference data, results and links grow by ingestion, and
/// `next_result_id` generates result identifiers.
#[derive(Debug, Clone, PartialEq, Eq)]
pub struct Store {
    pub races: Vec<i32>,
    pub seats: Vec<SeatAssignment>,
    pub results: Vec<StoredResult>,
    pub links: Vec<ResultLink>,
    pub next_result_id: i32,
}

impl Store {
    /// Well-formedness: every stored result has exactly one join record (the
    /// one at its own index), result identifiers are strictly increasing and
    /// below the generator, and every join record names a seat that exists.
    pub open spec fn wf(self) -> bool {
        &&& self.results@.len() == self.links@.len()
        &&& forall|k: int| 0 <= k < self.results@.len()
            ==> (#[trigger] self.links@[k]).result_id == self.results@[k].result_id
        &&& forall|k: int| 0 <= k < self.results@.len()
            ==> (#[trigger] self.results@[k]).result_id < self.next_result_id
        &&& forall|i: int, j: int| 0 <= i < j < self.results@.len()
            ==> (#[trigger] self.results@[i]).result_id < (#[trigger] self.results@[j]).result_id
        &&& forall|k: int| 0 <= k < self.links@.len()
            ==> seat_exists_in(self.seats@, (#[trigger] self.links@[k]).seat_id)
    }

    /// A fresh store over the given reference data, holding no results yet.
    pub fn new(races: Vec<i32>, seats: Vec<SeatAssignment>) -> (store: Store)
        ensures
            store.wf(),
            store.races@ == races@,
            store.seats@ == seats@,
            store.results@ == Seq::<StoredResult>::empty(),
            store.links@ == Seq::<ResultLink>::empty(),
            store.next_result_id == 1,
    {
        Store { races, seats, results: Vec::new(), links: Vec::new(), next_result_id: 1 }
    }

    /// Whether the race table holds this race.
    pub fn race_exists(&self, race_id: i32) -> (present: bool)
        ensures
            present == race_exists_in(self.races@, race_id),
    {
        let mut k: usize = 0;
        while k < self.races.len()
            invariant
                k <= self.races@.len(),
                forall|j: int| 0 <= j < k ==> self.races@[j] != race_id,
            decreases self.races@.len() - k,
        {
            if self.races[k] == race_id {
                proof {
                    assert(self.races@[k as int] == race_id);
                }
                return true;
            }
            k += 1;
        }
        false
    }

    /// Whether any assignment row carries this seat, whoever drives in it.
    pub fn seat_exists(&self, seat_id: i32) -> (present: bool)
        ensures
            present == seat_exists_in(self.seats@, seat_id),
    {
        let mut k: usize = 0;
        while k < self.seats.len()
            invariant
                k <= self.seats@.len(),
                forall|j: int| 0 <= j < k ==> (#[trigger] self.seats@[j]).seat_id != seat_id,
            decreases self.seats@.len() - k,
        {
            if self.seats[k].seat_id == seat_id {
                proof {
                    assert((self.seats@[k as int]).seat_id == seat_id);
                }
                return true;
            }
            k += 1;
        }
        false
    }

    /// All seat identifiers assigned to one driver, in table order.
    pub fn assignments_for(&self, driver_id: i32) -> (assigned: Vec<i32>)
        ensures
            assigned@ == assignments_of(self.seats@, driver_id),
    {
        let mut assigned: Vec<i32> = Vec::new();
        let mut k: usize = 0;
        while k < self.seats.len()
            invariant
                k <= self.seats@.len(),
                assigned@ == assignments_of(self.seats@.take(k as int), driver_id),
            decreases self.seats@.len() - k,
        {
            proof {
                assert(self.seats@.take(k as int + 1).drop_last() =~= self.seats@.take(k as int));
                assert(self.seats@.take(k as int + 1).last() == self.seats@[k as int]);
            }
            if self.seats[k].driver_id == driver_id {
                assigned.push(self.seats[k].seat_id);
            }
            k += 1;
        }
        proof {
            assert(self.seats@.take(self.seats@.len() as int) =~= self.seats@);
        }
        assigned
    }

    /// Resolves and validates every row of a batch before anything is
    /// written: on success, the resolved seat of each row in order; on
    /// failure, the error the first offending row produces.
    fn validate_rows(&self, rows: &Vec<PersonRaceResult>) -> (outcome: Result<Vec<i32>, LibError>)
        ensures
            (match outcome {
                Ok(resolved) => {
                    &&& resolved@.len() == rows@.len()
                    &&& forall|k: int| 0 <= k < rows@.len() ==> row_valid(self.seats@, #[trigger] rows@[k])
                    &&& forall|k: int| 0 <= k < rows@.len()
                        ==> Some(#[trigger] resolved@[k]) == resolved_seat(self.seats@, rows@[k])
                },
                Err(e) => {
                    &&& e == LibError::SeatNotFound
                    &&& exists|k: int| 0 <= k < rows@.len() && !row_valid(self.seats@, #[trigger] rows@[k])
                },
            }),
    {
        let mut resolved: Vec<i32> = Vec::new();
        let mut k: usize = 0;
        while k < rows.len()
            invariant
                k <= rows@.len(),
                resolved@.len() == k,
                forall|j: int| 0 <= j < k ==> row_valid(self.seats@, #[trigger] rows@[j]),
                forall|j: int| 0 <= j < k
                    ==> Some(#[trigger] resolved@[j]) == resolved_seat(self.seats@, rows@[j]),
            decreases rows@.len() - k,
        {
            let row = rows[k];
            let seat = match self.resolve_row(&row) {
                Ok(s) => s,
                Err(e) => {
                    proof {
                        assert(!row_valid(self.seats@, rows@[k as int]));
                    }
                    return Err(e);
                },
            };
            if !self.seat_exists(seat) {
                proof {
                    assert(!row_valid(self.seats@, rows@[k as int]));
                }
                return Err(LibError::SeatNotFound);
            }
            resolved.push(seat);
            k += 1;
        }
        Ok(resolved)
    }

    /// Ingests one batch all-or-nothing. The race must exist and every row's
    /// seat must resolve and validate; then, and only then, one result row
    /// and one join row per batch row are appended, with identifiers
    /// generated in sequence. Any failure leaves the store exactly as it
    /// was: a rejected batch has zero effect. Races and seat assignments are
    /// never written.
    pub fn ingest(&mut self, batch: &RaceResults) -> (outcome: Result<(), LibError>)
        requires
            old(self).wf(),
            old(self).next_result_id + batch.results@.len() <= i32::MAX,
        ensures
            final(self).wf(),
            final(self).races@ == old(self).races@,
            final(self).seats@ == old(self).seats@,
            outcome is Err ==> {
                &&& final(self).results@ == old(self).results@
                &&& final(self).links@ == old(self).links@
                &&& final(self).next_result_id == old(self).next_result_id
            },
            (outcome == Err::<(), LibError>(LibError::RaceDoesntExist)
                <==> !race_exists_in(old(self).races@, batch.race_id)),
            (outcome == Err::<(), LibError>(LibError::SeatNotFound)
                <==> (race_exists_in(old(self).races@, batch.race_id)
                    && exists|k: int| 0 <= k < batch.results@.len()
                        && !row_valid(old(self).seats@, #[trigger] batch.results@[k]))),
            (outcome is Ok
                <==> batch_valid(old(self).races@, old(self).seats@, batch.race_id, batch.results@)),
            outcome is Ok ==> {
                &&& final(self).results@ == old(self).results@ + ingested_results(
                    batch.results@, batch.season, batch.race_id, old(self).next_result_id as int)
                &&& final(self).links@ == old(self).links@ + ingested_links(
                    old(self).seats@, batch.results@, old(self).next_result_id as int)
                &&& final(self).next_result_id == old(self).next_result_id + batch.results@.len()
            },
    {
        if !self.race_exists(batch.race_id) {
            return Err(LibError::RaceDoesntExist);
        }
        let resolved = match self.validate_rows(&batch.results) {
            Ok(r) => r,
            Err(e) => {
                return Err(e);
            },
        };
        let ghost pre = *self;
        let ghost appended_results = ingested_results(
            batch.results@, batch.season, batch.race_id, pre.next_result_id as int);
        let ghost appended_links = ingested_links(
            pre.seats@, batch.results@, pre.next_result_id as int);
        let mut k: usize = 0;
        while k < batch.results.len()
            invariant
                k <= batch.results@.len(),
                resolved@.len() == batch.results@.len(),
                forall|j: int| 0 <= j < batch.results@.len()
                    ==> Some(#[trigger] resolved@[j]) == resolved_seat(pre.seats@, batch.results@[j]),
                pre.next_result_id + batch.results@.len() <= i32::MAX,
                self.races@ == pre.races@,
                self.seats@ == pre.seats@,
                self.next_result_id == pre.next_result_id + k,
                self.results@.len() == pre.results@.len() + k,
                self.links@.len() == pre.links@.len() + k,
                pre.results@.len() == pre.links@.len(),
                forall|j: int| 0 <= j < pre.results@.len()
                    ==> #[trigger] self.results@[j] == pre.results@[j],
                forall|j: int| 0 <= j < pre.links@.len()
                    ==> #[trigger] self.links@[j] == pre.links@[j],
                appended_results == ingested_results(
                    batch.results@, batch.season, batch.race_id, pre.next_result_id as int),
                appended_links == ingested_links(
                    pre.seats@, batch.results@, pre.next_result_id as int),
                forall|j: int| 0 <= j < k
                    ==> self.results@[pre.results@.len() + j] == #[trigger] appended_results[j],
                forall|j: int| 0 <= j < k
                    ==> self.links@[pre.links@.len() + j] == #[trigger] appended_links[j],
            decreases batch.results@.len() - k,
        {
            let row = batch.results[k];
            let normalized_row = RaceResult::from(row);
            let result_id = self.next_result_id;
            self.results.push(StoredResult {
                result_id: result_id,
                position: normalized_row.position,
                pole: normalized_row.pole,
                leading_lap: normalized_row.leading_lap,
                fastest_lap: normalized_row.fastest_lap,
                qualy_result: normalized_row.qualy_result,
                season: batch.season,
                race_id: batch.race_id,
                bot_result: normalized_row.bot_result,
            });
            self.links.push(ResultLink { seat_id: resolved[k], result_id: result_id });
            self.next_result_id = result_id + 1;
            proof {
                assert(appended_results[k as int]
                    == stored_row(batch.results@[k as int], batch.season, batch.race_id,
                        (pre.next_result_id + k as int) as i32));
                assert(appended_links[k as int].result_id == (pre.next_result_id + k as int) as i32);
                assert(appended_links[k as int].seat_id
                    == resolved_seat(pre.seats@, batch.results@[k as int]).unwrap());
            }
            k += 1;
        }
        proof {
            assert(self.results@ =~= pre.results@ + appended_results);
            assert(self.links@ =~= pre.links@ + appended_links);
            lemma_ingest_preserves_wf(pre, *self, batch.results@, batch.season, batch.race_id);
        }
        Ok(())
    }

    /// Seat resolution of one batch row against this store's assignments.
    pub fn resolve_row(&self, row: &PersonRaceResult) -> (resolved: Result<i32, LibError>)
        ensures
            (match resolved_seat(self.seats@, *row) {
                Some(s) => resolved == Ok::<i32, LibError>(s),
                None => resolved == Err::<i32, LibError>(LibError::SeatNotFound),
            }),
    {
        let assigned = self.assignments_for(row.driver_id);
        resolve_seat(row.seat_id, &assigned)
    }
}

/// A store that appends exactly the ingested rows of a validated batch to a
/// well-formed store, and touches nothing else, is well-formed again: the
/// appended identifiers continue the strictly increasing sequence below the
/// generator, each appended join record sits at its result's index, and each
/// names a seat that validation showed to exist.
proof fn lemma_ingest_preserves_wf(
    pre: Store,
    post: Store,
    rows: Seq<PersonRaceResult>,
    season: i32,
    race_id: i32,
)
    requires
        pre.wf(),
        pre.next_result_id + rows.len() <= i32::MAX,
        post.seats@ == pre.seats@,
        post.results@ == pre.results@ + ingested_results(rows, season, race_id, pre.next_result_id as int),
        post.links@ == pre.links@ + ingested_links(pre.seats@, rows, pre.next_result_id as int),
        post.next_result_id == pre.next_result_id + rows.len(),
        forall|j: int| 0 <= j < rows.len() ==> row_valid(pre.seats@, #[trigger] rows[j]),
    ensures
        post.wf(),
{
    let first = pre.next_result_id as int;
    let n = pre.results@.len() as int;
    let appended_results = ingested_results(rows, season, race_id, first);
    let appended_links = ingested_links(pre.seats@, rows, first);
    assert(post.results@.len() == post.links@.len());
    assert forall|j: int| 0 <= j < rows.len() implies
        (#[trigger] appended_results[j]).result_id == first + j
            && appended_links[j].result_id == first + j by {
        assert(i32::MIN <= first + j <= i32::MAX);
    }
    assert forall|k: int| 0 <= k < post.results@.len() implies
        (#[trigger] post.links@[k]).result_id == post.results@[k].result_id by {
        if k < n {
            assert(post.results@[k] == pre.results@[k]);
            assert(post.links@[k] == pre.links@[k]);
        } else {
            assert(post.results@[k] == appended_results[k - n]);
            assert(post.links@[k] == appended_links[k - n]);
        }
    }
    assert forall|k: int| 0 <= k < post.results@.len() implies
        (#[trigger] post.results@[k]).result_id < post.next_result_id by {
        if k < n {
            assert(pre.results@[k].result_id < pre.next_result_id);
        } else {
            assert(post.results@[k] == appended_results[k - n]);
        }
    }
    assert forall|i: int, j: int| 0 <= i < j < post.results@.len() implies
        (#[trigger] post.results@[i]).result_id < (#[trigger] post.results@[j]).result_id by {
        if j < n {
            assert(post.results@[i] == pre.results@[i]);
            assert(post.results@[j] == pre.results@[j]);
        } else if i < n {
            assert(post.results@[i] == pre.results@[i]);
            assert(pre.results@[i].result_id < pre.next_result_id);
            assert(post.results@[j] == appended_results[j - n]);
        } else {
            assert(post.results@[i] == appended_results[i - n]);
            assert(post.results@[j] == appended_results[j - n]);
        }
    }
    assert forall|k: int| 0 <= k < post.links@.len() implies
        seat_exists_in(post.seats@, (#[trigger] post.links@[k]).seat_id) by {
        if k < n {
            assert(post.links@[k] == pre.links@[k]);
            assert(seat_exists_in(pre.seats@, pre.links@[k].seat_id));
        } else {
            assert(post.links@[k] == appended_links[k - n]);
            assert(row_valid(pre.seats@, rows[k - n]));
        }
    }
}

/// The highest-numbered seat among a driver's assignments, or None when the
/// driver has none.
pub fn max_seat(assigned: &Vec<i32>) -> (best: Option<i32>)
    ensures
        best == max_of(assigned@),
{
    let mut best: Option<i32> = None;
    let mut k: usize = 0;
    while k < assigned.len()
        invariant
            k <= assigned@.len(),
            best == max_of(assigned@.take(k as int)),
        decreases assigned@.len() - k,
    {
        proof {
            assert(assigned@.take(k as int + 1).drop_last() =~= assigned@.take(k as int));
            assert(assigned@.take(k as int + 1).last() == assigned@[k as int]);
        }
        let candidate = assigned[k];
        best = match best {
            None => Some(candidate),
            Some(m) => if candidate >= m {
                Some(candidate)
            } else {
                Some(m)
            },
        };
        k += 1;
    }
    proof {
        assert(assigned@.take(assigned@.len() as int) =~= assigned@);
    }
    best
}

/// Resolves the seat a row is credited to: an explicitly supplied seat wins;
/// otherwise the highest-numbered assigned seat; a driver with no supplied
/// seat and no assignment cannot be resolved.
pub fn resolve_seat(explicit: Option<i32>, assigned: &Vec<i32>) -> (resolved: Result<i32, LibError>)
    ensures
        (match resolved_from(explicit, assigned@) {
            Some(s) => resolved == Ok::<i32, LibError>(s),
            None => resolved == Err::<i32, LibError>(LibError::SeatNotFound),
        }),
{
    match explicit {
        Some(s) => Ok(s),
        None => match max_seat(assigned) {
            Some(m) => Ok(m),
            None => Err(LibError::SeatNotFound),
        },
    }
}

/// In a well-formed store every stored result has exactly one join record,
/// the one at its own index: no join record at any other index carries its
/// identifier, because result identifiers are strictly increasing.
pub proof fn lemma_one_link_per_result(store: Store, i: int, j: int)
    requires
        store.wf(),
        0 <= i < store.results@.len(),
        0 <= j < store.links@.len(),
    ensures
        store.links@[j].result_id == store.results@[i].result_id <==> j == i,
{
    if j < i {
        assert(store.results@[j].result_id < store.results@[i].result_id);
    } else if i < j {
        assert(store.results@[i].result_id < store.results@[j].result_id);
    }
}

/// The highest assigned seat of a driver is None exactly when the driver has
/// no assignment row; otherwise it is one of the driver's assigned seats and
/// no seat assigned to the driver exceeds it.
proof fn lemma_highest_assigned(seats: Seq<SeatAssignment>, driver_id: i32)
    ensures
        (max_of(assignments_of(seats, driver_id)) is None
            <==> forall|k: int| 0 <= k < seats.len() ==> (#[trigger] seats[k]).driver_id != driver_id),
        max_of(assignments_of(seats, driver_id)) is Some ==> {
            let m = max_of(assignments_of(seats, driver_id)).unwrap();
            &&& (exists|k: int| 0 <= k < seats.len()
                && (#[trigger] seats[k]).driver_id == driver_id && seats[k].seat_id == m)
            &&& (forall|k: int| 0 <= k < seats.len() && (#[trigger] seats[k]).driver_id == driver_id
                ==> seats[k].seat_id <= m)
        },
    decreases seats.len(),
{
    if seats.len() > 0 {
        let rest = seats.drop_last();
        lemma_highest_assigned(rest, driver_id);
        let assigned = assignments_of(seats, driver_id);
        let assigned_rest = assignments_of(rest, driver_id);
        let last = seats.last();
        assert(seats[seats.len() - 1] == last);
        assert forall|k: int| 0 <= k < rest.len() implies #[trigger] rest[k] == seats[k] by {}
        if last.driver_id == driver_id {
            assert(assigned == assigned_rest.push(last.seat_id));
            assert(assigned.drop_last() =~= assigned_rest);
            assert(assigned.last() == last.seat_id);
            assert(max_of(assigned) is Some);
            let m = max_of(assigned).unwrap();
            if max_of(assigned_rest) is Some && max_of(assigned_rest).unwrap() > last.seat_id {
                let mr = max_of(assigned_rest).unwrap();
                assert(m == mr);
                let w = choose|k: int| 0 <= k < rest.len()
                    && (#[trigger] rest[k]).driver_id == driver_id && rest[k].seat_id == mr;
                assert(rest[w] == seats[w]);
                assert(seats[w].driver_id == driver_id && seats[w].seat_id == m);
            } else {
                assert(m == last.seat_id);
                assert(seats[seats.len() - 1].driver_id == driver_id
                    && seats[seats.len() - 1].seat_id == m);
            }
            assert forall|k: int| 0 <= k < seats.len() && (#[trigger] seats[k]).driver_id == driver_id
                implies seats[k].seat_id <= m by {
                if k < seats.len() - 1 {
                    assert(rest[k] == seats[k]);
                    assert(rest[k].driver_id == driver_id);
                    assert(max_of(assigned_rest) is Some);
                    let mr = max_of(assigned_rest).unwrap();
                    assert(rest[k].seat_id <= mr);
                    assert(mr <= m);
                } else {
                    assert(seats[k] == last);
                }
            }
        } else {
            assert(assigned == assigned_rest);
            assert forall|k: int| 0 <= k < seats.len() && (#[trigger] seats[k]).driver_id == driver_id
                implies 0 <= k < rest.len() && (#[trigger] rest[k]).driver_id == driver_id
                    && rest[k].seat_id == seats[k].seat_id by {
                assert(k != seats.len() - 1);
                assert(rest[k] == seats[k]);
            }
            if max_of(assigned_rest) is Some {
                let m = max_of(assigned_rest).unwrap();
                assert(max_of(assigned).unwrap() == m);
                let w = choose|k: int| 0 <= k < rest.len()
                    && (#[trigger] rest[k]).driver_id == driver_id && rest[k].seat_id == m;
                assert(rest[w] == seats[w]);
                assert(seats[w].driver_id == driver_id && seats[w].seat_id == m);
                assert forall|k: int| 0 <= k < seats.len()
                    && (#[trigger] seats[k]).driver_id == driver_id
                    implies seats[k].seat_id <= m by {
                    assert(k != seats.len() - 1);
                    assert(rest[k] == seats[k]);
                    assert(rest[k].driver_id == driver_id);
                    assert(rest[k].seat_id <= m);
                }
            } else {
                assert forall|k: int| 0 <= k < seats.len()
                    implies (#[trigger] seats[k]).driver_id != driver_id by {
                    if k < seats.len() - 1 {
                        assert(rest[k] == seats[k]);
                        assert(rest[k].driver_id != driver_id);
                    }
                }
            }
        }
    }
}

/// Seat resolution, characterized. A row that supplies a seat explicitly
/// resolves to that seat, whatever the assignment table says. A row without
/// one resolves to the numerically highest seat assigned to its driver, and
/// fails to resolve exactly when the driver has no assignment row at all.
pub proof fn lemma_resolution(seats: Seq<SeatAssignment>, row: PersonRaceResult)
    ensures
        row.seat_id is Some ==> resolved_seat(seats, row) == row.seat_id,
        row.seat_id is None ==> (resolved_seat(seats, row) is None
            <==> forall|k: int| 0 <= k < seats.len()
                ==> (#[trigger] seats[k]).driver_id != row.driver_id),
        (row.seat_id is None && resolved_seat(seats, row) is Some) ==> {
            let s = resolved_seat(seats, row).unwrap();
            &&& (exists|k: int| 0 <= k < seats.len()
                && (#[trigger] seats[k]).driver_id == row.driver_id && seats[k].seat_id == s)
            &&& (forall|k: int| 0 <= k < seats.len() && (#[trigger] seats[k]).driver_id == row.driver_id
                ==> seats[k].seat_id <= s)
        },
{
    lemma_highest_assigned(seats, row.driver_id);
}

/// Re-ingestion is permitted, not prevented: batch validity depends only on
/// the races and seat assignments, which ingestion never writes, so a batch
/// that was just ingested is still valid; and the result rows a second
/// ingestion would append carry identifiers distinct from every identifier
/// of the first, so running the same batch twice records it twice.
pub proof fn lemma_reingest(
    races: Seq<i32>,
    seats: Seq<SeatAssignment>,
    rows: Seq<PersonRaceResult>,
    season: i32,
    race_id: i32,
    first_id: int,
)
    requires
        batch_valid(races, seats, race_id, rows),
        i32::MIN <= first_id,
        first_id + 2 * rows.len() <= i32::MAX,
    ensures
        batch_valid(races, seats, race_id, rows),
        forall|i: int, j: int| 0 <= i < rows.len() && 0 <= j < rows.len()
            ==> (#[trigger] ingested_results(rows, season, race_id, first_id)[i]).result_id
                != (#[trigger] ingested_results(rows, season, race_id, first_id + rows.len())[j]).result_id,
{
    let second_id = first_id + rows.len();
    assert forall|i: int, j: int| 0 <= i < rows.len() && 0 <= j < rows.len() implies
        (#[trigger] ingested_results(rows, season, race_id, first_id)[i]).result_id
            != (#[trigger] ingested_results(rows, season, race_id, second_id)[j]).result_id by {
        assert(ingested_results(rows, season, race_id, first_id)[i].result_id
            == (first_id + i) as i32);
        assert(ingested_results(rows, season, race_id, second_id)[j].result_id
            == (second_id + j) as i32);
        assert(i32::MIN <= first_id + i <= i32::MAX);
        assert(i32::MIN <= second_id + j <= i32::MAX);
        assert(first_id + i < second_id + j);
    }
}

} // verus!
