//! Points awarded for a race result: a fixed base table over finishing
//! positions 1 through 10, plus additive bonuses for pole position, fastest
//! lap and leading a lap. The sentinel position 111 (a non-classified
//! outcome) suppresses everything but the pole bonus.
use vstd::prelude::*;

verus! {

/// Base points for a finishing position: positions 1..=10 map to the fixed
/// table [20, 16, 12, 10, 8, 6, 4, 3, 2, 1]; every other position earns 0.
pub open spec fn base_points(position: int) -> int {
    if position == 1 {
        20
    } else if position == 2 {
        16
    } else if position == 3 {
        12
    } else if position == 4 {
        10
    } else if position == 5 {
        8
    } else if position == 6 {
        6
    } else if position == 7 {
        4
    } else if position == 8 {
        3
    } else if position == 9 {
        2
    } else if position == 10 {
        1
    } else {
        0
    }
}

/// Total points: base points plus 2 for pole, 2 for fastest lap and 1 for
/// leading a lap; at the sentinel position 111 only the pole bonus counts.
pub open spec fn points_spec(position: int, pole: bool, fastest_lap: bool, leading_lap: bool) -> int {
    let pole_bonus: int = if pole { 2 } else { 0 };
    if position == 111 {
        pole_bonus
    } else {
        let fastest_bonus: int = if fastest_lap { 2 } else { 0 };
        let leading_bonus: int = if leading_lap { 1 } else { 0 };
        base_points(position) + fastest_bonus + leading_bonus + pole_bonus
    }
}

/// Points for one result. Total over all integer positions: positions
/// outside the base table earn 0 base points.
pub fn calculate_points(position: i32, pole: bool, fastest_lap: bool, leading_lap: bool) -> (points: i32)
    ensures
        points == points_spec(position as int, pole, fastest_lap, leading_lap),
{
    let flat_points: i32 = if position == 1 {
        20
    } else if position == 2 {
        16
    } else if position == 3 {
        12
    } else if position == 4 {
        10
    } else if position == 5 {
        8
    } else if position == 6 {
        6
    } else if position == 7 {
        4
    } else if position == 8 {
        3
    } else if position == 9 {
        2
    } else if position == 10 {
        1
    } else {
        0
    };
    let fastest_bonus: i32 = if fastest_lap { 2 } else { 0 };
    let leading_bonus: i32 = if leading_lap { 1 } else { 0 };
    let pole_bonus: i32 = if pole { 2 } else { 0 };

    if position != 111 {
        flat_points + fastest_bonus + leading_bonus + pole_bonus
    } else {
        pole_bonus
    }
}

/// One row of the precomputed points table: a season, a position, one
/// combination of the bonus flags, and the points that combination earns.
#[derive(Debug, Clone, Copy, PartialEq, Eq, Structural)]
pub struct PointsRow {
    pub season: i32,
    pub position: i32,
    pub pole: bool,
    pub leading_lap: bool,
    pub fastest_lap: bool,
    pub points: i32,
}

/// How many positions the table generator enumerates: 1..=23 and the three
/// non-finish sentinels.
pub const TABLE_POSITION_COUNT: usize = 26;

/// The position enumerated at a given slot: 1..=23 in order, then the
/// sentinels 101, 111 and 100.
pub open spec fn table_position(slot: int) -> i32 {
    if slot < 23 {
        (slot + 1) as i32
    } else if slot == 23 {
        101
    } else if slot == 24 {
        111
    } else {
        100
    }
}

/// The generated table row at a given index. Positions vary slowest; within
/// one position the pole, fastest-lap and leading-lap flags each run true
/// first, leading lap fastest.
pub open spec fn table_row(season: i32, index: int) -> PointsRow {
    let position = table_position(index / 8);
    let pole = index / 4 % 2 == 0;
    let fastest_lap = index / 2 % 2 == 0;
    let leading_lap = index % 2 == 0;
    PointsRow {
        season,
        position,
        pole,
        leading_lap,
        fastest_lap,
        points: points_spec(position as int, pole, fastest_lap, leading_lap) as i32,
    }
}

/// The position enumerated at a given slot of the table.
fn table_position_at(slot: usize) -> (position: i32)
    requires
        slot < TABLE_POSITION_COUNT,
    ensures
        position == table_position(slot as int),
{
    if slot < 23 {
        (slot as i32) + 1
    } else if slot == 23 {
        101
    } else if slot == 24 {
        111
    } else {
        100
    }
}

/// Precomputes the full points table for one season: every enumerated
/// position crossed with every combination of the three bonus flags, each
/// row carrying the points that `calculate_points` awards it.
pub fn points_table(season: i32) -> (rows: Vec<PointsRow>)
    ensures
        rows@.len() == 8 * TABLE_POSITION_COUNT,
        forall|k: int| 0 <= k < rows@.len() ==> rows@[k] == table_row(season, k),
{
    let mut rows: Vec<PointsRow> = Vec::new();
    let mut index: usize = 0;
    while index < 8 * TABLE_POSITION_COUNT
        invariant
            index <= 8 * TABLE_POSITION_COUNT,
            rows@.len() == index,
            forall|k: int| 0 <= k < index ==> rows@[k] == table_row(season, k),
        decreases 8 * TABLE_POSITION_COUNT - index,
    {
        let position = table_position_at(index / 8);
        let pole = index / 4 % 2 == 0;
        let fastest_lap = index / 2 % 2 == 0;
        let leading_lap = index % 2 == 0;
        let points = calculate_points(position, pole, fastest_lap, leading_lap);
        proof {
            assert(0 <= points_spec(position as int, pole, fastest_lap, leading_lap) <= 25);
        }
        rows.push(PointsRow { season, position, pole, leading_lap, fastest_lap, points });
        index += 1;
    }
    rows
}

/// Positions 1..=10 with no bonuses earn exactly the base table value, and
/// any other position (the sentinel included) earns 0 with no bonuses.
pub proof fn lemma_points_no_bonus(position: int)
    ensures
        1 <= position <= 10 ==> points_spec(position, false, false, false) == base_points(position),
        !(1 <= position <= 10) ==> points_spec(position, false, false, false) == 0,
{
}

/// At the sentinel position 111 only the pole bonus counts: with pole the
/// award is 2 whatever the lap bonuses say, and without pole it is 0.
pub proof fn lemma_sentinel_pole_only(fastest_lap: bool, leading_lap: bool)
    ensures
        points_spec(111, true, fastest_lap, leading_lap) == 2,
        points_spec(111, false, fastest_lap, leading_lap) == 0,
{
}

/// Bonus additivity away from the sentinel: each bonus adds its own amount
/// on top of the no-bonus award, independently of the others.
pub proof fn lemma_bonus_additivity(position: int, pole: bool, fastest_lap: bool, leading_lap: bool)
    requires
        position != 111,
    ensures
        points_spec(position, pole, fastest_lap, leading_lap) == points_spec(position, false, false, false)
            + (if pole { 2int } else { 0int })
            + (if fastest_lap { 2int } else { 0int })
            + (if leading_lap { 1int } else { 0int }),
{
}

} // verus!
