use race_ingest::scoring::{calculate_points, points_table, PointsRow, TABLE_POSITION_COUNT};

#[test]
fn base_table_no_bonuses() {
    let table = [20, 16, 12, 10, 8, 6, 4, 3, 2, 1];
    for p in 1..=10 {
        assert_eq!(calculate_points(p, false, false, false), table[(p - 1) as usize]);
    }
}

#[test]
fn positions_outside_table_score_zero() {
    for p in [11, 12, 20, 23, 100, 101, 112, 0, -1, -5] {
        assert_eq!(calculate_points(p, false, false, false), 0);
    }
}

#[test]
fn sentinel_counts_pole_only() {
    assert_eq!(calculate_points(111, true, true, true), 2);
    assert_eq!(calculate_points(111, true, false, false), 2);
    assert_eq!(calculate_points(111, false, true, true), 0);
    assert_eq!(calculate_points(111, false, false, true), 0);
    assert_eq!(calculate_points(111, false, true, false), 0);
    assert_eq!(calculate_points(111, false, false, false), 0);
}

#[test]
fn other_sentinels_score_ordinary_bonuses() {
    assert_eq!(calculate_points(100, true, true, true), 5);
    assert_eq!(calculate_points(101, true, false, true), 3);
}

#[test]
fn bonus_additivity_at_position_five() {
    assert_eq!(
        calculate_points(5, true, true, true),
        calculate_points(5, false, false, false) + 5
    );
}

#[test]
fn bonus_amounts() {
    assert_eq!(calculate_points(1, true, false, false), 22);
    assert_eq!(calculate_points(1, false, true, false), 22);
    assert_eq!(calculate_points(1, false, false, true), 21);
    assert_eq!(calculate_points(1, true, true, true), 25);
}

#[test]
fn table_covers_every_flag_combination() {
    let rows = points_table(3);
    assert_eq!(rows.len(), 8 * TABLE_POSITION_COUNT);
    // Positions vary slowest; each flag runs true before false.
    assert_eq!(
        rows[0],
        PointsRow { season: 3, position: 1, pole: true, leading_lap: true, fastest_lap: true, points: 25 }
    );
    assert_eq!(
        rows[7],
        PointsRow { season: 3, position: 1, pole: false, leading_lap: false, fastest_lap: false, points: 20 }
    );
    for (k, row) in rows.iter().enumerate() {
        assert_eq!(row.season, 3);
        assert_eq!(row.pole, (k / 4) % 2 == 0);
        assert_eq!(row.fastest_lap, (k / 2) % 2 == 0);
        assert_eq!(row.leading_lap, k % 2 == 0);
        assert_eq!(
            row.points,
            calculate_points(row.position, row.pole, row.fastest_lap, row.leading_lap)
        );
    }
}

#[test]
fn table_enumerates_sentinel_positions() {
    let rows = points_table(3);
    let positions: Vec<i32> = rows.iter().step_by(8).map(|r| r.position).collect();
    let mut expected: Vec<i32> = (1..=23).collect();
    expected.extend([101, 111, 100]);
    assert_eq!(positions, expected);
    // The sentinel rows suppress everything but pole.
    let sentinel_no_pole = rows.iter().find(|r| r.position == 111 && !r.pole).unwrap();
    assert_eq!(sentinel_no_pole.points, 0);
    let sentinel_pole = rows.iter().find(|r| r.position == 111 && r.pole).unwrap();
    assert_eq!(sentinel_pole.points, 2);
}
