use cube_skyline::grid::{
    distance_manhattan, eligible_cells, GridCell, GRID_RADIUS, MANHATTAN_THRESHOLD,
};

#[test]
fn manhattan_distance_adds_absolute_values() {
    assert_eq!(distance_manhattan(0, 0), 0);
    assert_eq!(distance_manhattan(3, 0), 3);
    assert_eq!(distance_manhattan(-3, 0), 3);
    assert_eq!(distance_manhattan(-2, 5), 7);
    assert_eq!(distance_manhattan(2, -5), 7);
    assert_eq!(distance_manhattan(-10, -10), 20);
}

#[test]
fn manhattan_distance_reaches_the_largest_value() {
    assert_eq!(distance_manhattan(isize::MAX, 0), isize::MAX);
    assert_eq!(distance_manhattan(0, -isize::MAX), isize::MAX);
}

#[test]
fn scene_grid_matches_direct_enumeration() {
    let mut expected = Vec::new();
    for x in -10isize..10 {
        for y in -10isize..10 {
            if x.abs() + y.abs() < 4 {
                expected.push(GridCell { x, y });
            }
        }
    }
    let cells = eligible_cells(GRID_RADIUS, MANHATTAN_THRESHOLD);
    assert_eq!(cells, expected);
    assert_eq!(cells.len(), 25);
}

#[test]
fn scene_grid_starts_at_the_left_tip() {
    let cells = eligible_cells(10, 4);
    assert_eq!(cells[0], GridCell { x: -3, y: 0 });
    assert_eq!(cells[1], GridCell { x: -2, y: -1 });
    assert_eq!(cells[2], GridCell { x: -2, y: 0 });
    assert_eq!(cells[3], GridCell { x: -2, y: 1 });
    assert_eq!(cells[12], GridCell { x: 0, y: 0 });
    assert_eq!(cells[24], GridCell { x: 3, y: 0 });
}

#[test]
fn cells_come_in_scan_order_without_repeats() {
    let cells = eligible_cells(10, 4);
    for pair in cells.windows(2) {
        assert!((pair[0].x, pair[0].y) < (pair[1].x, pair[1].y));
    }
}

#[test]
fn diamond_has_two_t_squared_minus_two_t_plus_one_cells() {
    for t in 1isize..=6 {
        let cells = eligible_cells(6, t);
        assert_eq!(cells.len() as isize, 2 * t * t - 2 * t + 1);
    }
}

#[test]
fn threshold_of_zero_or_less_leaves_no_cell() {
    assert!(eligible_cells(10, 0).is_empty());
    assert!(eligible_cells(10, -3).is_empty());
}

#[test]
fn threshold_of_one_leaves_the_origin() {
    assert_eq!(eligible_cells(10, 1), vec![GridCell { x: 0, y: 0 }]);
}

#[test]
fn empty_square_has_no_cell() {
    assert!(eligible_cells(0, 4).is_empty());
    assert!(eligible_cells(-5, 4).is_empty());
    assert!(eligible_cells(isize::MIN, 4).is_empty());
}

#[test]
fn small_square_cuts_the_diamond() {
    // The square [-1, 1) holds x and y in {-1, 0}; all four are within 4.
    assert_eq!(
        eligible_cells(1, 4),
        vec![
            GridCell { x: -1, y: -1 },
            GridCell { x: -1, y: 0 },
            GridCell { x: 0, y: -1 },
            GridCell { x: 0, y: 0 },
        ]
    );
    // With threshold 2 the corner (-1, -1) is too far.
    assert_eq!(
        eligible_cells(1, 2),
        vec![GridCell { x: -1, y: 0 }, GridCell { x: 0, y: -1 }, GridCell { x: 0, y: 0 }]
    );
}
