use cube_skyline::outline::{mk_cube, Level, Vertex};

fn v(x: i8, y: i8, level: Level) -> Vertex {
    Vertex { x, y, level }
}

#[test]
fn outer_path_winds_from_top_to_ground() {
    let cube = mk_cube(1);
    assert_eq!(
        cube.outer_path,
        vec![
            v(1, -1, Level::Top),
            v(1, 1, Level::Top),
            v(-1, 1, Level::Top),
            v(-1, 1, Level::Base),
            v(-1, -1, Level::Base),
            v(1, -1, Level::Base),
        ]
    );
}

#[test]
fn base_path_winds_from_ground_to_pedestal() {
    let cube = mk_cube(3);
    assert_eq!(
        cube.base_outer_path,
        vec![
            v(1, -1, Level::Base),
            v(1, 1, Level::Base),
            v(-1, 1, Level::Base),
            v(-1, 1, Level::Pedestal),
            v(-1, -1, Level::Pedestal),
            v(1, -1, Level::Pedestal),
        ]
    );
}

#[test]
fn label_sits_on_the_axis_at_the_top() {
    assert_eq!(mk_cube(0).text_anchor, v(0, 0, Level::Top));
    assert_eq!(mk_cube(4).text_anchor, v(0, 0, Level::Top));
}

#[test]
fn empty_stack_keeps_only_the_vertical_edge() {
    let cube = mk_cube(0);
    assert_eq!(
        cube.inner_paths,
        vec![vec![v(-1, -1, Level::Top), v(-1, -1, Level::Base)]]
    );
    assert_eq!(cube.outer_path.len(), 6);
    assert_eq!(cube.base_outer_path.len(), 6);
}

#[test]
fn each_segment_adds_a_front_and_a_side_line() {
    let cube = mk_cube(2);
    assert_eq!(
        cube.inner_paths,
        vec![
            vec![v(-1, -1, Level::Division(0)), v(1, -1, Level::Division(0))],
            vec![v(-1, -1, Level::Division(0)), v(-1, 1, Level::Division(0))],
            vec![v(-1, -1, Level::Division(1)), v(1, -1, Level::Division(1))],
            vec![v(-1, -1, Level::Division(1)), v(-1, 1, Level::Division(1))],
            vec![v(-1, -1, Level::Top), v(-1, -1, Level::Base)],
        ]
    );
}

#[test]
fn inner_paths_number_two_per_segment_and_one() {
    for segments in 0..20usize {
        let cube = mk_cube(segments);
        assert_eq!(cube.inner_paths.len(), 2 * segments + 1);
        for path in &cube.inner_paths {
            assert_eq!(path.len(), 2);
        }
    }
}
