use raycaster::FP_ONE;
use raycaster::geom::Vec2Fx;
use raycaster::grid::Grid;
use raycaster::ray::cast_ray;
use raycaster::viewer::Viewer;
use raycaster::walls::{column_ray, slice_height_px, wall_tex_column};

const REFERENCE_MAP: [[i32; 8]; 8] = [
    [1, 1, 1, 1, 1, 1, 1, 1],
    [1, 0, 0, 0, 0, 0, 0, 1],
    [1, 1, 1, 1, 0, 0, 0, 1],
    [1, 0, 0, 0, 0, 0, 0, 1],
    [1, 0, 0, 0, 0, 0, 0, 1],
    [1, 0, 0, 1, 1, 0, 0, 1],
    [1, 0, 0, 0, 0, 0, 0, 1],
    [1, 1, 1, 1, 1, 1, 1, 1],
];

fn reference_grid() -> Grid {
    let mut cells: Vec<bool> = Vec::new();
    for row in REFERENCE_MAP.iter() {
        for &c in row.iter() {
            cells.push(c == 1);
        }
    }
    Grid::new(8, 8, cells).expect("the reference map is a valid grid")
}

fn reference_viewer() -> Viewer {
    Viewer::new(
        Vec2Fx { x: 4 * FP_ONE, y: 4 * FP_ONE },
        Vec2Fx { x: FP_ONE, y: 0 },
    )
}

#[test]
fn east_ray_reports_exact_distance_and_side() {
    let g = reference_grid();
    // From (4, 4) looking east, cells 5 and 6 of row 4 are open and cell 7
    // is a wall: the hit is 3 tiles away on the x side.
    let hit = cast_ray(&g, 4 * FP_ONE, 4 * FP_ONE, FP_ONE, 0);
    assert_eq!(hit.side, 0);
    assert_eq!(hit.perp, 3 * FP_ONE);
    assert_eq!(hit.cell_x, 7);
    assert_eq!(hit.cell_y, 4);
}

#[test]
fn south_ray_reports_exact_distance_and_side() {
    let g = reference_grid();
    // From (4, 4) looking south (+y), the cell below at row 5 is a wall:
    // distance 1, hit on the y side.
    let hit = cast_ray(&g, 4 * FP_ONE, 4 * FP_ONE, 0, FP_ONE);
    assert_eq!(hit.side, 1);
    assert_eq!(hit.perp, FP_ONE);
    assert_eq!(hit.cell_x, 4);
    assert_eq!(hit.cell_y, 5);
}

#[test]
fn east_ray_from_fractional_position() {
    let g = reference_grid();
    // A quarter tile east of (4, 4), the wall at x = 7 is 2.75 tiles away.
    let hit = cast_ray(&g, 4 * FP_ONE + FP_ONE / 4, 4 * FP_ONE, FP_ONE, 0);
    assert_eq!(hit.side, 0);
    assert_eq!(hit.perp, 3 * FP_ONE - FP_ONE / 4);
}

#[test]
fn zero_ray_component_does_not_divide_by_zero() {
    let g = reference_grid();
    // Both components at their most degenerate: the caster must still
    // terminate with a boundary or wall hit.
    let hit = cast_ray(&g, 4 * FP_ONE + 7, 4 * FP_ONE + 9, 0, 0);
    assert!(hit.side == 0 || hit.side == 1);
    assert!(hit.perp >= 0);
}

#[test]
fn slice_height_is_viewport_over_distance() {
    assert_eq!(slice_height_px(3 * FP_ONE, 300), 100);
    assert_eq!(slice_height_px(2 * FP_ONE, 300), 150);
    assert_eq!(slice_height_px(5 * FP_ONE, 300), 60);
}

#[test]
fn slice_height_at_unit_distance_fills_viewport() {
    assert_eq!(slice_height_px(FP_ONE, 300), 300);
}

#[test]
fn slice_height_clamps_zero_distance() {
    // A viewer standing on the wall boundary: the distance clamps to one
    // raw unit instead of dividing by zero.
    let lh = slice_height_px(0, 300);
    assert_eq!(lh, 300 * FP_ONE);
}

#[test]
fn tex_column_invariant_to_distance() {
    let g = reference_grid();
    let py = 4 * FP_ONE + 30000;
    let near = wall_tex_column(&g, 6 * FP_ONE, py, FP_ONE, 0, 64);
    let far = wall_tex_column(&g, 4 * FP_ONE + 1000, py, FP_ONE, 0, 64);
    assert_eq!(near, far);
    // The column is the cell fraction of the y coordinate scaled by the
    // texture width: 64 * 30000 / 65536.
    assert_eq!(near, 29);
}

#[test]
fn center_column_scenario_reference_map() {
    // Viewer at tile (4,4) facing (1,0), camera plane (0, 0.66), viewport
    // 400x300: the center column's ray is the facing itself, the hit is on
    // the x side at exactly 3 tiles.
    let g = reference_grid();
    let v = reference_viewer();
    let (rdx, rdy) = column_ray(&v, 200, 400);
    assert_eq!(rdx, FP_ONE);
    assert_eq!(rdy, 0);
    let hit = cast_ray(&g, v.pos.x, v.pos.y, rdx, rdy);
    assert_eq!(hit.side, 0);
    assert_eq!(hit.perp, 3 * FP_ONE);
}

#[test]
fn camera_offsets_span_the_plane() {
    let v = reference_viewer();
    // Column 0 points one camera-plane unit left, the last column almost
    // one unit right.
    let (rdx0, rdy0) = column_ray(&v, 0, 400);
    assert_eq!(rdx0, FP_ONE);
    assert_eq!(rdy0, -(v.plane.y));
    let (rdx1, rdy1) = column_ray(&v, 399, 400);
    assert_eq!(rdx1, FP_ONE);
    assert!(rdy1 > 0);
    assert!((v.plane.y - rdy1).abs() < FP_ONE / 100);
}
