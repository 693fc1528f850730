use raycaster::FP_ONE;
use raycaster::buffer::PixelBuffer;
use raycaster::floors::cast_floors;
use raycaster::geom::{Rot2, Vec2Fx};
use raycaster::grid::Grid;
use raycaster::render::render;
use raycaster::texture::{Rgba, Texture};
use raycaster::viewer::{Viewer, PLANE_DEFAULT};
use raycaster::walls::cast_rays;

const REFERENCE_MAP: [[i32; 8]; 8] = [
    [1, 1, 1, 1, 1, 1, 1, 1],
    [1, 0, 0, 0, 0, 0, 0, 1],
    [1, 1, 1, 1, 0, 0, 0, 1],
    [1, 0, 0, 0, 0, 0, 0, 1],
    [1, 0, 0, 0, 0, 0, 0, 1],
    [1, 0, 0, 1, 1, 0, 0, 1],
    [1, 0, 0, 0, 0, 0, 0, 1],
    [1, 1, 1, 1, 1, 1, 1, 1],
];

fn reference_grid() -> Grid {
    let mut cells: Vec<bool> = Vec::new();
    for row in REFERENCE_MAP.iter() {
        for &c in row.iter() {
            cells.push(c == 1);
        }
    }
    Grid::new(8, 8, cells).expect("the reference map is a valid grid")
}

const SENTINEL: Rgba = Rgba { r: 1, g: 2, b: 3, a: 4 };

fn checker_texture(w: usize, h: usize) -> Texture {
    let mut pixels: Vec<Rgba> = Vec::new();
    for y in 0..h {
        for x in 0..w {
            let v = (31 * x + 57 * y) as u8;
            pixels.push(Rgba { r: v, g: v.wrapping_add(11), b: v ^ 0x55, a: 255 });
        }
    }
    Texture::new(w, h, pixels).expect("texture dimensions match")
}

fn solid_texture(c: Rgba) -> Texture {
    Texture::new(1, 1, vec![c]).expect("one sample")
}

#[test]
fn grid_rejects_open_border() {
    let mut cells = vec![true; 16];
    cells[1] = false; // a gap in the top border
    assert!(Grid::new(4, 4, cells).is_none());
}

#[test]
fn grid_rejects_wrong_cell_count() {
    assert!(Grid::new(4, 4, vec![true; 15]).is_none());
    assert!(Grid::new(0, 4, vec![]).is_none());
}

#[test]
fn grid_accepts_solid_border_and_reads_cells() {
    let g = reference_grid();
    assert!(g.occupied(0, 0));
    assert!(!g.occupied(4, 4));
    assert!(g.occupied(3, 5));
}

#[test]
fn texture_rejects_wrong_sample_count() {
    assert!(Texture::new(4, 4, vec![SENTINEL; 15]).is_none());
    assert!(Texture::new(0, 1, vec![]).is_none());
}

#[test]
fn buffer_put_and_get_round_trip() {
    let mut b = PixelBuffer::new(4, 3, SENTINEL).expect("dimensions in range");
    assert_eq!(b.get(2, 1), SENTINEL);
    let red = Rgba::new(255, 0, 0, 255);
    b.put(2, 1, red);
    assert_eq!(b.get(2, 1), red);
    assert_eq!(b.get(1, 1), SENTINEL);
    assert_eq!(b.get(2, 2), SENTINEL);
}

#[test]
fn floor_output_is_vertically_symmetric() {
    let v = Viewer::new(
        Vec2Fx { x: 4 * FP_ONE + 12345, y: 4 * FP_ONE + 321 },
        Vec2Fx { x: FP_ONE, y: 0 },
    );
    let t = checker_texture(16, 16);
    let mut b = PixelBuffer::new(24, 18, SENTINEL).expect("dimensions in range");
    cast_floors(&v, &t, &mut b);
    let h = 18;
    for x in 0..24 {
        for y in (h / 2 + 1)..h {
            assert_eq!(b.get(x, y), b.get(x, h - 1 - y));
        }
    }
}

#[test]
fn floor_never_touches_the_horizon_row() {
    let v = Viewer::new(
        Vec2Fx { x: 4 * FP_ONE, y: 4 * FP_ONE },
        Vec2Fx { x: FP_ONE, y: 0 },
    );
    let t = checker_texture(8, 8);
    // An even and an odd viewport height.
    for &h in [18usize, 17usize].iter() {
        let mut b = PixelBuffer::new(10, h, SENTINEL).expect("dimensions in range");
        cast_floors(&v, &t, &mut b);
        for x in 0..10 {
            assert_eq!(b.get(x, h / 2), SENTINEL);
        }
    }
}

#[test]
fn wall_at_unit_distance_fills_the_column() {
    // One tile east of (6, 4) stands the border wall at x = 7: the center
    // column's slice covers the whole viewport.
    let g = reference_grid();
    let v = Viewer::new(
        Vec2Fx { x: 6 * FP_ONE, y: 4 * FP_ONE },
        Vec2Fx { x: FP_ONE, y: 0 },
    );
    let wall = Rgba::new(200, 10, 10, 255);
    let t = solid_texture(wall);
    let mut b = PixelBuffer::new(400, 300, SENTINEL).expect("dimensions in range");
    cast_rays(&v, &g, &t, &mut b);
    assert_eq!(b.get(200, 0), wall);
    assert_eq!(b.get(200, 150), wall);
    assert_eq!(b.get(200, 299), wall);
}

#[test]
fn wall_at_three_tiles_covers_middle_third() {
    let g = reference_grid();
    let v = Viewer::new(
        Vec2Fx { x: 4 * FP_ONE, y: 4 * FP_ONE },
        Vec2Fx { x: FP_ONE, y: 0 },
    );
    let wall = Rgba::new(10, 200, 10, 255);
    let t = solid_texture(wall);
    let mut b = PixelBuffer::new(400, 300, SENTINEL).expect("dimensions in range");
    cast_rays(&v, &g, &t, &mut b);
    // Slice height 300 / 3 = 100, centered: rows 100..200.
    assert_eq!(b.get(200, 99), SENTINEL);
    assert_eq!(b.get(200, 100), wall);
    assert_eq!(b.get(200, 199), wall);
    assert_eq!(b.get(200, 200), SENTINEL);
}

#[test]
fn render_draws_walls_over_floor() {
    let g = reference_grid();
    let v = Viewer::new(
        Vec2Fx { x: 4 * FP_ONE, y: 4 * FP_ONE },
        Vec2Fx { x: FP_ONE, y: 0 },
    );
    let wall = Rgba::new(9, 9, 9, 255);
    let floor = Rgba::new(77, 66, 55, 255);
    let wt = solid_texture(wall);
    let ft = solid_texture(floor);
    let mut b = PixelBuffer::new(400, 300, SENTINEL).expect("dimensions in range");
    render(&v, &g, &wt, &ft, &mut b);
    // Center column: floor-pass ceiling above the slice, wall inside it.
    assert_eq!(b.get(200, 0), floor);
    assert_eq!(b.get(200, 150), wall);
    assert_eq!(b.get(200, 299), floor);
}

#[test]
fn default_plane_magnitude_is_two_thirds() {
    let v = Viewer::new(Vec2Fx { x: 0, y: 0 }, Vec2Fx { x: FP_ONE, y: 0 });
    assert_eq!(v.plane.x, 0);
    assert_eq!(v.plane.y, PLANE_DEFAULT);
    assert!((PLANE_DEFAULT as f64 / FP_ONE as f64 - 0.66).abs() < 1e-4);
}

#[test]
fn right_angle_turns_invert_exactly() {
    let mut v = Viewer::new(
        Vec2Fx { x: 3 * FP_ONE, y: 2 * FP_ONE },
        Vec2Fx { x: FP_ONE, y: 0 },
    );
    let before = v;
    v.rotate(Rot2::deg90());
    assert_eq!(v.dir, Vec2Fx { x: 0, y: -FP_ONE });
    assert_eq!(v.plane, Vec2Fx { x: PLANE_DEFAULT, y: 0 });
    v.rotate(Rot2::deg270());
    assert_eq!(v.dir, before.dir);
    assert_eq!(v.plane, before.plane);
    assert_eq!(v.pos, before.pos);
}

#[test]
fn small_turns_invert_within_rounding() {
    // A 30-degree turn and back: cos and sin in raw units, the inverse
    // rotation with the sine negated.
    let c: i64 = 56755;
    let s: i64 = 32768;
    let mut v = Viewer::new(Vec2Fx { x: 0, y: 0 }, Vec2Fx { x: FP_ONE, y: 0 });
    let before = v;
    let r = Rot2 { c, s };
    v.rotate(r);
    v.rotate(r.inverse());
    assert!((v.dir.x - before.dir.x).abs() <= 16);
    assert!((v.dir.y - before.dir.y).abs() <= 16);
    assert!((v.plane.x - before.plane.x).abs() <= 16);
    assert!((v.plane.y - before.plane.y).abs() <= 16);
}

#[test]
fn facing_stays_unit_length_under_turns() {
    let c: i64 = 56755;
    let s: i64 = 32768;
    let mut v = Viewer::new(Vec2Fx { x: 0, y: 0 }, Vec2Fx { x: FP_ONE, y: 0 });
    for _ in 0..48 {
        v.rotate(Rot2 { c, s });
        let n2 = (v.dir.x as f64).powi(2) + (v.dir.y as f64).powi(2);
        let n = n2.sqrt() / FP_ONE as f64;
        assert!((n - 1.0).abs() < 1e-3);
    }
}

#[test]
fn advance_moves_along_rotated_facing() {
    let mut v = Viewer::new(
        Vec2Fx { x: 4 * FP_ONE, y: 4 * FP_ONE },
        Vec2Fx { x: FP_ONE, y: 0 },
    );
    let step: i64 = 328; // 0.005 world units
    v.advance(Rot2::identity(), step);
    assert_eq!(v.pos, Vec2Fx { x: 4 * FP_ONE + 328, y: 4 * FP_ONE });
    v.advance(Rot2::deg180(), step);
    assert_eq!(v.pos, Vec2Fx { x: 4 * FP_ONE, y: 4 * FP_ONE });
    v.advance(Rot2::deg90(), step);
    assert_eq!(v.pos, Vec2Fx { x: 4 * FP_ONE, y: 4 * FP_ONE - 328 });
    v.advance(Rot2::deg270(), step);
    assert_eq!(v.pos, Vec2Fx { x: 4 * FP_ONE, y: 4 * FP_ONE });
}
