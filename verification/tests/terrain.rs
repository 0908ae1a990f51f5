use wasm_worms::fixed::Vec2;
use wasm_worms::terrain::{column_height, TerrainMap};

fn flat(width: usize, height: usize, level: usize) -> TerrainMap {
    TerrainMap::with_surface(width, height, &vec![level; width])
}

fn bitmap(terrain: &TerrainMap) -> Vec<bool> {
    let mut cells = Vec::new();
    for y in 0..terrain.height() as i32 {
        for x in 0..terrain.width() as i32 {
            cells.push(terrain.is_solid(x, y));
        }
    }
    cells
}

#[test]
fn surface_fills_columns_from_the_bottom() {
    let terrain = TerrainMap::with_surface(4, 6, &vec![0, 2, 6, 9]);
    assert_eq!(terrain.width(), 4);
    assert_eq!(terrain.height(), 6);
    assert!(!terrain.is_solid(0, 0));
    assert!(terrain.is_solid(1, 0));
    assert!(terrain.is_solid(1, 1));
    assert!(!terrain.is_solid(1, 2));
    assert!(terrain.is_solid(2, 5));
    assert!(terrain.is_solid(3, 5));
}

#[test]
fn short_profile_leaves_columns_empty() {
    let terrain = TerrainMap::with_surface(3, 3, &vec![3]);
    assert!(terrain.is_solid(0, 2));
    assert!(!terrain.is_solid(1, 0));
    assert!(!terrain.is_solid(2, 0));
}

#[test]
fn queries_outside_the_grid_are_empty() {
    let terrain = flat(8, 8, 8);
    assert!(terrain.is_solid(0, 0));
    assert!(terrain.is_solid(7, 7));
    assert!(!terrain.is_solid(-1, 0));
    assert!(!terrain.is_solid(0, -1));
    assert!(!terrain.is_solid(8, 0));
    assert!(!terrain.is_solid(0, 8));
    assert!(!terrain.is_solid(i32::MAX, i32::MAX));
    assert!(!terrain.is_solid(i32::MIN, i32::MIN));
}

#[test]
fn empty_terrain_never_collides() {
    let terrain = TerrainMap::with_surface(0, 0, &Vec::new());
    assert!(!terrain.is_solid(0, 0));
    assert!(!terrain.check_collision(0, 0, 1_000_000));
}

#[test]
fn collision_reaches_exactly_to_the_radius() {
    let terrain = flat(8, 8, 4);
    // The nearest solid cell to (2, 5) is (2, 3), two units away.
    assert!(!terrain.check_collision(2_000, 5_000, 1_000));
    assert!(!terrain.check_collision(2_000, 5_000, 1_999));
    assert!(terrain.check_collision(2_000, 5_000, 2_000));
    assert!(terrain.check_collision(2_000, 5_000, 3_000));
}

#[test]
fn collision_with_radius_zero_is_a_point_query() {
    let terrain = flat(8, 8, 4);
    assert!(terrain.check_collision(2_000, 3_000, 0));
    assert!(!terrain.check_collision(2_000, 4_000, 0));
    assert!(!terrain.check_collision(2_000, 3_500, 0));
    assert!(!terrain.check_collision(2_500, 3_000, 0));
    for y in 0..8 {
        for x in 0..8 {
            assert_eq!(
                terrain.check_collision(x as i64 * 1000, y as i64 * 1000, 0),
                terrain.is_solid(x, y)
            );
        }
    }
}

#[test]
fn collision_with_negative_radius_finds_nothing() {
    let terrain = flat(8, 8, 8);
    assert!(!terrain.check_collision(2_000, 2_000, -1));
}

#[test]
fn collision_far_outside_the_grid() {
    let terrain = flat(8, 8, 8);
    assert!(!terrain.check_collision(i64::MAX, i64::MAX, 1_000));
    assert!(!terrain.check_collision(i64::MIN, i64::MIN, 1_000));
    assert!(terrain.check_collision(-5_000, 0, 5_000));
    assert!(!terrain.check_collision(-5_000, 0, 4_999));
}

#[test]
fn carving_clears_the_cells_within_the_radius() {
    let mut terrain = flat(8, 8, 4);
    terrain.destroy_circle(4_000, 3_000, 1_000);
    assert!(!terrain.is_solid(4, 3));
    assert!(!terrain.is_solid(3, 3));
    assert!(!terrain.is_solid(5, 3));
    assert!(!terrain.is_solid(4, 2));
    assert!(terrain.is_solid(3, 2));
    assert!(terrain.is_solid(5, 2));
    assert!(terrain.is_solid(4, 1));
    assert!(terrain.is_solid(2, 3));
    assert!(!terrain.check_collision(4_000, 3_000, 1_000));
}

#[test]
fn carving_twice_equals_carving_once() {
    let mut once = flat(40, 30, 20);
    once.destroy_circle(17_300, 18_900, 6_500);
    let mut twice = flat(40, 30, 20);
    twice.destroy_circle(17_300, 18_900, 6_500);
    twice.destroy_circle(17_300, 18_900, 6_500);
    assert_eq!(bitmap(&once), bitmap(&twice));
    assert_eq!(once.take_dirty_chunks(), twice.take_dirty_chunks());
}

#[test]
fn second_carve_marks_nothing() {
    let mut terrain = flat(40, 30, 20);
    terrain.destroy_circle(17_300, 18_900, 6_500);
    assert_eq!(terrain.take_dirty_chunks(), vec![(0, 0)]);
    terrain.destroy_circle(17_300, 18_900, 6_500);
    assert!(terrain.take_dirty_chunks().is_empty());
}

#[test]
fn carving_with_negative_radius_changes_nothing() {
    let mut terrain = flat(8, 8, 4);
    let before = bitmap(&terrain);
    terrain.destroy_circle(4_000, 3_000, -5);
    assert_eq!(bitmap(&terrain), before);
    assert!(terrain.take_dirty_chunks().is_empty());
}

#[test]
fn carving_marks_every_chunk_it_touches() {
    let mut terrain = flat(200, 130, 130);
    // A circle around the corner where four chunks meet.
    terrain.destroy_circle(64_000, 64_000, 3_000);
    assert_eq!(terrain.take_dirty_chunks(), vec![(0, 0), (1, 0), (0, 1), (1, 1)]);
    assert!(terrain.take_dirty_chunks().is_empty());
    // A circle inside the last, partial chunk.
    terrain.destroy_circle(199_000, 129_000, 1_000);
    assert_eq!(terrain.take_dirty_chunks(), vec![(3, 2)]);
}

#[test]
fn carving_empty_space_marks_nothing() {
    let mut terrain = flat(100, 100, 10);
    terrain.destroy_circle(50_000, 80_000, 5_000);
    assert!(terrain.take_dirty_chunks().is_empty());
}

#[test]
fn carving_clipped_by_the_grid_edge() {
    let mut terrain = flat(8, 8, 8);
    terrain.destroy_circle(-1_000, -1_000, 2_000);
    assert!(!terrain.is_solid(0, 0));
    assert!(terrain.is_solid(1, 0));
    assert!(terrain.is_solid(0, 1));
}

#[test]
fn world_origin_is_the_middle_of_the_grid() {
    let terrain = flat(2048, 1024, 10);
    let grid = terrain.to_grid(Vec2 { x: 0, y: 0 });
    assert_eq!(grid, Vec2 { x: 1_024_000, y: 512_000 });
    let grid = terrain.to_grid(Vec2 { x: -100_500, y: 20_250 });
    assert_eq!(grid, Vec2 { x: 923_500, y: 532_250 });
    assert_eq!(terrain.to_world(grid), Vec2 { x: -100_500, y: 20_250 });
}

#[test]
fn column_height_follows_the_formula() {
    assert_eq!(column_height(100, 0, 0), 40);
    assert_eq!(column_height(100, 7, -3), 44);
    assert_eq!(column_height(1024, 80, -10), 479);
    assert_eq!(column_height(1024, -135, 9), 283);
}

#[test]
fn column_height_is_held_between_its_bounds() {
    assert_eq!(column_height(100, 100, 0), 75);
    assert_eq!(column_height(100, -100, 0), 10);
    assert_eq!(column_height(1024, i32::MAX, 9), 768);
    assert_eq!(column_height(1024, i32::MIN, -10), 102);
    assert_eq!(column_height(0, 50, 5), 0);
}

#[test]
fn generated_terrain_stays_within_the_drawn_range() {
    let hills = vec![0; 64];
    let terrain = TerrainMap::new(64, 100, &hills);
    for x in 0..64 {
        // The surface stands between 40 - 10 and 40 + 9.
        assert!(terrain.is_solid(x, 0));
        assert!(terrain.is_solid(x, 29));
        assert!(!terrain.is_solid(x, 49));
        assert!(!terrain.is_solid(x, 99));
        let mut top = 0;
        while terrain.is_solid(x, top) {
            top += 1;
        }
        for y in top..100 {
            assert!(!terrain.is_solid(x, y));
        }
    }
    let mut fresh = terrain;
    assert!(fresh.take_dirty_chunks().is_empty());
}

#[test]
fn generated_terrain_draws_different_offsets() {
    let hills = vec![0; 256];
    let terrain = TerrainMap::new(256, 100, &hills);
    let mut tops = Vec::new();
    for x in 0..256 {
        let mut top = 0;
        while terrain.is_solid(x, top) {
            top += 1;
        }
        tops.push(top);
    }
    let lowest = *tops.iter().min().unwrap();
    let highest = *tops.iter().max().unwrap();
    assert!(lowest >= 30);
    assert!(highest <= 49);
    assert!(lowest < highest);
}

#[test]
fn generated_terrain_follows_the_hills() {
    let hills = vec![-1000, 1000, 0];
    let terrain = TerrainMap::new(5, 200, &hills);
    // Column 0 is held at a tenth, column 1 at three quarters of the height.
    assert!(terrain.is_solid(0, 19));
    assert!(!terrain.is_solid(0, 20));
    assert!(terrain.is_solid(1, 149));
    assert!(!terrain.is_solid(1, 150));
    // Columns past the profile have no hill: 80 - 10 <= top <= 80 + 9.
    assert!(terrain.is_solid(4, 69));
    assert!(!terrain.is_solid(4, 89));
}

#[test]
fn a_collision_is_a_solid_cell_of_the_grid_within_the_radius() {
    let mut terrain = flat(12, 10, 5);
    terrain.destroy_circle(6_000, 4_000, 2_300);
    for (px, py, radius) in [
        (6_000i64, 4_000i64, 2_300i64),
        (6_000, 4_000, 2_400),
        (6_400, 3_700, 2_000),
        (-3_000, 2_000, 3_000),
        (-3_000, 2_000, 2_999),
        (11_500, 9_500, 4_600),
        (11_500, 9_500, 5_000),
        (5_000, -7_000, 7_000),
        (5_000, 20_000, 15_000),
        (5_000, 20_000, 16_000),
    ] {
        let mut expected = false;
        for y in 0..10i64 {
            for x in 0..12i64 {
                let dx = x * 1000 - px;
                let dy = y * 1000 - py;
                if terrain.is_solid(x as i32, y as i32) && dx * dx + dy * dy <= radius * radius {
                    expected = true;
                }
            }
        }
        assert_eq!(terrain.check_collision(px, py, radius), expected);
    }
}
