use wasm_worms::fixed::Vec2;
use wasm_worms::physics::{
    apply_gravity, apply_velocity, apply_wind, check_ground_collision, fly, gain, integrate, land,
    resolve_terrain_collision, shift, step_body, Collider, RigidBody, Step, GRAVITY,
};
use wasm_worms::terrain::TerrainMap;

fn body_with(x: i64, y: i64) -> RigidBody {
    RigidBody { velocity: Vec2 { x, y }, ..RigidBody::new() }
}

fn ground(level: usize) -> TerrainMap {
    TerrainMap::with_surface(64, 64, &vec![level; 64])
}

#[test]
fn default_body_and_collider() {
    let body = RigidBody::default();
    assert_eq!(body.velocity, Vec2 { x: 0, y: 0 });
    assert_eq!(body.mass, 1000);
    assert_eq!(body.bounce, 300);
    assert_eq!(body.friction, 800);
    assert_eq!(body.gravity_scale, 1000);
    let collider = Collider::default();
    assert_eq!(collider.radius, 16_000);
    assert!(!collider.is_grounded);
    assert_eq!(RigidBody::new(), body);
    assert_eq!(Collider::new(), collider);
}

#[test]
fn gain_is_acceleration_times_factor_times_time() {
    assert_eq!(gain(GRAVITY, 1000, 1_000_000), -980_000);
    assert_eq!(gain(GRAVITY, 1200, 1_000_000), -1_176_000);
    assert_eq!(gain(GRAVITY, 1000, 16_667), -16_333);
    assert_eq!(gain(60_000, 500, 20_000), 600);
    assert_eq!(gain(60_000, 0, 20_000), 0);
    assert_eq!(gain(0, 1000, 20_000), 0);
}

#[test]
fn gravity_pulls_down_only() {
    let mut body = body_with(120_000, 50_000);
    apply_gravity(&mut body, 500_000);
    assert_eq!(body.velocity, Vec2 { x: 120_000, y: 50_000 - 490_000 });
    let mut light = RigidBody { gravity_scale: 0, ..body_with(1, 2) };
    apply_gravity(&mut light, 1_000_000);
    assert_eq!(light.velocity, Vec2 { x: 1, y: 2 });
}

#[test]
fn wind_pushes_as_far_as_the_resistance_lets_it() {
    let mut body = body_with(0, 0);
    apply_wind(&mut body, Vec2 { x: 60_000, y: 0 }, 500, 1_000_000);
    assert_eq!(body.velocity, Vec2 { x: 30_000, y: 0 });
    apply_wind(&mut body, Vec2 { x: -60_000, y: 0 }, 800, 500_000);
    assert_eq!(body.velocity, Vec2 { x: 6_000, y: 0 });
    apply_wind(&mut body, Vec2 { x: -60_000, y: 0 }, 0, 500_000);
    assert_eq!(body.velocity, Vec2 { x: 6_000, y: 0 });
}

#[test]
fn velocity_moves_then_friction_slows() {
    let mut position = Vec2 { x: 0, y: 0 };
    let mut body = body_with(100_000, -50_000);
    apply_velocity(&mut position, &mut body, 500_000, 800_000);
    assert_eq!(position, Vec2 { x: 50_000, y: -25_000 });
    assert_eq!(body.velocity, Vec2 { x: 80_000, y: -50_000 });
}

#[test]
fn integration_keeps_the_fixed_order() {
    let mut position = Vec2 { x: 0, y: 0 };
    let mut body = body_with(0, 0);
    integrate(&mut position, &mut body, Vec2 { x: 10_000, y: 0 }, 1000, 1_000_000, 500_000);
    // Gravity and wind act before the motion, friction after it.
    assert_eq!(position, Vec2 { x: 10_000, y: -980_000 });
    assert_eq!(body.velocity, Vec2 { x: 5_000, y: -980_000 });
}

#[test]
fn integration_saturates_at_the_end_of_the_range() {
    let mut position = Vec2 { x: i64::MAX - 5, y: i64::MIN };
    let mut body = body_with(i64::MAX, i64::MIN);
    integrate(&mut position, &mut body, Vec2 { x: 0, y: 0 }, 0, 4_000_000_000, 1_000_000);
    assert_eq!(position, Vec2 { x: i64::MAX, y: -i64::MAX });
    assert_eq!(body.velocity, Vec2 { x: i64::MAX, y: -i64::MAX });
}

#[test]
fn runs_are_reproducible() {
    let steps: Vec<Step> = (0..120)
        .map(|i| Step { dt: 16_000 + (i % 3) * 667, decay: 996_288 })
        .collect();
    let wind = Vec2 { x: -37_250, y: 0 };
    let mut first_position = Vec2 { x: 12_345, y: 678_901 };
    let mut first = RigidBody { velocity: Vec2 { x: 424_264, y: 424_264 }, ..RigidBody::new() };
    let mut second_position = first_position;
    let mut second = RigidBody { mass: 77, bounce: 900, friction: 1, ..first };
    fly(&mut first_position, &mut first, wind, 500, &steps);
    fly(&mut second_position, &mut second, wind, 500, &steps);
    assert_eq!(first_position, second_position);
    assert_eq!(first.velocity, second.velocity);
}

#[test]
fn a_run_is_its_steps_one_after_the_other() {
    let steps = vec![
        Step { dt: 20_000, decay: 1_000_000 },
        Step { dt: 10_000, decay: 900_000 },
        Step { dt: 0, decay: 1_000_000 },
    ];
    let wind = Vec2 { x: 5_000, y: 0 };
    let mut position = Vec2 { x: 0, y: 0 };
    let mut body = body_with(300_000, 400_000);
    let mut stepped_position = position;
    let mut stepped = body;
    fly(&mut position, &mut body, wind, 700, &steps);
    for step in &steps {
        integrate(&mut stepped_position, &mut stepped, wind, 700, step.dt, step.decay);
    }
    assert_eq!(position, stepped_position);
    assert_eq!(body, stepped);
    let mut still = Vec2 { x: 1, y: 2 };
    let mut same = body_with(3, 4);
    fly(&mut still, &mut same, wind, 700, &Vec::new());
    assert_eq!(still, Vec2 { x: 1, y: 2 });
    assert_eq!(same, body_with(3, 4));
}

#[test]
fn a_fast_landing_rebounds() {
    let mut body = body_with(10_000, -1_000_000);
    let mut collider = Collider::new();
    land(&mut body, &mut collider);
    assert_eq!(body.velocity, Vec2 { x: 10_000, y: 300_000 });
    assert!(!collider.is_grounded);
}

#[test]
fn a_slow_landing_comes_to_rest() {
    let mut body = body_with(10_000, -100_000);
    let mut collider = Collider::new();
    land(&mut body, &mut collider);
    assert_eq!(body.velocity, Vec2 { x: 10_000, y: 0 });
    assert!(collider.is_grounded);
}

#[test]
fn the_rest_speed_itself_still_rebounds() {
    // A rebound of exactly fifty units per second is not below the limit.
    let mut body = RigidBody { bounce: 500, ..body_with(0, -100_000) };
    let mut collider = Collider::new();
    land(&mut body, &mut collider);
    assert_eq!(body.velocity.y, 50_000);
    assert!(!collider.is_grounded);
}

#[test]
fn a_rising_body_does_not_land() {
    let mut body = body_with(0, 20_000);
    let mut collider = Collider::new();
    land(&mut body, &mut collider);
    assert_eq!(body.velocity.y, 20_000);
    assert!(!collider.is_grounded);
}

#[test]
fn flat_ground_holds_a_body_up() {
    let mut position = Vec2 { x: 7_000, y: -290_000 };
    let mut body = body_with(0, -100_000);
    let mut collider = Collider::new();
    check_ground_collision(&mut position, &mut body, &mut collider);
    assert_eq!(position, Vec2 { x: 7_000, y: -284_000 });
    assert_eq!(body.velocity.y, 0);
    assert!(collider.is_grounded);
}

#[test]
fn a_body_above_the_flat_ground_is_in_the_air() {
    let mut position = Vec2 { x: 0, y: -283_999 };
    let mut body = body_with(0, -100_000);
    let mut collider = Collider { radius: 16_000, is_grounded: true };
    check_ground_collision(&mut position, &mut body, &mut collider);
    assert_eq!(position, Vec2 { x: 0, y: -283_999 });
    assert_eq!(body.velocity.y, -100_000);
    assert!(!collider.is_grounded);
}

#[test]
fn shifting_by_whole_units() {
    assert_eq!(shift(Vec2 { x: 10, y: 20 }, 3, -2), Vec2 { x: 3_010, y: -1_980 });
    assert_eq!(shift(Vec2 { x: i64::MAX, y: i64::MIN }, 32, -32), Vec2 { x: i64::MAX, y: -i64::MAX });
}

#[test]
fn terrain_lifts_a_sunken_body_to_the_nearest_free_place() {
    let terrain = ground(32);
    // World (0, 10) is grid (32, 42): the top row of cells, 31, is eleven
    // units below, inside the radius of sixteen.
    let mut position = Vec2 { x: 0, y: 10_000 };
    let mut body = body_with(5_000, -100_000);
    let mut collider = Collider::new();
    resolve_terrain_collision(&terrain, &mut position, &mut body, &mut collider);
    assert_eq!(position, Vec2 { x: 0, y: 16_000 });
    assert_eq!(body.velocity, Vec2 { x: 5_000, y: 0 });
    assert!(collider.is_grounded);
    assert!(!terrain.check_collision(32_000, 48_000, 16_000));
    assert!(terrain.check_collision(32_000, 47_000, 16_000));
}

#[test]
fn terrain_leaves_a_free_body_as_it_is() {
    let terrain = ground(32);
    for grounded in [true, false] {
        let mut position = Vec2 { x: 0, y: 20_000 };
        let mut body = body_with(5_000, -100_000);
        let mut collider = Collider { radius: 16_000, is_grounded: grounded };
        resolve_terrain_collision(&terrain, &mut position, &mut body, &mut collider);
        assert_eq!(position, Vec2 { x: 0, y: 20_000 });
        assert_eq!(body.velocity, Vec2 { x: 5_000, y: -100_000 });
        assert_eq!(collider, Collider { radius: 16_000, is_grounded: grounded });
    }
}

#[test]
fn a_lifted_body_that_does_not_fall_stands_on_the_ground() {
    let terrain = ground(32);
    for rising in [0, 1, 250_000] {
        let mut position = Vec2 { x: 0, y: 10_000 };
        let mut body = body_with(5_000, rising);
        let mut collider = Collider::new();
        resolve_terrain_collision(&terrain, &mut position, &mut body, &mut collider);
        assert_eq!(position, Vec2 { x: 0, y: 16_000 });
        assert_eq!(body.velocity, Vec2 { x: 5_000, y: rising });
        assert!(collider.is_grounded);
    }
}

#[test]
fn a_lifted_body_that_falls_fast_rebounds() {
    let terrain = ground(32);
    let mut position = Vec2 { x: 0, y: 10_000 };
    let mut body = body_with(5_000, -1_000_000);
    let mut collider = Collider::new();
    resolve_terrain_collision(&terrain, &mut position, &mut body, &mut collider);
    assert_eq!(position, Vec2 { x: 0, y: 16_000 });
    assert_eq!(body.velocity, Vec2 { x: 5_000, y: 300_000 });
    assert!(!collider.is_grounded);
}

#[test]
fn terrain_moves_a_buried_body_sideways() {
    // Solid everywhere but a shaft of empty columns on the right.
    let mut levels = vec![200usize; 120];
    for level in levels.iter_mut().skip(100) {
        *level = 0;
    }
    let terrain = TerrainMap::with_surface(120, 200, &levels);
    // Grid (90, 50): nothing is free above within reach; the nearest free
    // place is to the right, where the circle of radius two clears column 99.
    let mut position = Vec2 { x: 30_000, y: -50_000 };
    let mut body = body_with(70_000, -40_000);
    let mut collider = Collider { radius: 2_000, is_grounded: false };
    resolve_terrain_collision(&terrain, &mut position, &mut body, &mut collider);
    assert_eq!(position, Vec2 { x: 42_000, y: -50_000 });
    assert_eq!(body.velocity, Vec2 { x: 0, y: -40_000 });
    assert!(!collider.is_grounded);
}

#[test]
fn terrain_prefers_the_nearer_side() {
    let mut levels = vec![200usize; 200];
    for level in levels.iter_mut().take(96) {
        *level = 0;
    }
    for level in levels.iter_mut().skip(120) {
        *level = 0;
    }
    let terrain = TerrainMap::with_surface(200, 200, &levels);
    // Grid (100, 50): free places lie five units to the left and twenty to
    // the right.
    let mut position = Vec2 { x: 0, y: -50_000 };
    let mut body = body_with(70_000, 0);
    let mut collider = Collider { radius: 0, is_grounded: false };
    resolve_terrain_collision(&terrain, &mut position, &mut body, &mut collider);
    assert_eq!(position, Vec2 { x: -5_000, y: -50_000 });
    assert_eq!(body.velocity.x, 0);
}

#[test]
fn terrain_keeps_a_body_that_cannot_be_freed() {
    let terrain = TerrainMap::with_surface(200, 200, &vec![200; 200]);
    let mut position = Vec2 { x: 0, y: 0 };
    let mut body = body_with(70_000, -40_000);
    let mut collider = Collider::new();
    resolve_terrain_collision(&terrain, &mut position, &mut body, &mut collider);
    assert_eq!(position, Vec2 { x: 0, y: 0 });
    assert_eq!(body.velocity, Vec2 { x: 70_000, y: -40_000 });
}

#[test]
fn a_full_tick_moves_before_it_collides() {
    let terrain = ground(32);
    let step = Step { dt: 100_000, decay: 1_000_000 };
    // Starts free at world (0, 20) and falls ten units in the tick.
    let mut position = Vec2 { x: 0, y: 20_000 };
    let mut body = RigidBody { gravity_scale: 0, ..body_with(0, -100_000) };
    let mut collider = Collider::new();
    step_body(&terrain, &mut position, &mut body, &mut collider, Vec2 { x: 0, y: 0 }, 0, step, true);
    assert_eq!(position, Vec2 { x: 0, y: 16_000 });
    assert_eq!(body.velocity.y, 0);
    assert!(collider.is_grounded);
    // A body that cannot stand passes through.
    let mut position = Vec2 { x: 0, y: 20_000 };
    let mut body = RigidBody { gravity_scale: 0, ..body_with(0, -100_000) };
    let mut collider = Collider::new();
    step_body(&terrain, &mut position, &mut body, &mut collider, Vec2 { x: 0, y: 0 }, 0, step, false);
    assert_eq!(position, Vec2 { x: 0, y: 10_000 });
    assert_eq!(body.velocity.y, -100_000);
    assert!(!collider.is_grounded);
}
