use wasm_worms::fixed::Vec2;
use wasm_worms::game_state::GameState;
use wasm_worms::physics::{Collider, RigidBody};
use wasm_worms::terrain::TerrainMap;
use wasm_worms::worm::{
    active_worm, spawn_positions, worm_fall_damage, worm_movement, MoveInput, Worm,
};

const NO_INPUT: MoveInput = MoveInput { left: false, right: false, jump: false };

fn moving(x: i64, y: i64) -> RigidBody {
    RigidBody { velocity: Vec2 { x, y }, ..RigidBody::new() }
}

fn standing() -> Collider {
    Collider { radius: 16_000, is_grounded: true }
}

#[test]
fn the_default_worm() {
    let worm = Worm::default();
    assert_eq!(worm.health, 100_000);
    assert_eq!(worm.max_health, 100_000);
    assert_eq!(worm.team, 0);
    assert_eq!(worm.move_speed, 150_000);
    assert_eq!(worm.jump_force, 400_000);
    assert_eq!(Worm::new(3), Worm { team: 3, ..worm });
    assert!(worm.is_alive());
}

#[test]
fn a_worm_lives_while_it_has_health() {
    assert!(Worm { health: 1, ..Worm::new(0) }.is_alive());
    assert!(!Worm { health: 0, ..Worm::new(0) }.is_alive());
    assert!(!Worm { health: -1, ..Worm::new(0) }.is_alive());
}

#[test]
fn damage_is_taken_from_the_health() {
    let mut worm = Worm::new(0);
    worm.apply_damage(60_000);
    assert_eq!(worm.health, 40_000);
    worm.apply_damage(0);
    assert_eq!(worm.health, 40_000);
    worm.apply_damage(40_001);
    assert_eq!(worm.health, 0);
    worm.apply_damage(5);
    assert_eq!(worm.health, 0);
}

#[test]
fn health_never_passes_the_maximum() {
    let mut worm = Worm::new(0);
    worm.apply_damage(-20_000);
    assert_eq!(worm.health, 100_000);
    let mut worm = Worm { health: 30_000, ..Worm::new(0) };
    worm.apply_damage(i64::MIN);
    assert_eq!(worm.health, 100_000);
    worm.apply_damage(i64::MAX);
    assert_eq!(worm.health, 0);
    let mut odd = Worm { health: 5, max_health: -3, ..Worm::new(0) };
    odd.apply_damage(1);
    assert_eq!(odd.health, 0);
}

#[test]
fn the_active_worm_walks_where_the_keys_say() {
    let state = GameState::new();
    let worm = Worm::new(0);
    let mut body = moving(7, -9);
    worm_movement(&mut body, &worm, &standing(), &state, MoveInput { right: true, ..NO_INPUT });
    assert_eq!(body.velocity, Vec2 { x: 150_000, y: -9 });
    worm_movement(&mut body, &worm, &standing(), &state, MoveInput { left: true, ..NO_INPUT });
    assert_eq!(body.velocity, Vec2 { x: -150_000, y: -9 });
    worm_movement(
        &mut body,
        &worm,
        &standing(),
        &state,
        MoveInput { left: true, right: true, jump: false },
    );
    assert_eq!(body.velocity, Vec2 { x: 0, y: -9 });
    body.velocity.x = 33;
    worm_movement(&mut body, &worm, &standing(), &state, NO_INPUT);
    assert_eq!(body.velocity, Vec2 { x: 0, y: -9 });
}

#[test]
fn a_worm_jumps_from_the_ground_only() {
    let state = GameState::new();
    let worm = Worm::new(0);
    let jump = MoveInput { jump: true, ..NO_INPUT };
    let mut body = moving(0, -9);
    worm_movement(&mut body, &worm, &Collider::new(), &state, jump);
    assert_eq!(body.velocity.y, -9);
    worm_movement(&mut body, &worm, &standing(), &state, jump);
    assert_eq!(body.velocity.y, 400_000);
}

#[test]
fn only_the_living_worm_of_the_current_team_moves() {
    let state = GameState::new();
    let input = MoveInput { left: false, right: true, jump: true };
    let mut body = moving(7, -9);
    worm_movement(&mut body, &Worm::new(1), &standing(), &state, input);
    assert_eq!(body.velocity, Vec2 { x: 7, y: -9 });
    worm_movement(&mut body, &Worm { health: 0, ..Worm::new(0) }, &standing(), &state, input);
    assert_eq!(body.velocity, Vec2 { x: 7, y: -9 });
    let mut flying = GameState::new();
    flying.start_aiming();
    worm_movement(&mut body, &Worm::new(0), &standing(), &flying, input);
    assert_eq!(body.velocity, Vec2 { x: 150_000, y: 400_000 });
    flying.start_firing();
    let mut body = moving(7, -9);
    worm_movement(&mut body, &Worm::new(0), &standing(), &flying, input);
    assert_eq!(body.velocity, Vec2 { x: 7, y: -9 });
}

#[test]
fn a_hard_landing_hurts() {
    let mut worm = Worm::new(0);
    worm_fall_damage(&mut worm, &moving(0, -500_000), &standing());
    assert_eq!(worm.health, 80_000);
    worm_fall_damage(&mut worm, &moving(0, 500_000), &standing());
    assert_eq!(worm.health, 60_000);
    worm_fall_damage(&mut worm, &moving(900_000, -300_000), &standing());
    assert_eq!(worm.health, 60_000);
    worm_fall_damage(&mut worm, &moving(0, -300_009), &standing());
    assert_eq!(worm.health, 60_000);
    worm_fall_damage(&mut worm, &moving(0, -300_010), &standing());
    assert_eq!(worm.health, 59_999);
    worm_fall_damage(&mut worm, &moving(0, -5_000_000), &Collider::new());
    assert_eq!(worm.health, 59_999);
    worm_fall_damage(&mut worm, &moving(0, i64::MIN), &standing());
    assert_eq!(worm.health, 0);
}

#[test]
fn the_worms_start_on_either_side() {
    let terrain = TerrainMap::with_surface(2048, 1024, &Vec::new());
    let (left, right) = spawn_positions(&terrain);
    assert_eq!(left, Vec2 { x: -614_400, y: 307_200 });
    assert_eq!(right, Vec2 { x: 614_400, y: 307_200 });
    let small = TerrainMap::with_surface(7, 3, &Vec::new());
    let (left, right) = spawn_positions(&small);
    assert_eq!(left, Vec2 { x: -2_100, y: 900 });
    assert_eq!(right, Vec2 { x: 2_100, y: 900 });
}

#[test]
fn the_active_worm_is_the_first_of_its_team_that_lives() {
    let worms = vec![
        Worm::new(1),
        Worm { health: 0, ..Worm::new(0) },
        Worm::new(0),
        Worm::new(0),
        Worm { health: -1, ..Worm::new(2) },
    ];
    assert_eq!(active_worm(&worms, 0), Some(2));
    assert_eq!(active_worm(&worms, 1), Some(0));
    assert_eq!(active_worm(&worms, 2), None);
    assert_eq!(active_worm(&worms, 3), None);
    assert_eq!(active_worm(&Vec::new(), 0), None);
}
