use wasm_worms::fixed::Vec2;
use wasm_worms::game_state::GamePhase;
use wasm_worms::wind::{should_change, WindSystem, WIND_LIMIT, WIND_PERIOD};

#[test]
fn the_wind_starts_calm() {
    let wind = WindSystem::new();
    assert_eq!(wind.force(), Vec2 { x: 0, y: 0 });
}

#[test]
fn a_strength_is_held_inside_the_range() {
    let mut wind = WindSystem::new();
    wind.set_strength(12_345);
    assert_eq!(wind.force(), Vec2 { x: 12_345, y: 0 });
    wind.set_strength(-60_000);
    assert_eq!(wind.force(), Vec2 { x: -60_000, y: 0 });
    wind.set_strength(60_000);
    assert_eq!(wind.force(), Vec2 { x: 59_999, y: 0 });
    wind.set_strength(i32::MAX);
    assert_eq!(wind.force(), Vec2 { x: 59_999, y: 0 });
    wind.set_strength(i32::MIN);
    assert_eq!(wind.force(), Vec2 { x: -60_000, y: 0 });
}

#[test]
fn a_new_wind_is_horizontal_and_bounded() {
    let mut wind = WindSystem::new();
    let mut seen = Vec::new();
    for _ in 0..200 {
        wind.generate_new_wind();
        let force = wind.force();
        assert_eq!(force.y, 0);
        assert!(force.x >= -(WIND_LIMIT as i64));
        assert!(force.x < WIND_LIMIT as i64);
        seen.push(force.x);
    }
    // The draws are not all the lower end of the range, nor all alike.
    assert!(seen.iter().any(|&x| x != -(WIND_LIMIT as i64)));
    assert!(seen.iter().any(|&x| x != seen[0]));
}

#[test]
fn the_timer_draws_a_wind_every_ten_seconds() {
    let mut wind = WindSystem::new();
    wind.set_strength(1);
    assert!(!wind.update_wind(4_000_000));
    assert!(!wind.update_wind(4_000_000));
    assert!(!wind.update_wind(1_999_999));
    assert_eq!(wind.force(), Vec2 { x: 1, y: 0 });
    assert!(wind.update_wind(1));
    assert!(!wind.update_wind((WIND_PERIOD - 1) as u32));
    assert!(wind.update_wind(1));
    // What is left over after a round counts for the next.
    assert!(wind.update_wind(u32::MAX));
    let rest = u32::MAX as u64 % WIND_PERIOD;
    assert!(!wind.update_wind((WIND_PERIOD - rest - 1) as u32));
    assert!(wind.update_wind(1));
}

#[test]
fn the_wind_keeps_still_outside_the_pause() {
    let mut wind = WindSystem::new();
    wind.set_strength(-4_321);
    for phase in [
        GamePhase::PlayerTurn,
        GamePhase::Aiming,
        GamePhase::Firing,
        GamePhase::ProjectileFlying,
        GamePhase::Explosion,
        GamePhase::GameOver,
    ] {
        for _ in 0..50 {
            assert!(!wind.change_wind_on_turn_end(phase));
        }
    }
    assert_eq!(wind.force(), Vec2 { x: -4_321, y: 0 });
}

#[test]
fn the_pause_between_turns_may_change_the_wind() {
    let mut wind = WindSystem::new();
    let mut changes = 0;
    for _ in 0..400 {
        let before = wind.force();
        if wind.change_wind_on_turn_end(GamePhase::TurnTransition) {
            changes += 1;
        } else {
            assert_eq!(wind.force(), before);
        }
        assert_eq!(wind.force().y, 0);
        assert!(wind.force().x.abs() <= WIND_LIMIT as i64);
    }
    assert!(changes > 0);
    assert!(changes < 400);
}

#[test]
fn three_draws_in_ten_change_the_wind() {
    assert!(should_change(0));
    assert!(should_change(299));
    assert!(!should_change(300));
    assert!(!should_change(999));
}

#[test]
fn a_draw_below_the_chance_changes_the_wind() {
    let mut wind = WindSystem::new();
    wind.set_strength(-4_321);
    assert!(!wind.change_on_roll(300));
    assert!(!wind.change_on_roll(999));
    assert!(!wind.change_on_roll(i32::MAX));
    assert_eq!(wind.force(), Vec2 { x: -4_321, y: 0 });
    assert!(wind.change_on_roll(299));
    assert!(wind.change_on_roll(0));
    assert!(wind.change_on_roll(i32::MIN));
    assert_eq!(wind.force().y, 0);
    assert!(wind.force().x >= -(WIND_LIMIT as i64) && wind.force().x < WIND_LIMIT as i64);
}
