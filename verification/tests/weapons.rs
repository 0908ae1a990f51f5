use wasm_worms::fixed::Vec2;
use wasm_worms::physics::{Collider, RigidBody, Step};
use wasm_worms::terrain::TerrainMap;
use wasm_worms::weapons::{
    advance_projectile, burn_fuse, burst_offset, fire_weapon, is_out_of_bounds, tick_projectile,
    Projectile, ProjectileFate, WeaponInventory, WeaponType,
};

fn ground() -> TerrainMap {
    TerrainMap::with_surface(64, 64, &vec![32; 64])
}

fn grenade() -> Projectile {
    fire_weapon(WeaponType::Grenade, Vec2 { x: 0, y: 0 }, 0, 1000)[0].projectile
}

fn bazooka() -> Projectile {
    fire_weapon(WeaponType::Bazooka, Vec2 { x: 0, y: 0 }, 0, 1000)[0].projectile
}

#[test]
fn the_weapon_table() {
    let bazooka = WeaponType::Bazooka.get_stats();
    assert_eq!(bazooka.damage, 50_000);
    assert_eq!(bazooka.explosion_radius, 80_000);
    assert_eq!(bazooka.projectile_speed, 600_000);
    assert_eq!(bazooka.gravity_scale, 1000);
    assert_eq!(bazooka.wind_resistance, 500);
    assert_eq!(bazooka.fuse_time, None);
    assert_eq!(bazooka.projectile_count, 1);
    assert_eq!(bazooka.spread_angle, 0);
    let grenade = WeaponType::Grenade.get_stats();
    assert_eq!(grenade.damage, 60_000);
    assert_eq!(grenade.explosion_radius, 100_000);
    assert_eq!(grenade.projectile_speed, 400_000);
    assert_eq!(grenade.gravity_scale, 1200);
    assert_eq!(grenade.wind_resistance, 800);
    assert_eq!(grenade.fuse_time, Some(3_000_000));
    assert_eq!(grenade.projectile_count, 1);
    let cluster = WeaponType::ClusterBomb.get_stats();
    assert_eq!(cluster.damage, 35_000);
    assert_eq!(cluster.explosion_radius, 60_000);
    assert_eq!(cluster.projectile_speed, 350_000);
    assert_eq!(cluster.gravity_scale, 1000);
    assert_eq!(cluster.wind_resistance, 700);
    assert_eq!(cluster.fuse_time, Some(2_500_000));
    assert_eq!(cluster.projectile_count, 3);
    assert_eq!(cluster.spread_angle, 300);
}

#[test]
fn a_burst_of_five_fans_out_evenly() {
    let offsets: Vec<i64> = (0..5).map(|i| burst_offset(i, 5, 300)).collect();
    assert_eq!(offsets, vec![-300, -150, 0, 150, 300]);
}

#[test]
fn burst_offsets_mirror_each_other() {
    for count in 1..9u32 {
        for spread in [0i64, 1, 7, 300, -300, 1001] {
            for i in 0..count {
                assert_eq!(
                    burst_offset(count - 1 - i, count, spread),
                    -burst_offset(i, count, spread)
                );
            }
            if count > 1 {
                assert_eq!(burst_offset(0, count, spread), -spread);
                assert_eq!(burst_offset(count - 1, count, spread), spread);
            } else {
                assert_eq!(burst_offset(0, count, spread), 0);
            }
        }
    }
}

#[test]
fn uneven_burst_offsets_round_toward_the_aim() {
    let offsets: Vec<i64> = (0..4).map(|i| burst_offset(i, 4, 100)).collect();
    assert_eq!(offsets, vec![-100, -33, 33, 100]);
}

#[test]
fn a_single_projectile_keeps_the_aim() {
    let origin = Vec2 { x: 5_000, y: 6_000 };
    let shots = fire_weapon(WeaponType::Bazooka, origin, 785, 1000);
    assert_eq!(shots.len(), 1);
    assert_eq!(shots[0].origin, origin);
    assert_eq!(shots[0].heading, 785);
    assert_eq!(shots[0].speed, 600_000);
    assert_eq!(shots[0].gravity_scale, 1000);
    assert_eq!(shots[0].projectile.weapon_type, WeaponType::Bazooka);
    assert_eq!(shots[0].projectile.damage, 50_000);
    assert_eq!(shots[0].projectile.explosion_radius, 80_000);
    assert_eq!(shots[0].projectile.fuse_timer, None);
    assert_eq!(shots[0].projectile.wind_resistance, 500);
    assert!(!shots[0].projectile.has_exploded);
}

#[test]
fn power_scales_the_speed() {
    assert_eq!(fire_weapon(WeaponType::Grenade, Vec2 { x: 0, y: 0 }, 0, 500)[0].speed, 200_000);
    assert_eq!(fire_weapon(WeaponType::Grenade, Vec2 { x: 0, y: 0 }, 0, 0)[0].speed, 0);
    assert_eq!(fire_weapon(WeaponType::Grenade, Vec2 { x: 0, y: 0 }, 0, 1)[0].speed, 400);
    assert_eq!(fire_weapon(WeaponType::Grenade, Vec2 { x: 0, y: 0 }, 0, 1000)[0].speed, 400_000);
}

#[test]
fn the_cluster_bomb_leaves_as_a_burst() {
    let shots = fire_weapon(WeaponType::ClusterBomb, Vec2 { x: 1, y: 2 }, 785, 500);
    assert_eq!(shots.len(), 3);
    let headings: Vec<i64> = shots.iter().map(|shot| shot.heading).collect();
    assert_eq!(headings, vec![485, 785, 1085]);
    for shot in &shots {
        assert_eq!(shot.speed, 175_000);
        assert_eq!(shot.origin, Vec2 { x: 1, y: 2 });
        assert_eq!(shot.projectile.fuse_timer, Some(2_500_000));
        assert_eq!(shot.projectile.damage, 35_000);
    }
}

#[test]
fn a_shot_takes_its_velocity_from_its_direction() {
    let shot = fire_weapon(WeaponType::Bazooka, Vec2 { x: 0, y: 0 }, 785, 1000)[0];
    let body = shot.body(Vec2 { x: 1_000_000, y: 0 });
    assert_eq!(body.velocity, Vec2 { x: 600_000, y: 0 });
    let body = shot.body(Vec2 { x: 707_107, y: -707_107 });
    assert_eq!(body.velocity, Vec2 { x: 424_264, y: -424_264 });
    assert_eq!(body.mass, 100);
    assert_eq!(body.bounce, 300);
    assert_eq!(body.friction, 900);
    assert_eq!(body.gravity_scale, 1000);
    assert_eq!(shot.collider(), Collider { radius: 4_000, is_grounded: false });
    let grenade = fire_weapon(WeaponType::Grenade, Vec2 { x: 0, y: 0 }, 0, 1000)[0];
    assert_eq!(grenade.body(Vec2 { x: 0, y: 1_000_000 }).gravity_scale, 1200);
}

#[test]
fn the_fuse_burns_down_and_stays_at_zero() {
    assert_eq!(burn_fuse(Some(3_000_000), 1_000_000), Some(2_000_000));
    assert_eq!(burn_fuse(Some(500), 500), Some(0));
    assert_eq!(burn_fuse(Some(500), 501), Some(0));
    assert_eq!(burn_fuse(Some(0), 10), Some(0));
    assert_eq!(burn_fuse(None, 10), None);
}

#[test]
fn a_grenade_goes_off_when_its_fuse_is_burnt() {
    let terrain = ground();
    let high = Vec2 { x: 0, y: 200_000 };
    let collider = Collider { radius: 4_000, is_grounded: false };
    let mut projectile = grenade();
    assert!(!tick_projectile(&mut projectile, &terrain, high, &collider, 1_000_000));
    assert_eq!(projectile.fuse_timer, Some(2_000_000));
    assert!(!tick_projectile(&mut projectile, &terrain, high, &collider, 1_999_999));
    assert!(!projectile.has_exploded);
    assert!(tick_projectile(&mut projectile, &terrain, high, &collider, 1));
    assert!(projectile.has_exploded);
    assert_eq!(projectile.fuse_timer, Some(0));
}

#[test]
fn a_projectile_goes_off_once() {
    let terrain = ground();
    let high = Vec2 { x: 0, y: 200_000 };
    let buried = Vec2 { x: 0, y: -10_000 };
    let collider = Collider { radius: 4_000, is_grounded: false };
    let mut projectile = grenade();
    assert!(tick_projectile(&mut projectile, &terrain, high, &collider, 3_000_000));
    let after = projectile;
    assert!(!tick_projectile(&mut projectile, &terrain, high, &collider, 1_000_000));
    assert!(!tick_projectile(&mut projectile, &terrain, buried, &collider, 1_000_000));
    assert_eq!(projectile, after);
}

#[test]
fn a_projectile_goes_off_on_impact() {
    let terrain = ground();
    let collider = Collider { radius: 4_000, is_grounded: false };
    // Grid row 31 is the top of the ground: world y = -1.
    let mut projectile = bazooka();
    assert!(!tick_projectile(&mut projectile, &terrain, Vec2 { x: 0, y: 3_001 }, &collider, 20_000));
    assert!(!projectile.has_exploded);
    assert!(tick_projectile(&mut projectile, &terrain, Vec2 { x: 0, y: 3_000 }, &collider, 20_000));
    assert!(projectile.has_exploded);
    let mut timed = grenade();
    assert!(tick_projectile(&mut timed, &terrain, Vec2 { x: 0, y: 0 }, &collider, 20_000));
    assert_eq!(timed.fuse_timer, Some(2_980_000));
}

#[test]
fn escaped_projectiles_are_lost() {
    assert!(!is_out_of_bounds(Vec2 { x: 0, y: 0 }));
    assert!(!is_out_of_bounds(Vec2 { x: 2_000_000, y: -1_000_000 }));
    assert!(!is_out_of_bounds(Vec2 { x: -2_000_000, y: 9_000_000 }));
    assert!(is_out_of_bounds(Vec2 { x: 2_000_001, y: 0 }));
    assert!(is_out_of_bounds(Vec2 { x: -2_000_001, y: 0 }));
    assert!(is_out_of_bounds(Vec2 { x: 0, y: -1_000_001 }));
}

#[test]
fn a_projectile_flies_explodes_or_is_lost() {
    let terrain = ground();
    let collider = Collider { radius: 4_000, is_grounded: false };
    let calm = Vec2 { x: 0, y: 0 };
    let step = Step { dt: 100_000, decay: 1_000_000 };
    let still = RigidBody { gravity_scale: 0, ..RigidBody::new() };

    let mut projectile = bazooka();
    let mut position = Vec2 { x: 0, y: 100_000 };
    let mut body = RigidBody { velocity: Vec2 { x: 50_000, y: -100_000 }, ..still };
    let fate = advance_projectile(&mut projectile, &mut position, &mut body, &collider, &terrain, calm, step);
    assert_eq!(fate, ProjectileFate::Flying);
    assert_eq!(position, Vec2 { x: 5_000, y: 90_000 });

    let mut position = Vec2 { x: 0, y: 10_000 };
    let fate = advance_projectile(&mut projectile, &mut position, &mut body, &collider, &terrain, calm, step);
    assert_eq!(fate, ProjectileFate::Exploded);
    assert_eq!(position, Vec2 { x: 5_000, y: 0 });
    assert!(projectile.has_exploded);

    let mut stray = bazooka();
    let mut position = Vec2 { x: 1_990_000, y: 500_000 };
    let mut body = RigidBody { velocity: Vec2 { x: 50_000, y: 0 }, ..still };
    let fate = advance_projectile(&mut stray, &mut position, &mut body, &collider, &terrain, calm, step);
    assert_eq!(fate, ProjectileFate::Flying);
    let mut position = Vec2 { x: 1_999_000, y: 500_000 };
    let mut body = RigidBody { velocity: Vec2 { x: 50_000, y: 0 }, ..still };
    let long = Step { dt: 1_000_000, decay: 1_000_000 };
    let fate = advance_projectile(&mut stray, &mut position, &mut body, &collider, &terrain, calm, long);
    assert_eq!(fate, ProjectileFate::Lost);
    assert!(!stray.has_exploded);
}

#[test]
fn the_wind_moves_a_projectile_by_its_resistance() {
    let terrain = ground();
    let collider = Collider { radius: 4_000, is_grounded: false };
    let step = Step { dt: 1_000_000, decay: 1_000_000 };
    let mut projectile = bazooka();
    let mut position = Vec2 { x: 0, y: 900_000 };
    let mut body = RigidBody { gravity_scale: 0, ..RigidBody::new() };
    advance_projectile(
        &mut projectile,
        &mut position,
        &mut body,
        &collider,
        &terrain,
        Vec2 { x: 40_000, y: 0 },
        step,
    );
    assert_eq!(body.velocity, Vec2 { x: 20_000, y: 0 });
    assert_eq!(position, Vec2 { x: 20_000, y: 900_000 });
}

#[test]
fn the_default_inventory() {
    let inventory = WeaponInventory::default();
    assert_eq!(
        inventory.weapons,
        vec![WeaponType::Bazooka, WeaponType::Grenade, WeaponType::ClusterBomb]
    );
    assert_eq!(inventory.current_weapon, 0);
    assert_eq!(inventory.current(), Some(WeaponType::Bazooka));
}

#[test]
fn selecting_a_weapon_that_is_not_there_is_dropped() {
    let mut inventory = WeaponInventory::new();
    inventory.select(2);
    assert_eq!(inventory.current(), Some(WeaponType::ClusterBomb));
    inventory.select(3);
    assert_eq!(inventory.current_weapon, 2);
    inventory.select(usize::MAX);
    assert_eq!(inventory.current_weapon, 2);
}

#[test]
fn cycling_goes_round() {
    let mut inventory = WeaponInventory::new();
    inventory.cycle_previous();
    assert_eq!(inventory.current_weapon, 2);
    inventory.cycle_next();
    assert_eq!(inventory.current_weapon, 0);
    inventory.cycle_next();
    assert_eq!(inventory.current_weapon, 1);
    inventory.cycle_previous();
    assert_eq!(inventory.current_weapon, 0);
}

#[test]
fn an_empty_inventory_has_no_weapon() {
    let mut inventory = WeaponInventory { weapons: Vec::new(), current_weapon: 0 };
    assert_eq!(inventory.current(), None);
    inventory.cycle_next();
    inventory.cycle_previous();
    inventory.select(0);
    assert_eq!(inventory.current_weapon, 0);
    assert_eq!(inventory.current(), None);
    let stale = WeaponInventory { weapons: vec![WeaponType::Grenade], current_weapon: 4 };
    assert_eq!(stale.current(), None);
}
