//! The weapon table and the life of a projectile, from the shot to the
//! trigger of its explosion.
//!
//! The table is the canonical one: bazooka, grenade and cluster bomb. The
//! cluster bomb is the only weapon that leaves as a burst.

use vstd::prelude::*;
use crate::fixed::{
    count_down, lemma_quotient_monotonic, lemma_quotient_odd, mul_div, quotient, sat_add,
    saturated, scaled, time_left, Vec2, MICROS_PER_SECOND, SCALE,
};
use crate::physics::{integrate, integrated, Collider, RigidBody, Step};
use crate::terrain::{TerrainMap, TerrainView};

verus! {

/// Mass of a projectile: a tenth of a character's.
pub const PROJECTILE_MASS: i64 = 100;

/// Bounce coefficient of a projectile.
pub const PROJECTILE_BOUNCE: i64 = 300;

/// Friction coefficient of a projectile.
pub const PROJECTILE_FRICTION: i64 = 900;

/// Radius of the collision circle of a projectile.
pub const PROJECTILE_RADIUS: i64 = 4_000;

/// Depth below the world origin at which an escaped projectile is removed.
pub const DESPAWN_DEPTH: i64 = -1_000_000;

/// Distance beside the world origin at which an escaped projectile is
/// removed.
pub const DESPAWN_REACH: i64 = 2_000_000;

/// Full power of a shot, in thousandths.
pub const FULL_POWER: i64 = 1000;

/// The kinds of weapon.
#[derive(Clone, Copy, PartialEq, Eq, Structural, Debug)]
pub enum WeaponType {
    Grenade,
    Bazooka,
    ClusterBomb,
}

/// What the weapon table holds for one kind of weapon. Lengths, speeds and
/// coefficients are fixed-point; the fuse is in microseconds, the spread in
/// thousandths of a radian.
#[derive(Clone, Copy, PartialEq, Eq, Structural, Debug)]
pub struct WeaponStats {
    pub damage: i64,
    pub explosion_radius: i64,
    pub projectile_speed: i64,
    pub gravity_scale: i64,
    pub wind_resistance: i64,
    pub fuse_time: Option<u64>,
    pub projectile_count: u32,
    pub spread_angle: i64,
}

/// The weapons a player carries and the one that is selected.
pub struct WeaponInventory {
    pub weapons: Vec<WeaponType>,
    pub current_weapon: usize,
}

/// A projectile in flight.
#[derive(Clone, Copy, PartialEq, Eq, Structural, Debug)]
pub struct Projectile {
    pub weapon_type: WeaponType,
    pub damage: i64,
    pub explosion_radius: i64,
    pub fuse_timer: Option<u64>,
    pub wind_resistance: i64,
    pub has_exploded: bool,
}

/// One projectile of a shot as it leaves: where it starts, the direction it
/// takes, in thousandths of a radian, and its speed.
#[derive(Clone, Copy, PartialEq, Eq, Structural, Debug)]
pub struct Shot {
    pub projectile: Projectile,
    pub origin: Vec2,
    pub heading: i64,
    pub speed: i64,
    pub gravity_scale: i64,
}

/// The weapon table.
pub open spec fn stats_for(kind: WeaponType) -> WeaponStats {
    match kind {
        WeaponType::Bazooka => WeaponStats {
            damage: 50_000,
            explosion_radius: 80_000,
            projectile_speed: 600_000,
            gravity_scale: 1000,
            wind_resistance: 500,
            fuse_time: None,
            projectile_count: 1,
            spread_angle: 0,
        },
        WeaponType::Grenade => WeaponStats {
            damage: 60_000,
            explosion_radius: 100_000,
            projectile_speed: 400_000,
            gravity_scale: 1200,
            wind_resistance: 800,
            fuse_time: Some(3_000_000),
            projectile_count: 1,
            spread_angle: 0,
        },
        WeaponType::ClusterBomb => WeaponStats {
            damage: 35_000,
            explosion_radius: 60_000,
            projectile_speed: 350_000,
            gravity_scale: 1000,
            wind_resistance: 700,
            fuse_time: Some(2_500_000),
            projectile_count: 3,
            spread_angle: 300,
        },
    }
}

/// The angle by which projectile `index` of a burst of `count` leaves the
/// aim: the offsets are evenly spaced from `-spread` to `spread`. A single
/// projectile keeps the aim.
pub open spec fn spread_offset(index: int, count: int, spread: int) -> int {
    if count <= 1 {
        0
    } else {
        quotient(spread * (2 * index - (count - 1)), count - 1)
    }
}

/// The projectile that a weapon with the given entry of the table shoots.
pub open spec fn projectile_of(kind: WeaponType, stats: WeaponStats) -> Projectile {
    Projectile {
        weapon_type: kind,
        damage: stats.damage,
        explosion_radius: stats.explosion_radius,
        fuse_timer: stats.fuse_time,
        wind_resistance: stats.wind_resistance,
        has_exploded: false,
    }
}

/// Projectile `index` of a shot with the weapon `kind` from `origin`, aimed
/// at `heading` with `power`.
pub open spec fn shot_of(kind: WeaponType, origin: Vec2, heading: int, power: int, index: int) -> Shot {
    let stats = stats_for(kind);
    Shot {
        projectile: projectile_of(kind, stats),
        origin,
        heading: saturated(
            heading + spread_offset(index, stats.projectile_count as int, stats.spread_angle as int),
        ) as i64,
        speed: scaled(stats.projectile_speed as int, power, SCALE as int) as i64,
        gravity_scale: stats.gravity_scale,
    }
}

/// The velocity of a body that moves with `speed` along `direction`, a unit
/// vector in millionths.
pub open spec fn velocity_along(speed: int, direction: Vec2) -> Vec2 {
    Vec2 {
        x: scaled(speed, direction.x as int, MICROS_PER_SECOND as int) as i64,
        y: scaled(speed, direction.y as int, MICROS_PER_SECOND as int) as i64,
    }
}

/// The fuse after `dt` microseconds: it burns down to zero and stays there.
pub open spec fn fuse_after(fuse: Option<u64>, dt: int) -> Option<u64> {
    match fuse {
        Some(left) => Some(time_left(left, dt)),
        None => None,
    }
}

/// Whether a live projectile goes off in this tick: its fuse has burnt
/// down, or it touches the terrain.
pub open spec fn goes_off(projectile: Projectile, dt: int, touching: bool) -> bool {
    !projectile.has_exploded && (fuse_after(projectile.fuse_timer, dt) == Some(0u64) || touching)
}

/// The projectile after one tick. One that has gone off before is left
/// alone; a live one burns its fuse and is marked when it goes off.
pub open spec fn projectile_ticked(projectile: Projectile, dt: int, touching: bool) -> Projectile {
    if projectile.has_exploded {
        projectile
    } else {
        Projectile {
            fuse_timer: fuse_after(projectile.fuse_timer, dt),
            has_exploded: goes_off(projectile, dt, touching),
            ..projectile
        }
    }
}

/// Whether a position is so far off the world that what is there is lost.
pub open spec fn out_of_bounds(position: Vec2) -> bool {
    position.y < DESPAWN_DEPTH || position.x > DESPAWN_REACH || position.x < -DESPAWN_REACH
}

/// The offsets of a burst mirror each other about the aim.
pub proof fn lemma_spread_symmetric(index: int, count: int, spread: int)
    requires
        0 <= index < count,
    ensures
        spread_offset(count - 1 - index, count, spread) == -spread_offset(index, count, spread),
{
    if count > 1 {
        let n = spread * (2 * index - (count - 1));
        assert(spread * (2 * (count - 1 - index) - (count - 1)) == -n) by (nonlinear_arith)
            requires
                n == spread * (2 * index - (count - 1)),
        ;
        lemma_quotient_odd(n, count - 1);
    }
}

/// The first and the last projectile of a burst leave at the full spread to
/// either side, and the middle one of an odd burst keeps the aim.
pub proof fn lemma_spread_extremes(count: int, spread: int)
    requires
        count > 1,
    ensures
        spread_offset(0, count, spread) == -spread,
        spread_offset(count - 1, count, spread) == spread,
        count % 2 == 1 ==> spread_offset((count - 1) / 2, count, spread) == 0,
{
    let d = count - 1;
    assert(quotient(spread * d, d) == spread) by {
        if spread >= 0 {
            assert(spread * d >= 0 && spread * d == d * spread) by (nonlinear_arith)
                requires
                    spread >= 0,
                    d > 0,
            ;
            vstd::arithmetic::div_mod::lemma_div_multiples_vanish(spread, d);
            assert((d * spread) / d == spread);
        } else {
            assert(-(spread * d) == d * (-spread) && spread * d < 0) by (nonlinear_arith)
                requires
                    spread < 0,
                    d > 0,
            ;
            vstd::arithmetic::div_mod::lemma_div_multiples_vanish(-spread, d);
            assert((d * (-spread)) / d == -spread);
        }
    }
    assert(spread * (2 * (count - 1) - (count - 1)) == spread * d) by (nonlinear_arith)
        requires
            d == count - 1,
    ;
    lemma_spread_symmetric(0, count, spread);
    if count % 2 == 1 {
        let mid = (count - 1) / 2;
        assert(spread * (2 * mid - (count - 1)) == 0) by (nonlinear_arith)
            requires
                2 * mid == count - 1,
        ;
    }
}

/// With a spread that is not negative, a later projectile of a burst never
/// leaves to the left of an earlier one.
pub proof fn lemma_spread_ordered(first: int, second: int, count: int, spread: int)
    requires
        0 <= first <= second < count,
        spread >= 0,
    ensures
        spread_offset(first, count, spread) <= spread_offset(second, count, spread),
{
    if count > 1 {
        assert(spread * (2 * first - (count - 1)) <= spread * (2 * second - (count - 1)))
            by (nonlinear_arith)
            requires
                first <= second,
                spread >= 0,
        ;
        lemma_quotient_monotonic(
            spread * (2 * first - (count - 1)),
            spread * (2 * second - (count - 1)),
            count - 1,
        );
    }
}

impl WeaponType {
    /// Looks the weapon up in the table.
    pub fn get_stats(&self) -> (stats: WeaponStats)
        ensures
            stats == stats_for(*self),
    {
        match self {
            WeaponType::Bazooka => WeaponStats {
                damage: 50_000,
                explosion_radius: 80_000,
                projectile_speed: 600_000,
                gravity_scale: 1000,
                wind_resistance: 500,
                fuse_time: None,
                projectile_count: 1,
                spread_angle: 0,
            },
            WeaponType::Grenade => WeaponStats {
                damage: 60_000,
                explosion_radius: 100_000,
                projectile_speed: 400_000,
                gravity_scale: 1200,
                wind_resistance: 800,
                fuse_time: Some(3_000_000),
                projectile_count: 1,
                spread_angle: 0,
            },
            WeaponType::ClusterBomb => WeaponStats {
                damage: 35_000,
                explosion_radius: 60_000,
                projectile_speed: 350_000,
                gravity_scale: 1000,
                wind_resistance: 700,
                fuse_time: Some(2_500_000),
                projectile_count: 3,
                spread_angle: 300,
            },
        }
    }
}

impl WeaponInventory {
    /// The weapon that is selected, if the selection names one.
    pub open spec fn selected(self) -> Option<WeaponType> {
        if self.current_weapon < self.weapons@.len() {
            Some(self.weapons@[self.current_weapon as int])
        } else {
            None
        }
    }

    /// The three weapons of the table, the bazooka selected.
    pub fn new() -> (inventory: WeaponInventory)
        ensures
            inventory.weapons@ == seq![
                WeaponType::Bazooka,
                WeaponType::Grenade,
                WeaponType::ClusterBomb,
            ],
            inventory.current_weapon == 0,
    {
        let mut weapons: Vec<WeaponType> = Vec::new();
        weapons.push(WeaponType::Bazooka);
        weapons.push(WeaponType::Grenade);
        weapons.push(WeaponType::ClusterBomb);
        proof {
            assert(weapons@ =~= seq![
                WeaponType::Bazooka,
                WeaponType::Grenade,
                WeaponType::ClusterBomb,
            ]);
        }
        WeaponInventory { weapons, current_weapon: 0 }
    }

    /// The weapon that is selected, if the selection names one.
    pub fn current(&self) -> (weapon: Option<WeaponType>)
        ensures
            weapon == self.selected(),
    {
        if self.current_weapon < self.weapons.len() {
            Some(self.weapons[self.current_weapon])
        } else {
            None
        }
    }

    /// Selects the weapon at `index`. An index that names no weapon is
    /// dropped.
    pub fn select(&mut self, index: usize)
        ensures
            final(self).weapons == old(self).weapons,
            final(self).current_weapon == if index < old(self).weapons@.len() {
                index
            } else {
                old(self).current_weapon
            },
    {
        if index < self.weapons.len() {
            self.current_weapon = index;
        }
    }

    /// Selects the weapon after the current one, going round. Nothing
    /// happens in an empty inventory.
    pub fn cycle_next(&mut self)
        ensures
            final(self).weapons == old(self).weapons,
            final(self).current_weapon == if old(self).weapons@.len() == 0 {
                old(self).current_weapon as int
            } else {
                (old(self).current_weapon + 1) % old(self).weapons@.len() as int
            },
    {
        let count: usize = self.weapons.len();
        if count > 0 {
            self.current_weapon = ((self.current_weapon as u128 + 1) % (count as u128)) as usize;
        }
    }

    /// Selects the weapon before the current one, going round. Nothing
    /// happens in an empty inventory.
    pub fn cycle_previous(&mut self)
        ensures
            final(self).weapons == old(self).weapons,
            final(self).current_weapon == if old(self).weapons@.len() == 0 {
                old(self).current_weapon as int
            } else {
                (old(self).current_weapon + old(self).weapons@.len() - 1)
                    % old(self).weapons@.len() as int
            },
    {
        let count: usize = self.weapons.len();
        if count > 0 {
            self.current_weapon = ((self.current_weapon as u128 + count as u128 - 1) % (
            count as u128)) as usize;
        }
    }
}

impl Default for WeaponInventory {
    fn default() -> (inventory: WeaponInventory)
        ensures
            inventory.weapons@ == seq![
                WeaponType::Bazooka,
                WeaponType::Grenade,
                WeaponType::ClusterBomb,
            ],
            inventory.current_weapon == 0,
    {
        WeaponInventory::new()
    }
}

impl Shot {
    /// The body of the projectile as it leaves along `direction`, the unit
    /// vector of its heading in millionths.
    pub fn body(&self, direction: Vec2) -> (body: RigidBody)
        ensures
            body == (RigidBody {
                velocity: velocity_along(self.speed as int, direction),
                mass: PROJECTILE_MASS,
                bounce: PROJECTILE_BOUNCE,
                friction: PROJECTILE_FRICTION,
                gravity_scale: self.gravity_scale,
            }),
    {
        RigidBody {
            velocity: Vec2 {
                x: mul_div(self.speed, direction.x, MICROS_PER_SECOND),
                y: mul_div(self.speed, direction.y, MICROS_PER_SECOND),
            },
            mass: PROJECTILE_MASS,
            bounce: PROJECTILE_BOUNCE,
            friction: PROJECTILE_FRICTION,
            gravity_scale: self.gravity_scale,
        }
    }

    /// The collision circle of a projectile.
    pub fn collider(&self) -> (collider: Collider)
        ensures
            collider == (Collider { radius: PROJECTILE_RADIUS, is_grounded: false }),
    {
        Collider { radius: PROJECTILE_RADIUS, is_grounded: false }
    }
}

/// The angle by which projectile `index` of a burst of `count` leaves the
/// aim.
pub fn burst_offset(index: u32, count: u32, spread: i64) -> (offset: i64)
    ensures
        offset == saturated(spread_offset(index as int, count as int, spread as int)),
{
    if count <= 1 {
        0
    } else {
        let place: i64 = 2 * (index as i64) - (count as i64 - 1);
        mul_div(spread, place, count as i64 - 1)
    }
}

/// Fires a weapon from `origin`, aimed at `heading` with a power between
/// zero and `FULL_POWER`. The shot has as many projectiles as the table
/// says; those of a burst fan out evenly about the aim.
pub fn fire_weapon(weapon_type: WeaponType, origin: Vec2, heading: i64, power: i64) -> (shots: Vec<
    Shot,
>)
    requires
        0 <= power <= FULL_POWER,
    ensures
        shots@.len() == stats_for(weapon_type).projectile_count,
        forall|i: int|
            0 <= i < shots@.len() ==> #[trigger] shots@[i] == shot_of(
                weapon_type,
                origin,
                heading as int,
                power as int,
                i,
            ),
{
    let stats: WeaponStats = weapon_type.get_stats();
    let speed: i64 = mul_div(stats.projectile_speed, power, SCALE);
    let mut shots: Vec<Shot> = Vec::new();
    let mut i: u32 = 0;
    while i < stats.projectile_count
        invariant
            i <= stats.projectile_count,
            stats == stats_for(weapon_type),
            speed == scaled(stats.projectile_speed as int, power as int, SCALE as int),
            shots@.len() == i,
            forall|j: int|
                0 <= j < shots@.len() ==> #[trigger] shots@[j] == shot_of(
                    weapon_type,
                    origin,
                    heading as int,
                    power as int,
                    j,
                ),
        decreases stats.projectile_count - i,
    {
        let offset: i64 = burst_offset(i, stats.projectile_count, stats.spread_angle);
        proof {
            lemma_spread_fits(i as int, stats.projectile_count as int, stats.spread_angle as int);
        }
        shots.push(
            Shot {
                projectile: Projectile {
                    weapon_type,
                    damage: stats.damage,
                    explosion_radius: stats.explosion_radius,
                    fuse_timer: stats.fuse_time,
                    wind_resistance: stats.wind_resistance,
                    has_exploded: false,
                },
                origin,
                heading: sat_add(heading, offset),
                speed,
                gravity_scale: stats.gravity_scale,
            },
        );
        i += 1;
    }
    shots
}

/// No offset of a burst is wider than the spread.
pub proof fn lemma_spread_fits(index: int, count: int, spread: int)
    requires
        0 <= index < count,
    ensures
        spread >= 0 ==> -spread <= spread_offset(index, count, spread) <= spread,
        spread <= 0 ==> spread <= spread_offset(index, count, spread) <= -spread,
{
    if count > 1 {
        lemma_spread_extremes(count, spread);
        if spread >= 0 {
            lemma_spread_ordered(0, index, count, spread);
            lemma_spread_ordered(index, count - 1, count, spread);
        } else {
            let d = count - 1;
            let a = (-spread) * (2 * index - d);
            assert(spread * (2 * index - d) == -a) by (nonlinear_arith)
                requires
                    a == (-spread) * (2 * index - d),
            ;
            lemma_quotient_odd(a, d);
            lemma_spread_extremes(count, -spread);
            lemma_spread_ordered(0, index, count, -spread);
            lemma_spread_ordered(index, count - 1, count, -spread);
        }
    }
}

/// Burns the fuse of a projectile for `dt` microseconds.
pub fn burn_fuse(fuse: Option<u64>, dt: u32) -> (left: Option<u64>)
    ensures
        left == fuse_after(fuse, dt as int),
{
    match fuse {
        Some(time) => Some(count_down(time, dt)),
        None => None,
    }
}

/// One tick of a projectile at the world position `position`: the fuse
/// burns, and when it has burnt down or the projectile touches the terrain
/// the projectile goes off. It does so once: a projectile that has gone off
/// is left alone. The result says whether it went off in this tick.
pub fn tick_projectile(
    projectile: &mut Projectile,
    terrain: &TerrainMap,
    position: Vec2,
    collider: &Collider,
    dt: u32,
) -> (exploded: bool)
    ensures
        exploded == goes_off(
            *old(projectile),
            dt as int,
            touches(terrain@, position, collider.radius as int),
        ),
        *final(projectile) == projectile_ticked(
            *old(projectile),
            dt as int,
            touches(terrain@, position, collider.radius as int),
        ),
{
    if projectile.has_exploded {
        return false;
    }
    projectile.fuse_timer = burn_fuse(projectile.fuse_timer, dt);
    let burnt: bool = match projectile.fuse_timer {
        Some(left) => left == 0,
        None => false,
    };
    let at: Vec2 = terrain.to_grid(position);
    let touching: bool = terrain.check_collision(at.x, at.y, collider.radius);
    if burnt || touching {
        projectile.has_exploded = true;
        true
    } else {
        false
    }
}

/// Whether a projectile at `position` has escaped the world and is to be
/// removed without an explosion.
pub fn is_out_of_bounds(position: Vec2) -> (lost: bool)
    ensures
        lost == out_of_bounds(position),
{
    position.y < DESPAWN_DEPTH || position.x > DESPAWN_REACH || position.x < -DESPAWN_REACH
}

/// What became of a projectile in a tick.
#[derive(Clone, Copy, PartialEq, Eq, Structural, Debug)]
pub enum ProjectileFate {
    /// It flies on.
    Flying,
    /// It went off and is to be removed; its explosion is due.
    Exploded,
    /// It escaped the world and is to be removed without an explosion.
    Lost,
}

/// Whether a circle of `radius` at the world position `position` touches
/// the terrain.
pub open spec fn touches(terrain: TerrainView, position: Vec2, radius: int) -> bool {
    terrain.collides(
        terrain.grid_point(position).x as int,
        terrain.grid_point(position).y as int,
        radius,
    )
}

/// The fate of a projectile that, after the motion of this tick, stands at
/// `position`.
pub open spec fn fate_of(
    projectile: Projectile,
    position: Vec2,
    dt: int,
    touching: bool,
) -> ProjectileFate {
    if goes_off(projectile, dt, touching) {
        ProjectileFate::Exploded
    } else if out_of_bounds(position) {
        ProjectileFate::Lost
    } else {
        ProjectileFate::Flying
    }
}

/// One tick in the life of a projectile: it moves under gravity and wind,
/// its fuse burns, and it goes off, is lost or flies on.
pub fn advance_projectile(
    projectile: &mut Projectile,
    position: &mut Vec2,
    body: &mut RigidBody,
    collider: &Collider,
    terrain: &TerrainMap,
    wind: Vec2,
    step: Step,
) -> (fate: ProjectileFate)
    ensures
        (*final(position), *final(body)) == integrated(
            *old(position),
            *old(body),
            wind,
            old(projectile).wind_resistance as int,
            step.dt as int,
            step.decay as int,
        ),
        *final(projectile) == projectile_ticked(
            *old(projectile),
            step.dt as int,
            touches(terrain@, *final(position), collider.radius as int),
        ),
        fate == fate_of(
            *old(projectile),
            *final(position),
            step.dt as int,
            touches(terrain@, *final(position), collider.radius as int),
        ),
{
    integrate(position, body, wind, projectile.wind_resistance, step.dt, step.decay);
    if tick_projectile(projectile, terrain, *position, collider, step.dt) {
        ProjectileFate::Exploded
    } else if is_out_of_bounds(*position) {
        ProjectileFate::Lost
    } else {
        ProjectileFate::Flying
    }
}

/// A projectile goes off at most once: after a tick in which it went off,
/// or before which it had gone off, no later tick sets it off again.
pub proof fn lemma_goes_off_once(
    projectile: Projectile,
    dt: int,
    touching: bool,
    later_dt: int,
    later_touching: bool,
)
    requires
        projectile.has_exploded || goes_off(projectile, dt, touching),
    ensures
        !goes_off(projectile_ticked(projectile, dt, touching), later_dt, later_touching),
{
}

} // verus!
