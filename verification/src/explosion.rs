//! The explosion resolver: one step that carves the terrain, hurts the
//! characters in reach and ends the turn.

use vstd::prelude::*;
use crate::fixed::{
    count_down, floor_sqrt, isqrt, lemma_floor_sqrt_unique, lemma_quotient_monotonic,
    lemma_saturated_monotonic, mul_div, quotient, saturated, scaled, time_left, Vec2,
};
use crate::game_state::{legal, GameState};
use crate::terrain::TerrainMap;
use crate::weapons::Projectile;
use crate::worm::Worm;

verus! {

/// Time between the trigger of an explosion and its effect: half a second,
/// in microseconds.
pub const EXPLOSION_LIFETIME: u64 = 500_000;

/// An explosion that was triggered and has not taken effect yet.
#[derive(Clone, Copy, PartialEq, Eq, Structural, Debug)]
pub struct Explosion {
    pub center: Vec2,
    pub radius: i64,
    pub damage: i64,
    pub lifetime: u64,
}

/// The square of the distance between two points.
pub open spec fn distance_squared(a: Vec2, b: Vec2) -> int {
    (a.x - b.x) * (a.x - b.x) + (a.y - b.y) * (a.y - b.y)
}

/// Whether `position` lies within `radius` of `center`.
pub open spec fn in_blast(center: Vec2, position: Vec2, radius: int) -> bool {
    radius >= 0 && distance_squared(center, position) <= radius * radius
}

/// The damage at `distance` from the center of an explosion: all of it at
/// the center, falling off evenly to nothing at the rim.
pub open spec fn falloff(damage: int, distance: int, radius: int) -> int {
    if radius <= 0 {
        0
    } else {
        scaled(damage, radius - distance, radius)
    }
}

/// The damage an explosion does at `position`; the distance is rounded down
/// to the fixed-point grid.
pub open spec fn blast_damage(center: Vec2, position: Vec2, radius: int, damage: int) -> int {
    if in_blast(center, position, radius) {
        falloff(damage, floor_sqrt(distance_squared(center, position)), radius)
    } else {
        0
    }
}

/// A character after an explosion: a living character in reach loses the
/// damage that reaches it; the dead and those out of reach are untouched.
pub open spec fn hit(worm: Worm, position: Vec2, center: Vec2, radius: int, damage: int) -> Worm {
    if worm.alive() && in_blast(center, position, radius) {
        worm.damaged(blast_damage(center, position, radius, damage))
    } else {
        worm
    }
}

/// The characters after an explosion. Character `i` stands at
/// `positions[i]`; one without a position is out of reach.
pub open spec fn blasted(
    worms: Seq<Worm>,
    positions: Seq<Vec2>,
    center: Vec2,
    radius: int,
    damage: int,
) -> Seq<Worm> {
    Seq::new(
        worms.len(),
        |i: int|
            if i < positions.len() {
                hit(worms[i], positions[i], center, radius, damage)
            } else {
                worms[i]
            },
    )
}

/// The explosion after `dt` microseconds.
pub open spec fn explosion_ticked(explosion: Explosion, dt: int) -> Explosion {
    Explosion { lifetime: time_left(explosion.lifetime, dt), ..explosion }
}

/// Whether the explosion takes effect in a tick of `dt` microseconds: its
/// time was not up before and is up after.
pub open spec fn takes_effect(explosion: Explosion, dt: int) -> bool {
    explosion.lifetime > 0 && dt >= explosion.lifetime
}

/// Farther from the center an explosion never does more damage.
pub proof fn lemma_falloff_monotonic(damage: int, near: int, far: int, radius: int)
    requires
        damage >= 0,
        near <= far,
    ensures
        falloff(damage, near, radius) >= falloff(damage, far, radius),
{
    if radius > 0 {
        assert(damage * (radius - far) <= damage * (radius - near)) by (nonlinear_arith)
            requires
                damage >= 0,
                near <= far,
        ;
        lemma_quotient_monotonic(damage * (radius - far), damage * (radius - near), radius);
        lemma_saturated_monotonic(
            quotient(damage * (radius - far), radius),
            quotient(damage * (radius - near), radius),
        );
    }
}

/// An explosion with a radius does all of its damage at its center and none
/// at its rim.
pub proof fn lemma_falloff_ends(damage: int, radius: int)
    requires
        radius > 0,
    ensures
        falloff(damage, 0, radius) == saturated(damage),
        falloff(damage, radius, radius) == 0,
{
    assert(damage * (radius - radius) == 0) by (nonlinear_arith);
    assert(0int / radius == 0) by (nonlinear_arith)
        requires
            radius > 0,
    ;
    if damage >= 0 {
        assert(damage * radius >= 0 && damage * radius == radius * damage) by (nonlinear_arith)
            requires
                damage >= 0,
                radius > 0,
        ;
        vstd::arithmetic::div_mod::lemma_div_multiples_vanish(damage, radius);
        assert((radius * damage) / radius == damage);
    } else {
        assert(damage * radius < 0 && -(damage * radius) == radius * (-damage))
            by (nonlinear_arith)
            requires
                damage < 0,
                radius > 0,
        ;
        vstd::arithmetic::div_mod::lemma_div_multiples_vanish(-damage, radius);
        assert((radius * (-damage)) / radius == -damage);
    }
}

/// A living character at the very center of an explosion with a radius
/// loses all of the damage.
pub proof fn lemma_hit_at_center(worm: Worm, center: Vec2, radius: int, damage: int)
    requires
        worm.alive(),
        radius > 0,
    ensures
        hit(worm, center, center, radius, damage) == worm.damaged(saturated(damage)),
{
    assert(distance_squared(center, center) == 0) by (nonlinear_arith)
        requires
            distance_squared(center, center) == (center.x - center.x) * (center.x - center.x) + (
            center.y - center.y) * (center.y - center.y),
    ;
    assert(0 <= radius * radius) by (nonlinear_arith);
    lemma_floor_sqrt_unique(0, 0);
    lemma_falloff_ends(damage, radius);
}

/// A character farther from the center than the radius is untouched.
pub proof fn lemma_out_of_reach(worm: Worm, position: Vec2, center: Vec2, radius: int, damage: int)
    requires
        distance_squared(center, position) > radius * radius,
    ensures
        hit(worm, position, center, radius, damage) == worm,
{
}

/// No explosion revives a character, and none with damage that is not
/// negative adds to the health of one.
pub proof fn lemma_never_revived(worm: Worm, position: Vec2, center: Vec2, radius: int, damage: int)
    ensures
        !worm.alive() ==> hit(worm, position, center, radius, damage) == worm,
        damage >= 0 && worm.health <= worm.max_health ==> hit(
            worm,
            position,
            center,
            radius,
            damage,
        ).health <= worm.health,
{
    if worm.alive() && in_blast(center, position, radius) && damage >= 0 && radius > 0 {
        let distance = floor_sqrt(distance_squared(center, position));
        let square = distance_squared(center, position);
        assert(square >= 0) by (nonlinear_arith)
            requires
                square == (center.x - position.x) * (center.x - position.x) + (center.y
                    - position.y) * (center.y - position.y),
        ;
        crate::fixed::lemma_floor_sqrt_bounded(square, radius);
        assert(damage * (radius - distance) >= 0) by (nonlinear_arith)
            requires
                damage >= 0,
                distance <= radius,
        ;
        crate::fixed::lemma_quotient_bounded(damage * (radius - distance), radius);
    }
}

impl Explosion {
    /// An explosion at `center` that takes effect after
    /// `EXPLOSION_LIFETIME`.
    pub fn new(center: Vec2, radius: i64, damage: i64) -> (explosion: Explosion)
        ensures
            explosion == (Explosion { center, radius, damage, lifetime: EXPLOSION_LIFETIME }),
    {
        Explosion { center, radius, damage, lifetime: EXPLOSION_LIFETIME }
    }

    /// Lets `dt` microseconds pass and says whether the explosion takes
    /// effect in this tick. It does so once.
    pub fn tick(&mut self, dt: u32) -> (now: bool)
        ensures
            *final(self) == explosion_ticked(*old(self), dt as int),
            now == takes_effect(*old(self), dt as int),
    {
        let before: u64 = self.lifetime;
        self.lifetime = count_down(before, dt);
        before > 0 && self.lifetime == 0
    }
}

/// The damage an explosion does at `position`, and whether the position is
/// in reach at all.
pub fn damage_at(center: Vec2, position: Vec2, radius: i64, damage: i64) -> (reach: (bool, i64))
    ensures
        reach.0 == in_blast(center, position, radius as int),
        reach.1 == blast_damage(center, position, radius as int, damage as int),
{
    if radius < 0 {
        return (false, 0);
    }
    let reach: i128 = radius as i128;
    let dx: i128 = center.x as i128 - position.x as i128;
    let dy: i128 = center.y as i128 - position.y as i128;
    if dx > reach || dx < -reach || dy > reach || dy < -reach {
        proof {
            assert(dx * dx + dy * dy > reach * reach) by (nonlinear_arith)
                requires
                    reach >= 0,
                    dx > reach || dx < -reach || dy > reach || dy < -reach,
            ;
        }
        return (false, 0);
    }
    proof {
        assert(0 <= dx * dx <= reach * reach && 0 <= dy * dy <= reach * reach && reach * reach
            <= 0x3fff_ffff_ffff_ffff_0000_0000_0000_0001) by (nonlinear_arith)
            requires
                -reach <= dx <= reach,
                -reach <= dy <= reach,
                0 <= reach <= 0x7fff_ffff_ffff_ffff,
        ;
    }
    let square: i128 = dx * dx + dy * dy;
    if square > reach * reach {
        return (false, 0);
    }
    if radius == 0 {
        return (true, 0);
    }
    let distance: u64 = isqrt(square as u128);
    proof {
        assert(distance <= radius) by (nonlinear_arith)
            requires
                distance * distance <= square,
                square <= reach * reach,
                reach == radius,
                0 <= distance,
                0 < radius,
        ;
    }
    (true, mul_div(damage, radius - distance as i64, radius))
}

/// Resolves an explosion in one step: the terrain within `radius` of
/// `center` is carved, every living character within `radius` loses the
/// damage that reaches it, and the turn ends. Character `i` stands at the
/// world position `positions[i]`.
pub fn explode(
    terrain: &mut TerrainMap,
    state: &mut GameState,
    worms: &mut Vec<Worm>,
    positions: &Vec<Vec2>,
    center: Vec2,
    radius: i64,
    damage: i64,
)
    ensures
        final(terrain)@ == old(terrain)@.carve(
            old(terrain)@.grid_point(center).x as int,
            old(terrain)@.grid_point(center).y as int,
            radius as int,
        ),
        final(worms)@ == blasted(old(worms)@, positions@, center, radius as int, damage as int),
        final(state)@ == old(state)@.turn_ended(final(worms)@),
        final(state)@.valid(),
        final(state)@.phase == old(state)@.phase || legal(old(state)@.phase, final(state)@.phase),
{
    let at: Vec2 = terrain.to_grid(center);
    terrain.destroy_circle(at.x, at.y, radius);
    let ghost before = worms@;
    let mut i: usize = 0;
    while i < worms.len()
        invariant
            i <= worms@.len(),
            worms@.len() == before.len(),
            forall|j: int|
                0 <= j < i ==> #[trigger] worms@[j] == blasted(
                    before,
                    positions@,
                    center,
                    radius as int,
                    damage as int,
                )[j],
            forall|j: int| i <= j < worms@.len() ==> worms@[j] == before[j],
        decreases worms@.len() - i,
    {
        if i < positions.len() {
            let mut worm: Worm = worms[i];
            let (reached, amount) = damage_at(center, positions[i], radius, damage);
            if worm.is_alive() && reached {
                worm.apply_damage(amount);
                worms.set(i, worm);
            }
        }
        i += 1;
    }
    proof {
        assert(worms@ =~= blasted(before, positions@, center, radius as int, damage as int));
    }
    state.end_turn(worms);
}

/// The explosion that a projectile sets off at `position`. The state
/// machine is told that the flight is over.
pub fn explode_projectile(state: &mut GameState, position: Vec2, projectile: &Projectile) -> (explosion:
    Explosion)
    ensures
        explosion == (Explosion {
            center: position,
            radius: projectile.explosion_radius,
            damage: projectile.damage,
            lifetime: EXPLOSION_LIFETIME,
        }),
        final(state)@ == old(state)@.request(
            crate::game_state::GamePhase::ProjectileFlying,
            crate::game_state::GamePhase::Explosion,
        ),
        final(state)@.valid(),
{
    state.explosion_started();
    Explosion::new(position, projectile.explosion_radius, projectile.damage)
}

/// One tick of a pending explosion: when its time is up it is resolved.
/// The result says whether it was.
pub fn explosion_system(
    explosion: &mut Explosion,
    terrain: &mut TerrainMap,
    state: &mut GameState,
    worms: &mut Vec<Worm>,
    positions: &Vec<Vec2>,
    dt: u32,
) -> (resolved: bool)
    ensures
        *final(explosion) == explosion_ticked(*old(explosion), dt as int),
        resolved == takes_effect(*old(explosion), dt as int),
        resolved ==> final(terrain)@ == old(terrain)@.carve(
            old(terrain)@.grid_point(old(explosion).center).x as int,
            old(terrain)@.grid_point(old(explosion).center).y as int,
            old(explosion).radius as int,
        ) && final(worms)@ == blasted(
            old(worms)@,
            positions@,
            old(explosion).center,
            old(explosion).radius as int,
            old(explosion).damage as int,
        ) && final(state)@ == old(state)@.turn_ended(final(worms)@),
        !resolved ==> final(terrain)@ == old(terrain)@ && final(worms)@ == old(worms)@
            && final(state)@ == old(state)@,
{
    if explosion.tick(dt) {
        explode(
            terrain,
            state,
            worms,
            positions,
            explosion.center,
            explosion.radius,
            explosion.damage,
        );
        true
    } else {
        false
    }
}

} // verus!
