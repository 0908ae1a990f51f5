//! The body integrator: gravity, wind, motion, friction and collision, in
//! that order.
//!
//! The order is part of the contract. Changing it changes every trajectory.

use vstd::prelude::*;
use crate::fixed::{
    mul_div, sat_add, sat_neg, saturate, saturated, scaled, Vec2, MICROS_PER_SECOND, SCALE,
};
use crate::terrain::{TerrainMap, TerrainView};

verus! {

/// Gravitational acceleration: 980 units per second squared, downward.
pub const GRAVITY: i64 = -980_000;

/// Height of the flat ground under the terrain.
pub const GROUND_Y: i64 = -300_000;

/// Rebound speed below which a body comes to rest.
pub const REST_SPEED: i64 = 50_000;

/// Farthest distance, in whole units, that a body is pushed out of terrain.
pub const MAX_PUSH: i64 = 32;

/// The physical attributes of a body.
#[derive(Clone, Copy, PartialEq, Eq, Structural, Debug)]
pub struct RigidBody {
    pub velocity: Vec2,
    pub mass: i64,
    pub bounce: i64,
    pub friction: i64,
    pub gravity_scale: i64,
}

/// The collision circle of a body.
#[derive(Clone, Copy, PartialEq, Eq, Structural, Debug)]
pub struct Collider {
    pub radius: i64,
    pub is_grounded: bool,
}

/// The change of velocity over `dt` microseconds under the acceleration
/// `accel * factor`, the factor in thousandths.
pub open spec fn velocity_gain(accel: int, factor: int, dt: int) -> int {
    scaled(scaled(accel, factor, SCALE as int), dt, MICROS_PER_SECOND as int)
}

/// The body after gravity acted on it for `dt` microseconds.
pub open spec fn with_gravity(body: RigidBody, dt: int) -> RigidBody {
    RigidBody {
        velocity: Vec2 {
            x: body.velocity.x,
            y: saturated(
                body.velocity.y + velocity_gain(GRAVITY as int, body.gravity_scale as int, dt),
            ) as i64,
        },
        ..body
    }
}

/// The body after the wind `force` pushed it for `dt` microseconds, as far
/// as its `resistance` lets it.
pub open spec fn with_wind(body: RigidBody, force: Vec2, resistance: int, dt: int) -> RigidBody {
    RigidBody {
        velocity: Vec2 {
            x: saturated(body.velocity.x + velocity_gain(force.x as int, resistance, dt)) as i64,
            y: saturated(body.velocity.y + velocity_gain(force.y as int, resistance, dt)) as i64,
        },
        ..body
    }
}

/// The position after moving with `velocity` for `dt` microseconds.
pub open spec fn moved_by(position: Vec2, velocity: Vec2, dt: int) -> Vec2 {
    Vec2 {
        x: saturated(position.x + scaled(velocity.x as int, dt, MICROS_PER_SECOND as int)) as i64,
        y: saturated(position.y + scaled(velocity.y as int, dt, MICROS_PER_SECOND as int)) as i64,
    }
}

/// The body after friction took its share of the horizontal velocity:
/// `decay` is the friction coefficient raised to the elapsed time in
/// seconds, in millionths.
pub open spec fn with_friction(body: RigidBody, decay: int) -> RigidBody {
    RigidBody {
        velocity: Vec2 {
            x: scaled(body.velocity.x as int, decay, MICROS_PER_SECOND as int) as i64,
            y: body.velocity.y,
        },
        ..body
    }
}

/// One step of free motion: gravity, then wind, then motion, then friction.
pub open spec fn integrated(
    position: Vec2,
    body: RigidBody,
    wind: Vec2,
    resistance: int,
    dt: int,
    decay: int,
) -> (Vec2, RigidBody) {
    let pulled = with_gravity(body, dt);
    let blown = with_wind(pulled, wind, resistance, dt);
    let arrived = moved_by(position, blown.velocity, dt);
    (arrived, with_friction(blown, decay))
}

/// The body and its collider after it met the ground: a falling body
/// rebounds with its bounce coefficient, and a rebound slower than
/// `REST_SPEED` is stopped and leaves the body grounded.
pub open spec fn landed(body: RigidBody, collider: Collider) -> (RigidBody, Collider) {
    if body.velocity.y < 0 {
        let rebound = scaled(saturated(-body.velocity.y), body.bounce as int, SCALE as int);
        if -REST_SPEED < rebound < REST_SPEED {
            (
                RigidBody { velocity: Vec2 { x: body.velocity.x, y: 0 }, ..body },
                Collider { is_grounded: true, ..collider },
            )
        } else {
            (RigidBody { velocity: Vec2 { x: body.velocity.x, y: rebound as i64 }, ..body }, collider)
        }
    } else {
        (body, collider)
    }
}

/// Position, body and collider after the flat ground at `GROUND_Y` was
/// enforced: a body whose lowest point reaches the ground is set on it and
/// lands; any other body is in the air.
pub open spec fn grounded_flat(position: Vec2, body: RigidBody, collider: Collider) -> (
    Vec2,
    RigidBody,
    Collider,
) {
    if position.y - collider.radius <= GROUND_Y {
        let (settled, resting) = landed(body, collider);
        (
            Vec2 { x: position.x, y: saturated(GROUND_Y + collider.radius) as i64 },
            settled,
            resting,
        )
    } else {
        (position, body, Collider { is_grounded: false, ..collider })
    }
}

impl RigidBody {
    /// A body at rest with unit mass, bounce `0.3`, friction `0.8` and full
    /// gravity.
    pub fn new() -> (body: RigidBody)
        ensures
            body == (RigidBody {
                velocity: Vec2 { x: 0, y: 0 },
                mass: 1000,
                bounce: 300,
                friction: 800,
                gravity_scale: 1000,
            }),
    {
        RigidBody {
            velocity: Vec2 { x: 0, y: 0 },
            mass: 1000,
            bounce: 300,
            friction: 800,
            gravity_scale: 1000,
        }
    }
}

impl Default for RigidBody {
    fn default() -> (body: RigidBody)
        ensures
            body == (RigidBody {
                velocity: Vec2 { x: 0, y: 0 },
                mass: 1000,
                bounce: 300,
                friction: 800,
                gravity_scale: 1000,
            }),
    {
        RigidBody::new()
    }
}

impl Collider {
    /// A collider of radius 16 that is in the air.
    pub fn new() -> (collider: Collider)
        ensures
            collider == (Collider { radius: 16_000, is_grounded: false }),
    {
        Collider { radius: 16_000, is_grounded: false }
    }
}

impl Default for Collider {
    fn default() -> (collider: Collider)
        ensures
            collider == (Collider { radius: 16_000, is_grounded: false }),
    {
        Collider::new()
    }
}

/// The change of velocity over `dt` microseconds under `accel * factor`.
pub fn gain(accel: i64, factor: i64, dt: u32) -> (change: i64)
    ensures
        change == velocity_gain(accel as int, factor as int, dt as int),
{
    mul_div(mul_div(accel, factor, SCALE), dt as i64, MICROS_PER_SECOND)
}

/// Lets gravity act on the body for `dt` microseconds.
pub fn apply_gravity(body: &mut RigidBody, dt: u32)
    ensures
        *final(body) == with_gravity(*old(body), dt as int),
{
    body.velocity.y = sat_add(body.velocity.y, gain(GRAVITY, body.gravity_scale, dt));
}

/// Lets the wind push the body for `dt` microseconds.
pub fn apply_wind(body: &mut RigidBody, force: Vec2, resistance: i64, dt: u32)
    ensures
        *final(body) == with_wind(*old(body), force, resistance as int, dt as int),
{
    body.velocity.x = sat_add(body.velocity.x, gain(force.x, resistance, dt));
    body.velocity.y = sat_add(body.velocity.y, gain(force.y, resistance, dt));
}

/// Moves the position with the velocity of the body for `dt` microseconds
/// and then lets friction slow the horizontal velocity by `decay`.
pub fn apply_velocity(position: &mut Vec2, body: &mut RigidBody, dt: u32, decay: i64)
    ensures
        *final(position) == moved_by(*old(position), old(body).velocity, dt as int),
        *final(body) == with_friction(*old(body), decay as int),
{
    position.x = sat_add(position.x, mul_div(body.velocity.x, dt as i64, MICROS_PER_SECOND));
    position.y = sat_add(position.y, mul_div(body.velocity.y, dt as i64, MICROS_PER_SECOND));
    body.velocity.x = mul_div(body.velocity.x, decay, MICROS_PER_SECOND);
}

/// One step of free motion, in the fixed order gravity, wind, motion,
/// friction. A body that the wind does not move has resistance zero.
pub fn integrate(
    position: &mut Vec2,
    body: &mut RigidBody,
    wind: Vec2,
    resistance: i64,
    dt: u32,
    decay: i64,
)
    ensures
        (*final(position), *final(body)) == integrated(
            *old(position),
            *old(body),
            wind,
            resistance as int,
            dt as int,
            decay as int,
        ),
{
    apply_gravity(body, dt);
    apply_wind(body, wind, resistance, dt);
    apply_velocity(position, body, dt, decay);
}

/// Lets a body that met the ground rebound or come to rest.
pub fn land(body: &mut RigidBody, collider: &mut Collider)
    ensures
        (*final(body), *final(collider)) == landed(*old(body), *old(collider)),
{
    if body.velocity.y < 0 {
        let rebound: i64 = mul_div(sat_neg(body.velocity.y), body.bounce, SCALE);
        if -REST_SPEED < rebound && rebound < REST_SPEED {
            body.velocity.y = 0;
            collider.is_grounded = true;
        } else {
            body.velocity.y = rebound;
        }
    }
}

/// Enforces the flat ground at `GROUND_Y`.
pub fn check_ground_collision(position: &mut Vec2, body: &mut RigidBody, collider: &mut Collider)
    ensures
        (*final(position), *final(body), *final(collider)) == grounded_flat(
            *old(position),
            *old(body),
            *old(collider),
        ),
{
    if position.y as i128 - collider.radius as i128 <= GROUND_Y as i128 {
        position.y = sat_add(GROUND_Y, collider.radius);
        land(body, collider);
    } else {
        collider.is_grounded = false;
    }
}

/// One step of a run: its length in microseconds and the friction decay
/// over that length, in millionths.
#[derive(Clone, Copy, PartialEq, Eq, Structural, Debug)]
pub struct Step {
    pub dt: u32,
    pub decay: i64,
}

/// Position and body after a run of free motion through `steps`.
pub open spec fn flown(
    position: Vec2,
    body: RigidBody,
    wind: Vec2,
    resistance: int,
    steps: Seq<Step>,
) -> (Vec2, RigidBody)
    decreases steps.len(),
{
    if steps.len() == 0 {
        (position, body)
    } else {
        let (reached, carried) = flown(position, body, wind, resistance, steps.drop_last());
        integrated(
            reached,
            carried,
            wind,
            resistance,
            steps.last().dt as int,
            steps.last().decay as int,
        )
    }
}

/// Two runs that start at the same position with the same velocity and
/// gravity scale, under the same wind and through the same steps, pass
/// through the same positions with the same velocities: nothing else about
/// a body, neither its mass nor its bounce nor its friction coefficient,
/// enters a trajectory.
pub proof fn lemma_trajectory_deterministic(
    position: Vec2,
    first: RigidBody,
    second: RigidBody,
    wind: Vec2,
    resistance: int,
    steps: Seq<Step>,
)
    requires
        first.velocity == second.velocity,
        first.gravity_scale == second.gravity_scale,
    ensures
        flown(position, first, wind, resistance, steps).0 == flown(
            position,
            second,
            wind,
            resistance,
            steps,
        ).0,
        flown(position, first, wind, resistance, steps).1.velocity == flown(
            position,
            second,
            wind,
            resistance,
            steps,
        ).1.velocity,
        flown(position, first, wind, resistance, steps).1.gravity_scale == first.gravity_scale,
        flown(position, second, wind, resistance, steps).1.gravity_scale == second.gravity_scale,
    decreases steps.len(),
{
    if steps.len() > 0 {
        lemma_trajectory_deterministic(
            position,
            first,
            second,
            wind,
            resistance,
            steps.drop_last(),
        );
    }
}

/// The grid point `at` moved by whole units.
pub open spec fn shifted(at: Vec2, right: int, up: int) -> Vec2 {
    Vec2 {
        x: saturated(at.x + right * SCALE) as i64,
        y: saturated(at.y + up * SCALE) as i64,
    }
}

/// The smallest lift, in whole units from `from` to `MAX_PUSH`, that frees
/// a circle at the grid point `at` from the terrain.
pub open spec fn first_lift(terrain: TerrainView, at: Vec2, radius: int, from: int) -> Option<int>
    decreases MAX_PUSH + 1 - from,
{
    if from > MAX_PUSH || from < 1 {
        None
    } else if !terrain.collides(
        shifted(at, 0, from).x as int,
        shifted(at, 0, from).y as int,
        radius,
    ) {
        Some(from)
    } else {
        first_lift(terrain, at, radius, from + 1)
    }
}

/// The nearest sideways shift, in whole units from `from` to `MAX_PUSH`,
/// that frees a circle at the grid point `at`: positive to the right,
/// negative to the left, the right preferred at equal distance.
pub open spec fn first_sidestep(terrain: TerrainView, at: Vec2, radius: int, from: int) -> Option<
    int,
>
    decreases MAX_PUSH + 1 - from,
{
    if from > MAX_PUSH || from < 1 {
        None
    } else if !terrain.collides(
        shifted(at, from, 0).x as int,
        shifted(at, from, 0).y as int,
        radius,
    ) {
        Some(from)
    } else if !terrain.collides(
        shifted(at, -from, 0).x as int,
        shifted(at, -from, 0).y as int,
        radius,
    ) {
        Some(-from)
    } else {
        first_sidestep(terrain, at, radius, from + 1)
    }
}

/// The body and its collider after the terrain lifted it to a free place:
/// a falling body lands there, and a body that does not fall stands there,
/// grounded and with its velocity as it was.
pub open spec fn set_down(body: RigidBody, collider: Collider) -> (RigidBody, Collider) {
    if body.velocity.y < 0 {
        landed(body, collider)
    } else {
        (body, Collider { is_grounded: true, ..collider })
    }
}

/// Position, body and collider after the terrain was enforced. A body that
/// touches no solid cell is left as it is. One that does is lifted to the
/// nearest free place above it and is set down there; if there is none
/// within reach it is moved to the nearest free place beside it and loses
/// its horizontal velocity; if there is none either it stays.
pub open spec fn pushed_out(
    terrain: TerrainView,
    position: Vec2,
    body: RigidBody,
    collider: Collider,
) -> (Vec2, RigidBody, Collider) {
    let at = terrain.grid_point(position);
    if !terrain.collides(at.x as int, at.y as int, collider.radius as int) {
        (position, body, collider)
    } else {
        match first_lift(terrain, at, collider.radius as int, 1) {
            Some(lift) => {
                let (settled, resting) = set_down(body, collider);
                (
                    Vec2 { x: position.x, y: terrain.world_point(shifted(at, 0, lift)).y },
                    settled,
                    resting,
                )
            },
            None => match first_sidestep(terrain, at, collider.radius as int, 1) {
                Some(step) => (
                    Vec2 { x: terrain.world_point(shifted(at, step, 0)).x, y: position.y },
                    RigidBody { velocity: Vec2 { x: 0, y: body.velocity.y }, ..body },
                    collider,
                ),
                None => (position, body, collider),
            },
        }
    }
}

/// Runs the free motion through `steps`, one after the other.
pub fn fly(
    position: &mut Vec2,
    body: &mut RigidBody,
    wind: Vec2,
    resistance: i64,
    steps: &Vec<Step>,
)
    ensures
        (*final(position), *final(body)) == flown(
            *old(position),
            *old(body),
            wind,
            resistance as int,
            steps@,
        ),
{
    let mut i: usize = 0;
    assert(steps@.take(0) =~= Seq::<Step>::empty());
    while i < steps.len()
        invariant
            i <= steps@.len(),
            (*position, *body) == flown(
                *old(position),
                *old(body),
                wind,
                resistance as int,
                steps@.take(i as int),
            ),
        decreases steps@.len() - i,
    {
        proof {
            assert(steps@.take(i + 1).drop_last() =~= steps@.take(i as int));
            assert(steps@.take(i + 1).last() == steps@[i as int]);
        }
        integrate(position, body, wind, resistance, steps[i].dt, steps[i].decay);
        i += 1;
    }
    assert(steps@.take(steps@.len() as int) =~= steps@);
}

/// The grid point `at` moved by whole units.
pub fn shift(at: Vec2, right: i64, up: i64) -> (moved: Vec2)
    ensures
        moved == shifted(at, right as int, up as int),
{
    Vec2 {
        x: saturate(at.x as i128 + right as i128 * (SCALE as i128)),
        y: saturate(at.y as i128 + up as i128 * (SCALE as i128)),
    }
}

/// Enforces the terrain on a body: step five of a tick.
pub fn resolve_terrain_collision(
    terrain: &TerrainMap,
    position: &mut Vec2,
    body: &mut RigidBody,
    collider: &mut Collider,
)
    ensures
        (*final(position), *final(body), *final(collider)) == pushed_out(
            terrain@,
            *old(position),
            *old(body),
            *old(collider),
        ),
{
    let at: Vec2 = terrain.to_grid(*position);
    let radius: i64 = collider.radius;
    if !terrain.check_collision(at.x, at.y, radius) {
        return ;
    }
    let mut lift: i64 = 1;
    while lift <= MAX_PUSH
        invariant
            1 <= lift <= MAX_PUSH + 1,
            *position == *old(position),
            *body == *old(body),
            *collider == *old(collider),
            radius == collider.radius,
            at == terrain@.grid_point(*position),
            terrain@.collides(at.x as int, at.y as int, radius as int),
            first_lift(terrain@, at, radius as int, lift as int) == first_lift(
                terrain@,
                at,
                radius as int,
                1,
            ),
        decreases MAX_PUSH + 1 - lift,
    {
        let place: Vec2 = shift(at, 0, lift);
        if !terrain.check_collision(place.x, place.y, radius) {
            position.y = terrain.to_world(place).y;
            if body.velocity.y < 0 {
                land(body, collider);
            } else {
                collider.is_grounded = true;
            }
            return ;
        }
        lift += 1;
    }
    let mut step: i64 = 1;
    while step <= MAX_PUSH
        invariant
            1 <= step <= MAX_PUSH + 1,
            *position == *old(position),
            *body == *old(body),
            *collider == *old(collider),
            radius == collider.radius,
            at == terrain@.grid_point(*position),
            terrain@.collides(at.x as int, at.y as int, radius as int),
            first_lift(terrain@, at, radius as int, 1).is_none(),
            first_sidestep(terrain@, at, radius as int, step as int) == first_sidestep(
                terrain@,
                at,
                radius as int,
                1,
            ),
        decreases MAX_PUSH + 1 - step,
    {
        let right: Vec2 = shift(at, step, 0);
        if !terrain.check_collision(right.x, right.y, radius) {
            position.x = terrain.to_world(right).x;
            body.velocity.x = 0;
            return ;
        }
        let left: Vec2 = shift(at, -step, 0);
        if !terrain.check_collision(left.x, left.y, radius) {
            position.x = terrain.to_world(left).x;
            body.velocity.x = 0;
            return ;
        }
        step += 1;
    }
}

/// Position, body and collider after one full tick: free motion, then, for
/// a body that can stand on the ground, the terrain.
pub open spec fn stepped(
    terrain: TerrainView,
    position: Vec2,
    body: RigidBody,
    collider: Collider,
    wind: Vec2,
    resistance: int,
    step: Step,
    stands: bool,
) -> (Vec2, RigidBody, Collider) {
    let (arrived, carried) = integrated(
        position,
        body,
        wind,
        resistance,
        step.dt as int,
        step.decay as int,
    );
    if stands {
        pushed_out(terrain, arrived, carried, collider)
    } else {
        (arrived, carried, collider)
    }
}

/// One full tick of a body, in the fixed order gravity, wind, motion,
/// friction, collision. `stands` says whether the body can stand on the
/// ground: a character can, a projectile cannot.
pub fn step_body(
    terrain: &TerrainMap,
    position: &mut Vec2,
    body: &mut RigidBody,
    collider: &mut Collider,
    wind: Vec2,
    resistance: i64,
    step: Step,
    stands: bool,
)
    ensures
        (*final(position), *final(body), *final(collider)) == stepped(
            terrain@,
            *old(position),
            *old(body),
            *old(collider),
            wind,
            resistance as int,
            step,
            stands,
        ),
{
    integrate(position, body, wind, resistance, step.dt, step.decay);
    if stands {
        resolve_terrain_collision(terrain, position, body, collider);
    }
}

} // verus!
