//! Aiming, weapon selection and the shot, as rules on the player's input.
//!
//! Input is accepted only while the state machine lets the player act.
//! Angles of the aim are in thousandths of a degree, power in thousandths of
//! full power.

use vstd::prelude::*;
use crate::fixed::{
    clamped, mul_div, sat_add, sat_sub, saturated, scaled, Vec2, MICROS_PER_SECOND,
};
use crate::game_state::{GamePhase, GameState, GameStateView};
use crate::physics::{integrate, integrated, RigidBody};
use crate::weapons::{
    fire_weapon, shot_of, stats_for, Shot, WeaponInventory, WeaponType, FULL_POWER,
};

verus! {

/// Steepest aim to either side.
pub const AIM_LIMIT: i64 = 90_000;

/// Speed at which the aim turns: ninety degrees per second.
pub const AIM_RATE: i64 = 90_000;

/// Speed at which the power charges: eight tenths of full power per second.
pub const CHARGE_RATE: i64 = 800;

/// Aim of a player who has not aimed yet: forty-five degrees.
pub const DEFAULT_AIM: i64 = 45_000;

/// Power of a shot that was not charged: half of full power.
pub const DEFAULT_POWER: i64 = 500;

/// Distance from the middle of a character at which its shot starts.
pub const MUZZLE_DISTANCE: i64 = 20_000;

/// Number of steps of a trajectory preview.
pub const PREVIEW_STEPS: usize = 200;

/// Length of one step of a trajectory preview: a fiftieth of a second.
pub const PREVIEW_DT: u32 = 20_000;

/// Depth at which a trajectory preview ends.
pub const PREVIEW_DEPTH: i64 = -400_000;

/// Distance beside the world origin at which a trajectory preview ends.
pub const PREVIEW_REACH: i64 = 2_000_000;

/// The circle constant in millionths, for the conversion of angles.
pub const PI_MILLIONTHS: i64 = 3_141_593;

/// The aim of the player whose turn it is.
#[derive(Clone, Copy, PartialEq, Eq, Structural, Debug)]
pub struct AimingState {
    pub is_aiming: bool,
    pub aim_angle: i64,
    pub power: i64,
    pub max_power: i64,
    pub power_charging: bool,
}

/// What the player does to the aim in one tick.
#[derive(Clone, Copy, PartialEq, Eq, Structural, Debug)]
pub struct AimInput {
    pub toggle: bool,
    pub left: bool,
    pub right: bool,
    pub charge: bool,
}

/// What the player does to the weapon selection in one tick.
#[derive(Clone, Copy, PartialEq, Eq, Structural, Debug)]
pub struct WeaponKeys {
    pub first: bool,
    pub second: bool,
    pub third: bool,
    pub previous: bool,
    pub next: bool,
}

/// An angle in thousandths of a radian, from thousandths of a degree.
pub open spec fn milliradians(millidegrees: int) -> int {
    scaled(millidegrees, PI_MILLIONTHS as int, 180_000_000)
}

/// The aim after the player asked to enter or to leave the aiming mode:
/// leaving gives up the charge.
pub open spec fn toggled(aiming: AimingState) -> AimingState {
    if aiming.is_aiming {
        AimingState { is_aiming: false, power: 0, power_charging: false, ..aiming }
    } else {
        AimingState { is_aiming: true, ..aiming }
    }
}

/// The aim after `dt` microseconds of turning and charging: the angle
/// follows the keys and stays inside the limit; a new charge starts from
/// nothing; a running charge grows up to the maximum.
pub open spec fn adjusted(aiming: AimingState, input: AimInput, dt: int) -> AimingState {
    let turn = scaled(AIM_RATE as int, dt, MICROS_PER_SECOND as int);
    let raised = if input.left {
        saturated(aiming.aim_angle + turn)
    } else {
        aiming.aim_angle as int
    };
    let lowered = if input.right {
        saturated(raised - turn)
    } else {
        raised
    };
    let started = input.charge || aiming.power_charging;
    let base = if input.charge {
        0
    } else {
        aiming.power as int
    };
    let grown = saturated(base + scaled(CHARGE_RATE as int, dt, MICROS_PER_SECOND as int));
    AimingState {
        aim_angle: clamped(lowered, -AIM_LIMIT as int, AIM_LIMIT as int) as i64,
        power_charging: started,
        power: if !started {
            aiming.power
        } else if grown >= aiming.max_power {
            aiming.max_power
        } else {
            grown as i64
        },
        ..aiming
    }
}

/// The aim after one tick of input, given whether the player may act.
pub open spec fn aim_handled(aiming: AimingState, may_act: bool, input: AimInput, dt: int) -> AimingState {
    if !may_act {
        aiming
    } else {
        let switched = if input.toggle {
            toggled(aiming)
        } else {
            aiming
        };
        if switched.is_aiming {
            adjusted(switched, input, dt)
        } else {
            switched
        }
    }
}

/// The state machine after one tick of aiming input: entering the aiming
/// mode asks for the aim to begin, leaving it asks for the aim to be given
/// up.
pub open spec fn aim_requested(state: GameStateView, aiming: AimingState, input: AimInput) -> GameStateView {
    if state.can_act() && input.toggle {
        if aiming.is_aiming {
            state.request(GamePhase::Aiming, GamePhase::PlayerTurn)
        } else {
            state.request(GamePhase::PlayerTurn, GamePhase::Aiming)
        }
    } else {
        state
    }
}

/// Whether a shot leaves in this tick: an aim is on in the state machine
/// and in the aiming state, the charge key was released while charging, a
/// weapon is selected and a character is there to shoot.
pub open spec fn shot_leaves(
    aiming: AimingState,
    phase: GamePhase,
    selected: Option<WeaponType>,
    released: bool,
    shooter: Option<Vec2>,
) -> bool {
    phase == GamePhase::Aiming && aiming.is_aiming && released && aiming.power_charging
        && selected.is_some() && shooter.is_some()
}

/// The place where a shot starts: `MUZZLE_DISTANCE` from the shooter along
/// `direction`, a unit vector in millionths.
pub open spec fn muzzle(shooter: Vec2, direction: Vec2) -> Vec2 {
    Vec2 {
        x: saturated(
            shooter.x + scaled(MUZZLE_DISTANCE as int, direction.x as int, MICROS_PER_SECOND as int),
        ) as i64,
        y: saturated(
            shooter.y + scaled(MUZZLE_DISTANCE as int, direction.y as int, MICROS_PER_SECOND as int),
        ) as i64,
    }
}

/// Whether a previewed position lies so far off that the preview ends.
pub open spec fn preview_ends(position: Vec2) -> bool {
    position.y < PREVIEW_DEPTH || position.x > PREVIEW_REACH || position.x < -PREVIEW_REACH
}

/// The points of a trajectory preview of at most `steps` steps: each point
/// is followed by the one that a step of free motion without friction
/// leads to, until a point lies too far off.
pub open spec fn previewed(
    position: Vec2,
    body: RigidBody,
    wind: Vec2,
    resistance: int,
    steps: nat,
) -> Seq<Vec2>
    decreases steps,
{
    if steps == 0 {
        Seq::empty()
    } else {
        let (next, carried) = integrated(
            position,
            body,
            wind,
            resistance,
            PREVIEW_DT as int,
            MICROS_PER_SECOND as int,
        );
        if preview_ends(next) {
            seq![position]
        } else {
            seq![position] + previewed(next, carried, wind, resistance, (steps - 1) as nat)
        }
    }
}

impl AimingState {
    /// The aim before the player has touched it.
    pub fn new() -> (aiming: AimingState)
        ensures
            aiming == (AimingState {
                is_aiming: false,
                aim_angle: DEFAULT_AIM,
                power: DEFAULT_POWER,
                max_power: FULL_POWER,
                power_charging: false,
            }),
    {
        AimingState {
            is_aiming: false,
            aim_angle: DEFAULT_AIM,
            power: DEFAULT_POWER,
            max_power: FULL_POWER,
            power_charging: false,
        }
    }
}

impl Default for AimingState {
    fn default() -> (aiming: AimingState)
        ensures
            aiming == (AimingState {
                is_aiming: false,
                aim_angle: DEFAULT_AIM,
                power: DEFAULT_POWER,
                max_power: FULL_POWER,
                power_charging: false,
            }),
    {
        AimingState::new()
    }
}

/// An angle in thousandths of a radian, from thousandths of a degree.
pub fn to_milliradians(millidegrees: i64) -> (angle: i64)
    ensures
        angle == milliradians(millidegrees as int),
{
    mul_div(millidegrees, PI_MILLIONTHS, 180_000_000)
}

/// One tick of aiming input. While the player may act, the toggle enters
/// or leaves the aiming mode and tells the state machine; while the mode is
/// on, the aim turns and the power charges.
pub fn handle_aiming_input(
    aiming: &mut AimingState,
    state: &mut GameState,
    input: AimInput,
    dt: u32,
)
    ensures
        *final(aiming) == aim_handled(*old(aiming), old(state)@.can_act(), input, dt as int),
        final(state)@ == aim_requested(old(state)@, *old(aiming), input),
{
    if !state.can_player_act() {
        return ;
    }
    if input.toggle {
        if !aiming.is_aiming {
            aiming.is_aiming = true;
            state.start_aiming();
        } else {
            aiming.is_aiming = false;
            aiming.power = 0;
            aiming.power_charging = false;
            state.cancel_aiming();
        }
    }
    if !aiming.is_aiming {
        return ;
    }
    let turn: i64 = mul_div(AIM_RATE, dt as i64, MICROS_PER_SECOND);
    if input.left {
        aiming.aim_angle = sat_add(aiming.aim_angle, turn);
    }
    if input.right {
        aiming.aim_angle = sat_sub(aiming.aim_angle, turn);
    }
    if aiming.aim_angle < -AIM_LIMIT {
        aiming.aim_angle = -AIM_LIMIT;
    } else if aiming.aim_angle > AIM_LIMIT {
        aiming.aim_angle = AIM_LIMIT;
    }
    if input.charge {
        aiming.power_charging = true;
        aiming.power = 0;
    }
    if aiming.power_charging {
        aiming.power = sat_add(aiming.power, mul_div(CHARGE_RATE, dt as i64, MICROS_PER_SECOND));
        if aiming.power >= aiming.max_power {
            aiming.power = aiming.max_power;
        }
    }
}

/// One tick of weapon selection, accepted only while the player may act:
/// the number keys select a weapon, then the cycle keys step through the
/// inventory.
pub fn handle_weapon_switching(inventory: &mut WeaponInventory, state: &GameState, keys: WeaponKeys)
    ensures
        final(inventory).weapons == old(inventory).weapons,
        !state@.can_act() ==> final(inventory).current_weapon == old(inventory).current_weapon,
        state@.can_act() ==> final(inventory).current_weapon == switched(
            old(inventory).current_weapon as int,
            old(inventory).weapons@.len() as int,
            keys,
        ),
{
    if !state.can_player_act() {
        return ;
    }
    if keys.first {
        inventory.select(0);
    }
    if keys.second {
        inventory.select(1);
    }
    if keys.third {
        inventory.select(2);
    }
    if keys.previous {
        inventory.cycle_previous();
    }
    if keys.next {
        inventory.cycle_next();
    }
}

/// The selection after a number key for `index`: an index that names no
/// weapon is dropped.
pub open spec fn picked(current: int, count: int, pressed: bool, index: int) -> int {
    if pressed && index < count {
        index
    } else {
        current
    }
}

/// The selection after a cycle key that moves by `by` places, going round.
pub open spec fn cycled(current: int, count: int, pressed: bool, by: int) -> int {
    if pressed && count > 0 {
        (current + by) % count
    } else {
        current
    }
}

/// The selection after one tick of keys on an inventory of `count` weapons.
pub open spec fn switched(current: int, count: int, keys: WeaponKeys) -> int {
    let one = picked(current, count, keys.first, 0);
    let two = picked(one, count, keys.second, 1);
    let three = picked(two, count, keys.third, 2);
    let back = cycled(three, count, keys.previous, count - 1);
    cycled(back, count, keys.next, 1)
}

/// The place where a shot starts.
pub fn muzzle_position(shooter: Vec2, direction: Vec2) -> (origin: Vec2)
    ensures
        origin == muzzle(shooter, direction),
{
    Vec2 {
        x: sat_add(shooter.x, mul_div(MUZZLE_DISTANCE, direction.x, MICROS_PER_SECOND)),
        y: sat_add(shooter.y, mul_div(MUZZLE_DISTANCE, direction.y, MICROS_PER_SECOND)),
    }
}

/// The shot, if one leaves in this tick. It leaves when an aim is on, the
/// charge key was released while charging, a weapon is selected and a
/// character stands at `shooter`. The shot starts at the muzzle, aimed along
/// the aim angle with the charged power; the state machine goes on to the
/// flight and the aim is put back. Otherwise nothing changes and no
/// projectile is returned.
pub fn handle_firing(
    aiming: &mut AimingState,
    state: &mut GameState,
    inventory: &WeaponInventory,
    released: bool,
    shooter: Option<Vec2>,
    direction: Vec2,
) -> (shots: Vec<Shot>)
    ensures
        shot_leaves(*old(aiming), old(state)@.phase, inventory.selected(), released, shooter) ==> {
            &&& *final(aiming) == (AimingState {
                is_aiming: false,
                power_charging: false,
                power: DEFAULT_POWER,
                ..*old(aiming)
            })
            &&& final(state)@ == (GameStateView {
                phase: GamePhase::ProjectileFlying,
                ..old(state)@
            })
            &&& shots@.len() == stats_for(inventory.selected().unwrap()).projectile_count
            &&& forall|i: int|
                0 <= i < shots@.len() ==> #[trigger] shots@[i] == shot_of(
                    inventory.selected().unwrap(),
                    muzzle(shooter.unwrap(), direction),
                    milliradians(old(aiming).aim_angle as int),
                    clamped(old(aiming).power as int, 0, FULL_POWER as int),
                    i,
                )
        },
        !shot_leaves(*old(aiming), old(state)@.phase, inventory.selected(), released, shooter) ==> {
            &&& *final(aiming) == *old(aiming)
            &&& final(state)@ == old(state)@
            &&& shots@.len() == 0
        },
{
    if state.game_phase() != GamePhase::Aiming || !aiming.is_aiming || !released
        || !aiming.power_charging {
        return Vec::new();
    }
    let weapon: WeaponType = match inventory.current() {
        Some(weapon) => weapon,
        None => {
            return Vec::new();
        },
    };
    let from: Vec2 = match shooter {
        Some(position) => position,
        None => {
            return Vec::new();
        },
    };
    let power: i64 = if aiming.power < 0 {
        0
    } else if aiming.power > FULL_POWER {
        FULL_POWER
    } else {
        aiming.power
    };
    let shots: Vec<Shot> = fire_weapon(
        weapon,
        muzzle_position(from, direction),
        to_milliradians(aiming.aim_angle),
        power,
    );
    state.start_firing();
    state.projectile_launched();
    aiming.is_aiming = false;
    aiming.power_charging = false;
    aiming.power = DEFAULT_POWER;
    shots
}

/// The points of the trajectory that a projectile would take from `start`
/// with the velocity and gravity scale of `body`, under the given wind:
/// at most `PREVIEW_STEPS` steps of `PREVIEW_DT`, ended early where a point
/// lies too far off.
pub fn predict_trajectory(start: Vec2, body: RigidBody, wind: Vec2, resistance: i64) -> (points: Vec<
    Vec2,
>)
    ensures
        points@ == previewed(start, body, wind, resistance as int, PREVIEW_STEPS as nat),
{
    let mut points: Vec<Vec2> = Vec::new();
    let mut position: Vec2 = start;
    let mut moving: RigidBody = body;
    let mut i: usize = 0;
    while i < PREVIEW_STEPS
        invariant
            i <= PREVIEW_STEPS,
            points@ + previewed(position, moving, wind, resistance as int, (PREVIEW_STEPS - i) as nat)
                == previewed(start, body, wind, resistance as int, PREVIEW_STEPS as nat),
        decreases PREVIEW_STEPS - i,
    {
        let ghost before = points@;
        let ghost here = position;
        let ghost rest = previewed(
            position,
            moving,
            wind,
            resistance as int,
            (PREVIEW_STEPS - i) as nat,
        );
        points.push(position);
        integrate(&mut position, &mut moving, wind, resistance, PREVIEW_DT, MICROS_PER_SECOND);
        if position.y < PREVIEW_DEPTH || position.x > PREVIEW_REACH || position.x < -PREVIEW_REACH {
            proof {
                assert(rest =~= seq![here]);
                assert(points@ =~= before + rest);
            }
            return points;
        }
        proof {
            let tail = previewed(
                position,
                moving,
                wind,
                resistance as int,
                (PREVIEW_STEPS - i - 1) as nat,
            );
            assert(rest =~= seq![here] + tail);
            assert(points@ + tail =~= before + rest);
        }
        i += 1;
    }
    proof {
        assert(points@ + Seq::<Vec2>::empty() =~= points@);
    }
    points
}

} // verus!
