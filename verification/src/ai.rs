//! The computer opponent: it thinks, turns its aim to the target, charges
//! and fires.
//!
//! It plays through the same aiming state and the same state machine as a
//! player does, and its requests are guarded in the same way.

use vstd::prelude::*;
use crate::aiming::{
    milliradians, muzzle, muzzle_position, to_milliradians, AimingState, CHARGE_RATE,
    DEFAULT_POWER,
};
use crate::fixed::{
    clamped, count_down, floor_sqrt, isqrt, mul_div, sat_add, sat_sub, saturate, saturated, scaled,
    time_left, Vec2, MICROS_PER_SECOND,
};
use crate::game_state::{GamePhase, GameState, GameStateView};
use crate::rng::random_in_range;
use crate::weapons::{
    fire_weapon, shot_of, stats_for, Shot, WeaponInventory, WeaponType, FULL_POWER,
};
use crate::worm::Worm;

verus! {

/// Time the opponent thinks before it aims: two seconds, in microseconds.
pub const THINKING_TIME: u64 = 2_000_000;

/// Time of the opponent's action timer: half a second, in microseconds.
pub const ACTION_TIME: u64 = 500_000;

/// The team the opponent plays.
pub const AI_TEAM: u32 = 1;

/// Bound, not reached, of the error of the opponent's aim to either side:
/// fifteen degrees.
pub const AIM_ERROR: i32 = 15_000;

/// Difference below which the opponent's aim counts as on target: two
/// degrees.
pub const AIM_TOLERANCE: i64 = 2_000;

/// Speed at which the opponent turns its aim: thirty degrees per second.
pub const AI_AIM_RATE: i64 = 30_000;

/// Distance at which the opponent shoots with full power: 500 units.
pub const FULL_POWER_DISTANCE: i64 = 500_000;

/// Least power the opponent shoots with.
pub const LEAST_POWER: i64 = 300;

/// What the opponent is doing.
#[derive(Clone, Copy, PartialEq, Eq, Structural, Debug)]
pub enum AIAction {
    Thinking,
    Moving,
    Aiming,
    Firing,
    Done,
}

/// The opponent's plan. Times are what is left of them, in microseconds;
/// the target angle is in thousandths of a degree.
#[derive(Clone, Copy, PartialEq, Eq, Structural, Debug)]
pub struct AIController {
    pub thinking_time: u64,
    pub current_action: AIAction,
    pub target_angle: i64,
    pub target_power: i64,
    pub action_timer: u64,
}

/// The distance between two points, rounded down; the farthest distance
/// that can be measured stands for all that are farther.
pub open spec fn distance_between(a: Vec2, b: Vec2) -> int {
    let dx = saturated(a.x - b.x);
    let dy = saturated(a.y - b.y);
    saturated(floor_sqrt(dx * dx + dy * dy))
}

/// The power for a target at `distance`: a fifth of full power, and eight
/// tenths more at `FULL_POWER_DISTANCE`, held between `LEAST_POWER` and full
/// power.
pub open spec fn power_for(distance: int) -> int {
    clamped(
        saturated(200 + scaled(distance, 800, FULL_POWER_DISTANCE as int)),
        LEAST_POWER as int,
        FULL_POWER as int,
    )
}

/// The plan with `left` microseconds of thinking to go.
pub open spec fn rested(controller: AIController, left: u64) -> AIController {
    AIController { thinking_time: left, ..controller }
}

/// The plan after the opponent has thought: it aims along `bearing` with
/// the error `error`, with the power for the distance.
pub open spec fn planned(
    controller: AIController,
    bearing: int,
    error: int,
    distance: int,
) -> AIController {
    AIController {
        target_angle: saturated(bearing + error) as i64,
        target_power: power_for(distance) as i64,
        current_action: AIAction::Aiming,
        action_timer: ACTION_TIME,
        ..controller
    }
}

/// Whether the opponent has the turn: a player's turn is on, and a living
/// character of the team whose turn it is is among the opponent's.
pub open spec fn ai_has_turn(state: GameStateView, worms: Seq<Worm>) -> bool {
    state.phase == GamePhase::PlayerTurn && exists|i: int|
        0 <= i < worms.len() && (#[trigger] worms[i]).team == state.current_player
            && worms[i].alive()
}

/// The aim while the opponent turns it toward its target: it moves with
/// `AI_AIM_RATE` while it is off by more than the tolerance, and is set on
/// the target otherwise.
pub open spec fn turned_toward(angle: int, target: int, dt: int) -> int {
    let turn = scaled(AI_AIM_RATE as int, dt, MICROS_PER_SECOND as int);
    if saturated(target - angle) > AIM_TOLERANCE {
        saturated(angle + turn)
    } else if saturated(target - angle) < -AIM_TOLERANCE {
        saturated(angle - turn)
    } else {
        target
    }
}

/// Whether the aim is on the target within the tolerance.
pub open spec fn on_target(angle: int, target: int) -> bool {
    -AIM_TOLERANCE <= saturated(target - angle) <= AIM_TOLERANCE
}

impl AIController {
    /// An opponent that begins to think.
    pub fn new() -> (controller: AIController)
        ensures
            controller == (AIController {
                thinking_time: THINKING_TIME,
                current_action: AIAction::Thinking,
                target_angle: 45_000,
                target_power: 500,
                action_timer: ACTION_TIME,
            }),
    {
        AIController {
            thinking_time: THINKING_TIME,
            current_action: AIAction::Thinking,
            target_angle: 45_000,
            target_power: 500,
            action_timer: ACTION_TIME,
        }
    }
}

impl Default for AIController {
    fn default() -> (controller: AIController)
        ensures
            controller == (AIController {
                thinking_time: THINKING_TIME,
                current_action: AIAction::Thinking,
                target_angle: 45_000,
                target_power: 500,
                action_timer: ACTION_TIME,
            }),
    {
        AIController::new()
    }
}

/// The distance between two points, rounded down.
pub fn distance(a: Vec2, b: Vec2) -> (d: i64)
    ensures
        d == distance_between(a, b),
{
    let dx: i128 = sat_sub(a.x, b.x) as i128;
    let dy: i128 = sat_sub(a.y, b.y) as i128;
    proof {
        assert(0 <= dx * dx <= 0x3fff_ffff_ffff_ffff_0000_0000_0000_0001 && 0 <= dy * dy
            <= 0x3fff_ffff_ffff_ffff_0000_0000_0000_0001) by (nonlinear_arith)
            requires
                -0x7fff_ffff_ffff_ffff <= dx <= 0x7fff_ffff_ffff_ffff,
                -0x7fff_ffff_ffff_ffff <= dy <= 0x7fff_ffff_ffff_ffff,
        ;
    }
    saturate(isqrt((dx * dx + dy * dy) as u128) as i128)
}

/// The power for a target at `distance`.
pub fn choose_power(distance: i64) -> (power: i64)
    ensures
        power == power_for(distance as int),
        LEAST_POWER <= power <= FULL_POWER,
{
    let raw: i64 = sat_add(200, mul_div(distance, 800, FULL_POWER_DISTANCE));
    if raw < LEAST_POWER {
        LEAST_POWER
    } else if raw > FULL_POWER {
        FULL_POWER
    } else {
        raw
    }
}

/// Makes the opponent's plan from the bearing of the target, the error of
/// the aim that was drawn, and the two positions.
pub fn plan_shot(
    controller: &mut AIController,
    bearing: i64,
    error: i32,
    shooter: Vec2,
    target: Vec2,
)
    ensures
        *final(controller) == planned(
            *old(controller),
            bearing as int,
            error as int,
            distance_between(target, shooter),
        ),
{
    controller.target_angle = sat_add(bearing, error as i64);
    controller.target_power = choose_power(distance(target, shooter));
    controller.current_action = AIAction::Aiming;
    controller.action_timer = ACTION_TIME;
}

/// Whether a living character of the team whose turn it is is among
/// `worms`, while a player's turn is on.
pub fn is_ai_turn(state: &GameState, worms: &Vec<Worm>) -> (turn: bool)
    ensures
        turn == ai_has_turn(state@, worms@),
{
    if state.game_phase() != GamePhase::PlayerTurn {
        return false;
    }
    let current: u32 = state.current_player();
    let mut i: usize = 0;
    while i < worms.len()
        invariant
            i <= worms@.len(),
            current == state@.current_player,
            state@.phase == GamePhase::PlayerTurn,
            forall|j: int|
                0 <= j < i ==> !((#[trigger] worms@[j]).team == current && worms@[j].alive()),
        decreases worms@.len() - i,
    {
        if worms[i].team == current && worms[i].health > 0 {
            assert(worms@[i as int].team == state@.current_player && worms@[i as int].alive());
            return true;
        }
        i += 1;
    }
    false
}

/// One tick of the opponent's thinking. While it has the turn and is
/// thinking, its thinking time runs; when the time is up and both its own
/// character and a target are there, it makes its plan, with an error of
/// the aim drawn from `-AIM_ERROR..AIM_ERROR`. `bearing` is the direction
/// from the shooter to the target, in thousandths of a degree. Otherwise
/// nothing changes.
pub fn ai_decision_making(
    controller: &mut AIController,
    state: &GameState,
    ai_worms: &Vec<Worm>,
    dt: u32,
    shooter: Option<Vec2>,
    target: Option<Vec2>,
    bearing: i64,
)
    ensures
        !(ai_has_turn(state@, ai_worms@) && old(controller).current_action == AIAction::Thinking)
            ==> *final(controller) == *old(controller),
        ai_has_turn(state@, ai_worms@) && old(controller).current_action == AIAction::Thinking
            ==> if time_left(old(controller).thinking_time, dt as int) == 0 && shooter.is_some()
            && target.is_some() {
            exists|error: int|
                -AIM_ERROR <= error < AIM_ERROR && *final(controller) == #[trigger] planned(
                    rested(*old(controller), 0),
                    bearing as int,
                    error,
                    distance_between(target.unwrap(), shooter.unwrap()),
                )
        } else {
            *final(controller) == rested(
                *old(controller),
                time_left(old(controller).thinking_time, dt as int),
            )
        },
{
    if !is_ai_turn(state, ai_worms) {
        return ;
    }
    if controller.current_action != AIAction::Thinking {
        return ;
    }
    controller.thinking_time = count_down(controller.thinking_time, dt);
    if controller.thinking_time != 0 {
        return ;
    }
    let from: Vec2 = match shooter {
        Some(position) => position,
        None => {
            return ;
        },
    };
    let to: Vec2 = match target {
        Some(position) => position,
        None => {
            return ;
        },
    };
    let error: i32 = random_in_range(-AIM_ERROR, AIM_ERROR);
    plan_shot(controller, bearing, error, from, to);
    proof {
        assert(*controller == planned(
            rested(*old(controller), 0),
            bearing as int,
            error as int,
            distance_between(to, from),
        ));
    }
}

/// The aim and the plan after a tick of turning the aim toward the target.
pub fn turn_aim(controller: &mut AIController, aiming: &mut AimingState, dt: u32)
    ensures
        final(aiming).aim_angle == turned_toward(
            old(aiming).aim_angle as int,
            old(controller).target_angle as int,
            dt as int,
        ),
        *final(aiming) == (AimingState { aim_angle: final(aiming).aim_angle, ..*old(aiming) }),
        *final(controller) == if on_target(
            old(aiming).aim_angle as int,
            old(controller).target_angle as int,
        ) {
            AIController {
                current_action: AIAction::Firing,
                action_timer: ACTION_TIME,
                ..*old(controller)
            }
        } else {
            *old(controller)
        },
{
    let difference: i64 = sat_sub(controller.target_angle, aiming.aim_angle);
    let turn: i64 = mul_div(AI_AIM_RATE, dt as i64, MICROS_PER_SECOND);
    if difference > AIM_TOLERANCE {
        aiming.aim_angle = sat_add(aiming.aim_angle, turn);
    } else if difference < -AIM_TOLERANCE {
        aiming.aim_angle = sat_sub(aiming.aim_angle, turn);
    } else {
        aiming.aim_angle = controller.target_angle;
        controller.current_action = AIAction::Firing;
        controller.action_timer = ACTION_TIME;
    }
}

/// Whether the opponent acts in this tick: one of its characters is there,
/// its team has the turn, and the state machine lets the player act.
pub open spec fn ai_acts(state: GameStateView, present: bool) -> bool {
    present && state.current_player == AI_TEAM && state.can_act()
}

/// The power that is charged: nothing before the charge has begun.
pub open spec fn charged(aiming: AimingState) -> int {
    if aiming.power_charging {
        aiming.power as int
    } else {
        0
    }
}

/// The aim after a tick of charging toward the power `target`: the charge
/// is on, and it grows while it is below the target.
pub open spec fn charging_on(aiming: AimingState, target: int, dt: int) -> AimingState {
    AimingState {
        power_charging: true,
        power: if charged(aiming) < target {
            saturated(charged(aiming) + scaled(CHARGE_RATE as int, dt, MICROS_PER_SECOND as int))
        } else {
            charged(aiming)
        } as i64,
        ..aiming
    }
}

/// Whether the opponent's shot leaves in this tick: it is firing, the
/// charge has reached the planned power, a weapon is selected and its
/// character is there.
pub open spec fn ai_fires(
    controller: AIController,
    aiming: AimingState,
    selected: Option<WeaponType>,
    shooter: Option<Vec2>,
) -> bool {
    controller.current_action == AIAction::Firing && charged(aiming) >= controller.target_power
        && selected.is_some() && shooter.is_some()
}

/// One tick of the opponent's action. It acts only while the state machine
/// lets the player act; in any other phase its commands are dropped and
/// nothing changes. While it acts: aiming, it enters the aiming mode and
/// turns its aim toward the target; firing, it charges up to the planned
/// power and then shoots as a player would; done, it begins to think again
/// at its next turn. `direction` is the unit vector of the aim in
/// millionths. The result holds the projectiles of the shot, if one left.
pub fn ai_execute_action(
    controller: &mut AIController,
    aiming: &mut AimingState,
    state: &mut GameState,
    inventory: &WeaponInventory,
    dt: u32,
    shooter: Option<Vec2>,
    direction: Vec2,
) -> (shots: Vec<Shot>)
    ensures
        !ai_acts(old(state)@, shooter.is_some()) ==> *final(controller) == *old(controller)
            && *final(aiming) == *old(aiming) && final(state)@ == old(state)@ && shots@.len() == 0,
        ai_acts(old(state)@, shooter.is_some()) && ai_fires(
            *old(controller),
            *old(aiming),
            inventory.selected(),
            shooter,
        ) ==> {
            &&& *final(controller) == (AIController {
                current_action: AIAction::Done,
                thinking_time: THINKING_TIME,
                action_timer: time_left(old(controller).action_timer, dt as int),
                ..*old(controller)
            })
            &&& *final(aiming) == (AimingState {
                is_aiming: false,
                power_charging: false,
                power: DEFAULT_POWER,
                ..*old(aiming)
            })
            &&& final(state)@ == old(state)@.request(GamePhase::Aiming, GamePhase::Firing).request(
                GamePhase::Firing,
                GamePhase::ProjectileFlying,
            )
            &&& shots@.len() == stats_for(inventory.selected().unwrap()).projectile_count
            &&& forall|i: int|
                0 <= i < shots@.len() ==> #[trigger] shots@[i] == shot_of(
                    inventory.selected().unwrap(),
                    muzzle(shooter.unwrap(), direction),
                    milliradians(old(aiming).aim_angle as int),
                    clamped(charged(*old(aiming)), 0, FULL_POWER as int),
                    i,
                )
        },
        ai_acts(old(state)@, shooter.is_some()) && !ai_fires(
            *old(controller),
            *old(aiming),
            inventory.selected(),
            shooter,
        ) ==> shots@.len() == 0,
        ai_acts(old(state)@, shooter.is_some()) && old(controller).current_action
            == AIAction::Aiming ==> {
            &&& *final(aiming) == (AimingState {
                is_aiming: true,
                aim_angle: turned_toward(
                    old(aiming).aim_angle as int,
                    old(controller).target_angle as int,
                    dt as int,
                ) as i64,
                ..*old(aiming)
            })
            &&& final(state)@ == if old(aiming).is_aiming {
                old(state)@
            } else {
                old(state)@.request(GamePhase::PlayerTurn, GamePhase::Aiming)
            }
            &&& *final(controller) == if on_target(
                old(aiming).aim_angle as int,
                old(controller).target_angle as int,
            ) {
                AIController {
                    current_action: AIAction::Firing,
                    action_timer: ACTION_TIME,
                    ..*old(controller)
                }
            } else {
                *old(controller)
            }
        },
        ai_acts(old(state)@, shooter.is_some()) && old(controller).current_action
            == AIAction::Firing && !ai_fires(
            *old(controller),
            *old(aiming),
            inventory.selected(),
            shooter,
        ) ==> {
            &&& *final(aiming) == charging_on(
                *old(aiming),
                old(controller).target_power as int,
                dt as int,
            )
            &&& final(state)@ == old(state)@
            &&& *final(controller) == (AIController {
                action_timer: time_left(old(controller).action_timer, dt as int),
                ..*old(controller)
            })
        },
        ai_acts(old(state)@, shooter.is_some()) && old(controller).current_action
            == AIAction::Done ==> {
            &&& *final(controller) == (AIController {
                current_action: if old(state)@.phase == GamePhase::PlayerTurn {
                    AIAction::Thinking
                } else {
                    AIAction::Done
                },
                ..*old(controller)
            })
            &&& *final(aiming) == *old(aiming)
            &&& final(state)@ == old(state)@
        },
        ai_acts(old(state)@, shooter.is_some()) && (old(controller).current_action
            == AIAction::Thinking || old(controller).current_action == AIAction::Moving) ==> {
            &&& *final(controller) == *old(controller)
            &&& *final(aiming) == *old(aiming)
            &&& final(state)@ == old(state)@
        },
{
    if shooter.is_none() || state.current_player() != AI_TEAM || !state.can_player_act() {
        return Vec::new();
    }
    match controller.current_action {
        AIAction::Aiming => {
            if !aiming.is_aiming {
                aiming.is_aiming = true;
                state.start_aiming();
            }
            turn_aim(controller, aiming, dt);
            Vec::new()
        },
        AIAction::Firing => {
            controller.action_timer = count_down(controller.action_timer, dt);
            if !aiming.power_charging {
                aiming.power_charging = true;
                aiming.power = 0;
            }
            if aiming.power < controller.target_power {
                aiming.power = sat_add(
                    aiming.power,
                    mul_div(CHARGE_RATE, dt as i64, MICROS_PER_SECOND),
                );
                return Vec::new();
            }
            let weapon: WeaponType = match inventory.current() {
                Some(weapon) => weapon,
                None => {
                    return Vec::new();
                },
            };
            let from: Vec2 = match shooter {
                Some(position) => position,
                None => {
                    return Vec::new();
                },
            };
            let power: i64 = if aiming.power < 0 {
                0
            } else if aiming.power > FULL_POWER {
                FULL_POWER
            } else {
                aiming.power
            };
            let shots: Vec<Shot> = fire_weapon(
                weapon,
                muzzle_position(from, direction),
                to_milliradians(aiming.aim_angle),
                power,
            );
            state.start_firing();
            state.projectile_launched();
            aiming.is_aiming = false;
            aiming.power_charging = false;
            aiming.power = DEFAULT_POWER;
            controller.current_action = AIAction::Done;
            controller.thinking_time = THINKING_TIME;
            shots
        },
        AIAction::Done => {
            if state.game_phase() == GamePhase::PlayerTurn {
                controller.current_action = AIAction::Thinking;
            }
            Vec::new()
        },
        _ => Vec::new(),
    }
}

} // verus!
