//! The characters: their health, and the rules that move and hurt them.

use vstd::prelude::*;
use crate::fixed::{quotient, sat_neg, sat_sub, saturate, saturated, Vec2, SCALE};
use crate::game_state::{GameState, GameStateView};
use crate::physics::{Collider, RigidBody};
use crate::terrain::TerrainMap;

verus! {

/// Health a character starts with: one hundred points.
pub const DEFAULT_HEALTH: i64 = 100_000;

/// Walking speed of a character: 150 units per second.
pub const DEFAULT_MOVE_SPEED: i64 = 150_000;

/// Upward speed a jump gives: 400 units per second.
pub const DEFAULT_JUMP_FORCE: i64 = 400_000;

/// A character. It lives while its health is positive and is never revived.
#[derive(Clone, Copy, PartialEq, Eq, Structural, Debug)]
pub struct Worm {
    pub health: i64,
    pub max_health: i64,
    pub team: u32,
    pub move_speed: i64,
    pub jump_force: i64,
}

/// `value` held inside `[0, max]`; an upper bound below zero counts as zero.
pub open spec fn health_within(value: int, max: int) -> int {
    if value <= 0 || max <= 0 {
        0
    } else if value > max {
        max
    } else {
        value
    }
}

impl Worm {
    /// Whether the character lives.
    pub open spec fn alive(self) -> bool {
        self.health > 0
    }

    /// The character after it lost `amount` of health.
    pub open spec fn damaged(self, amount: int) -> Worm {
        Worm {
            health: health_within(saturated(self.health - amount), self.max_health as int) as i64,
            ..self
        }
    }

    /// A character of the given team with the default attributes.
    pub fn new(team: u32) -> (worm: Worm)
        ensures
            worm == (Worm {
                health: DEFAULT_HEALTH,
                max_health: DEFAULT_HEALTH,
                team,
                move_speed: DEFAULT_MOVE_SPEED,
                jump_force: DEFAULT_JUMP_FORCE,
            }),
    {
        Worm {
            health: DEFAULT_HEALTH,
            max_health: DEFAULT_HEALTH,
            team,
            move_speed: DEFAULT_MOVE_SPEED,
            jump_force: DEFAULT_JUMP_FORCE,
        }
    }

    /// Whether the character lives.
    pub fn is_alive(&self) -> (alive: bool)
        ensures
            alive == self.alive(),
    {
        self.health > 0
    }

    /// Takes `amount` from the health and holds the result inside
    /// `[0, max_health]`.
    pub fn apply_damage(&mut self, amount: i64)
        ensures
            *final(self) == old(self).damaged(amount as int),
    {
        let left: i64 = sat_sub(self.health, amount);
        self.health = if left <= 0 || self.max_health <= 0 {
            0
        } else if left > self.max_health {
            self.max_health
        } else {
            left
        };
    }
}

impl Default for Worm {
    fn default() -> (worm: Worm)
        ensures
            worm == (Worm {
                health: DEFAULT_HEALTH,
                max_health: DEFAULT_HEALTH,
                team: 0,
                move_speed: DEFAULT_MOVE_SPEED,
                jump_force: DEFAULT_JUMP_FORCE,
            }),
    {
        Worm::new(0)
    }
}

/// Number of living characters of `team` among `worms`.
pub open spec fn alive_in_team(worms: Seq<Worm>, team: int) -> nat
    decreases worms.len(),
{
    if worms.len() == 0 {
        0
    } else {
        let rest = alive_in_team(worms.drop_last(), team);
        if worms.last().alive() && worms.last().team == team {
            rest + 1
        } else {
            rest
        }
    }
}

/// A team has no more living characters than there are characters.
pub proof fn lemma_alive_bounded(worms: Seq<Worm>, team: int)
    ensures
        alive_in_team(worms, team) <= worms.len(),
    decreases worms.len(),
{
    if worms.len() > 0 {
        lemma_alive_bounded(worms.drop_last(), team);
    }
}

/// Speed of a landing above which a character is hurt: 300 units per
/// second.
pub const SAFE_FALL_SPEED: i64 = 300_000;

/// Share of the excess landing speed that is taken from the health: one
/// tenth.
pub const FALL_DAMAGE_DIVISOR: i64 = 10;

/// What the player does to a character in one tick.
#[derive(Clone, Copy, PartialEq, Eq, Structural, Debug)]
pub struct MoveInput {
    pub left: bool,
    pub right: bool,
    pub jump: bool,
}

/// Whether a character takes the player's input: the player may act, the
/// character lives and belongs to the team whose turn it is.
pub open spec fn commanded(worm: Worm, state: GameStateView) -> bool {
    state.can_act() && worm.alive() && worm.team == state.current_player
}

/// The direction the keys ask for: `-1`, `0` or `1`.
pub open spec fn steer(input: MoveInput) -> int {
    (if input.right {
        1int
    } else {
        0int
    }) - (if input.left {
        1int
    } else {
        0int
    })
}

/// The body of a character after one tick of input: a commanded character
/// walks at its speed to the side the keys ask for, and jumps if it stands
/// on the ground.
pub open spec fn walked(
    body: RigidBody,
    worm: Worm,
    collider: Collider,
    state: GameStateView,
    input: MoveInput,
) -> RigidBody {
    if commanded(worm, state) {
        RigidBody {
            velocity: Vec2 {
                x: if steer(input) > 0 {
                    saturated(worm.move_speed as int) as i64
                } else if steer(input) < 0 {
                    saturated(-worm.move_speed) as i64
                } else {
                    0
                },
                y: if input.jump && collider.is_grounded {
                    worm.jump_force
                } else {
                    body.velocity.y
                },
            },
            ..body
        }
    } else {
        body
    }
}

/// The damage of a landing at vertical velocity `speed`.
pub open spec fn fall_damage(speed: int) -> int {
    let fast = if speed < 0 {
        saturated(-speed)
    } else {
        speed
    };
    if fast > SAFE_FALL_SPEED {
        quotient(fast - SAFE_FALL_SPEED, FALL_DAMAGE_DIVISOR as int)
    } else {
        0
    }
}

/// A character after the fall-damage rule: one that stands on the ground
/// while it still moves faster than is safe is hurt.
pub open spec fn fallen(worm: Worm, body: RigidBody, collider: Collider) -> Worm {
    if collider.is_grounded && fall_damage(body.velocity.y as int) > 0 {
        worm.damaged(fall_damage(body.velocity.y as int))
    } else {
        worm
    }
}

/// The two places where the characters of a match start, in world
/// coordinates: three tenths of the width to either side of the middle and
/// three tenths of the height above it.
pub open spec fn start_places(width: int, height: int) -> (Vec2, Vec2) {
    (
        Vec2 {
            x: saturated(-(width * SCALE * 3 / 10)) as i64,
            y: saturated(height * SCALE * 3 / 10) as i64,
        },
        Vec2 {
            x: saturated(width * SCALE * 3 / 10) as i64,
            y: saturated(height * SCALE * 3 / 10) as i64,
        },
    )
}

/// One tick of input on a character.
pub fn worm_movement(
    body: &mut RigidBody,
    worm: &Worm,
    collider: &Collider,
    state: &GameState,
    input: MoveInput,
)
    ensures
        *final(body) == walked(*old(body), *worm, *collider, state@, input),
{
    if !state.can_player_act() {
        return ;
    }
    if worm.health <= 0 || worm.team != state.current_player() {
        return ;
    }
    let mut direction: i64 = 0;
    if input.left {
        direction -= 1;
    }
    if input.right {
        direction += 1;
    }
    body.velocity.x = if direction > 0 {
        saturate(worm.move_speed as i128)
    } else if direction < 0 {
        sat_neg(worm.move_speed)
    } else {
        0
    };
    if input.jump && collider.is_grounded {
        body.velocity.y = worm.jump_force;
    }
}

/// The fall-damage rule on a character.
pub fn worm_fall_damage(worm: &mut Worm, body: &RigidBody, collider: &Collider)
    ensures
        *final(worm) == fallen(*old(worm), *body, *collider),
{
    if !collider.is_grounded {
        return ;
    }
    let speed: i64 = if body.velocity.y < 0 {
        sat_neg(body.velocity.y)
    } else {
        body.velocity.y
    };
    if speed > SAFE_FALL_SPEED {
        let damage: i64 = (speed - SAFE_FALL_SPEED) / FALL_DAMAGE_DIVISOR;
        if damage > 0 {
            worm.apply_damage(damage);
        }
    }
}

/// The two places where the characters of a match start.
pub fn spawn_positions(terrain: &TerrainMap) -> (places: (Vec2, Vec2))
    ensures
        places == start_places(terrain@.width, terrain@.height),
{
    let across: i128 = terrain.width() as i128 * (SCALE as i128) * 3 / 10;
    let up: i128 = terrain.height() as i128 * (SCALE as i128) * 3 / 10;
    (Vec2 { x: saturate(-across), y: saturate(up) }, Vec2 { x: saturate(across), y: saturate(up) })
}

/// Whether character `index` is the active one of `team`: the first of the
/// team that lives.
pub open spec fn is_active(worms: Seq<Worm>, team: int, index: int) -> bool {
    &&& 0 <= index < worms.len()
    &&& worms[index].team == team
    &&& worms[index].alive()
    &&& forall|earlier: int|
        0 <= earlier < index ==> !((#[trigger] worms[earlier]).team == team
            && worms[earlier].alive())
}

/// The active character of a team: the first of the team that lives. There
/// is none when no character of the team lives.
pub fn active_worm(worms: &Vec<Worm>, team: u32) -> (active: Option<usize>)
    ensures
        match active {
            Some(index) => is_active(worms@, team as int, index as int),
            None => alive_in_team(worms@, team as int) == 0,
        },
{
    let mut i: usize = 0;
    assert(worms@.take(0) =~= Seq::<Worm>::empty());
    while i < worms.len()
        invariant
            i <= worms@.len(),
            alive_in_team(worms@.take(i as int), team as int) == 0,
            forall|earlier: int|
                0 <= earlier < i ==> !((#[trigger] worms@[earlier]).team == team
                    && worms@[earlier].alive()),
        decreases worms@.len() - i,
    {
        if worms[i].team == team && worms[i].health > 0 {
            return Some(i);
        }
        proof {
            assert(worms@.take(i + 1).drop_last() =~= worms@.take(i as int));
            assert(worms@.take(i + 1).last() == worms@[i as int]);
        }
        i += 1;
    }
    assert(worms@.take(worms@.len() as int) =~= worms@);
    None
}

} // verus!
