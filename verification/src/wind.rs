//! The wind: a horizontal force that is drawn anew from time to time.
//!
//! Two rules draw a new wind: a timer that runs round, and a chance at
//! every tick of the pause between turns. The force is always horizontal and
//! never reaches `WIND_LIMIT` in either direction.

use vstd::prelude::*;
use crate::fixed::Vec2;
use crate::game_state::GamePhase;
use crate::rng::random_in_range;

verus! {

/// Bound, not reached, of the strength of the wind: 60 units per second
/// squared.
pub const WIND_LIMIT: i32 = 60_000;

/// Time after which the wind is drawn anew: ten seconds, in microseconds.
pub const WIND_PERIOD: u64 = 10_000_000;

/// Chance, in thousandths, that the wind changes in a tick of the pause
/// between turns.
pub const WIND_CHANCE: i32 = 300;

/// The wind and the timer of its next change.
pub struct WindSystem {
    force: Vec2,
    elapsed: u64,
}

/// The mathematical content of a `WindSystem`: the force and the time since
/// the timer last ran round, in microseconds.
pub struct WindView {
    pub force: Vec2,
    pub elapsed: int,
}

/// `strength` held inside the range of the wind.
pub open spec fn held(strength: int) -> int {
    if strength < -WIND_LIMIT {
        -WIND_LIMIT as int
    } else if strength >= WIND_LIMIT {
        WIND_LIMIT - 1
    } else {
        strength
    }
}

/// Whether a draw out of a thousand lets the wind change.
pub open spec fn lets_change(roll: int) -> bool {
    roll < WIND_CHANCE
}

impl WindView {
    /// What every wind satisfies: it is horizontal, its strength is inside
    /// the range, and its timer has not run round.
    pub open spec fn valid(self) -> bool {
        &&& self.force.y == 0
        &&& -WIND_LIMIT <= self.force.x < WIND_LIMIT
        &&& 0 <= self.elapsed < WIND_PERIOD
    }
}

impl View for WindSystem {
    type V = WindView;

    closed spec fn view(&self) -> WindView {
        WindView { force: self.force, elapsed: self.elapsed as int }
    }
}

impl WindSystem {
    #[verifier::type_invariant]
    spec fn well_formed(self) -> bool {
        self@.valid()
    }

    /// A calm whose timer starts now.
    pub fn new() -> (wind: WindSystem)
        ensures
            wind@ == (WindView { force: Vec2 { x: 0, y: 0 }, elapsed: 0 }),
            wind@.valid(),
    {
        WindSystem { force: Vec2 { x: 0, y: 0 }, elapsed: 0 }
    }

    /// The force of the wind.
    pub fn force(&self) -> (force: Vec2)
        ensures
            force == self@.force,
            self@.valid(),
    {
        proof {
            use_type_invariant(self);
        }
        self.force
    }

    /// Sets the wind to the given strength, held inside its range; the wind
    /// stays horizontal.
    pub fn set_strength(&mut self, strength: i32)
        ensures
            final(self)@ == (WindView {
                force: Vec2 { x: held(strength as int) as i64, y: 0 },
                elapsed: old(self)@.elapsed,
            }),
            final(self)@.valid(),
    {
        proof {
            use_type_invariant(&*self);
        }
        let kept: i32 = if strength < -WIND_LIMIT {
            -WIND_LIMIT
        } else if strength >= WIND_LIMIT {
            WIND_LIMIT - 1
        } else {
            strength
        };
        self.force = Vec2 { x: kept as i64, y: 0 };
    }

    /// Draws a new wind, uniformly from the range. Whatever is drawn, the
    /// wind is horizontal and inside the range, and the timer is untouched.
    pub fn generate_new_wind(&mut self)
        ensures
            final(self)@.valid(),
            final(self)@.elapsed == old(self)@.elapsed,
    {
        let strength: i32 = random_in_range(-WIND_LIMIT, WIND_LIMIT);
        self.set_strength(strength);
    }

    /// Runs the timer for `dt` microseconds and draws a new wind when it
    /// runs round. The result says whether it did.
    pub fn update_wind(&mut self, dt: u32) -> (drawn: bool)
        ensures
            final(self)@.valid(),
            final(self)@.elapsed == (old(self)@.elapsed + dt) % WIND_PERIOD as int,
            drawn == (old(self)@.elapsed + dt >= WIND_PERIOD),
            !drawn ==> final(self)@.force == old(self)@.force,
    {
        proof {
            use_type_invariant(&*self);
        }
        let total: u64 = self.elapsed + dt as u64;
        if total >= WIND_PERIOD {
            self.elapsed = total % WIND_PERIOD;
            self.generate_new_wind();
            true
        } else {
            self.elapsed = total;
            false
        }
    }

    /// Applies a draw out of a thousand: if it lets the wind change, a new
    /// wind is drawn; otherwise the wind stays as it is. The result says
    /// whether the wind was drawn anew.
    pub fn change_on_roll(&mut self, roll: i32) -> (drawn: bool)
        ensures
            drawn == lets_change(roll as int),
            final(self)@.valid(),
            final(self)@.elapsed == old(self)@.elapsed,
            !drawn ==> final(self)@ == old(self)@,
    {
        proof {
            use_type_invariant(&*self);
        }
        if should_change(roll) {
            self.generate_new_wind();
            true
        } else {
            false
        }
    }

    /// The chance of the pause between turns: in that phase a number out of
    /// a thousand is drawn and applied. In any other phase nothing happens.
    /// The result says whether the wind was drawn anew.
    pub fn change_wind_on_turn_end(&mut self, phase: GamePhase) -> (drawn: bool)
        ensures
            final(self)@.valid(),
            final(self)@.elapsed == old(self)@.elapsed,
            phase != GamePhase::TurnTransition ==> !drawn,
            !drawn ==> final(self)@ == old(self)@,
    {
        proof {
            use_type_invariant(&*self);
        }
        if phase == GamePhase::TurnTransition {
            let roll: i32 = random_in_range(0, 1000);
            self.change_on_roll(roll)
        } else {
            false
        }
    }
}

/// Whether a draw out of a thousand lets the wind change.
pub fn should_change(roll: i32) -> (change: bool)
    ensures
        change == lets_change(roll as int),
{
    roll < WIND_CHANCE
}

} // verus!
