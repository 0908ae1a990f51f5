//! The turn state machine: phases, the turn timer and the win condition.
//!
//! Every transition is guarded. A request that is not legal in the current
//! phase is ignored, because several systems may ask for the same edge in one
//! tick. `GameOver` is terminal.

use vstd::prelude::*;
use crate::fixed::{count_down, time_left};
use crate::worm::{alive_in_team, lemma_alive_bounded, Worm};

verus! {

/// Length of a turn: thirty seconds, in microseconds.
pub const TURN_TIME: u64 = 30_000_000;

/// Pause between two turns: one second, in microseconds.
pub const TRANSITION_DELAY: u64 = 1_000_000;

/// The phases of a match.
#[derive(Clone, Copy, PartialEq, Eq, Structural, Debug)]
pub enum GamePhase {
    PlayerTurn,
    Aiming,
    Firing,
    ProjectileFlying,
    Explosion,
    TurnTransition,
    GameOver,
}

/// A team and the number of its characters that live.
#[derive(Clone, Copy, PartialEq, Eq, Structural, Debug)]
pub struct Team {
    pub id: u32,
    pub worms_alive: usize,
}

/// The countdown of the current turn, in microseconds.
#[derive(Clone, Copy, PartialEq, Eq, Structural, Debug)]
pub struct TurnTimer {
    pub max_time: u64,
    pub current_time: u64,
    pub is_active: bool,
}

/// The authoritative state of a match.
pub struct GameState {
    current_player: u32,
    game_phase: GamePhase,
    teams: Vec<Team>,
    winner: Option<u32>,
    transition_elapsed: u64,
}

/// The mathematical content of a `GameState`: whose turn it is, the phase,
/// the living characters of each team, the winner and the time spent in the
/// pause between turns.
pub struct GameStateView {
    pub current_player: int,
    pub phase: GamePhase,
    pub alive: Seq<int>,
    pub winner: Option<int>,
    pub transition_elapsed: int,
}

/// Whether the machine has an edge from `from` to `to`.
pub open spec fn legal(from: GamePhase, to: GamePhase) -> bool {
    ||| from == GamePhase::PlayerTurn && to == GamePhase::Aiming
    ||| from == GamePhase::Aiming && to == GamePhase::PlayerTurn
    ||| from == GamePhase::Aiming && to == GamePhase::Firing
    ||| from == GamePhase::Firing && to == GamePhase::ProjectileFlying
    ||| from == GamePhase::ProjectileFlying && to == GamePhase::Explosion
    ||| from == GamePhase::Explosion && to == GamePhase::TurnTransition
    ||| from == GamePhase::PlayerTurn && to == GamePhase::TurnTransition
    ||| from == GamePhase::TurnTransition && to == GamePhase::PlayerTurn
    ||| from != GamePhase::GameOver && to == GamePhase::GameOver
}

/// Whether a phase is one of the two in which the machine rests: a player
/// has the turn, or the match is over.
pub open spec fn settled(phase: GamePhase) -> bool {
    phase == GamePhase::PlayerTurn || phase == GamePhase::GameOver
}

/// The largest number of edges that can be taken from a phase before a
/// settled phase is met.
pub open spec fn steps_to_settle(phase: GamePhase) -> nat {
    match phase {
        GamePhase::PlayerTurn => 0,
        GamePhase::GameOver => 0,
        GamePhase::TurnTransition => 1,
        GamePhase::Explosion => 2,
        GamePhase::ProjectileFlying => 3,
        GamePhase::Firing => 4,
        GamePhase::Aiming => 5,
    }
}

/// Whether each phase of `path` follows from the one before it by an edge.
pub open spec fn is_run(path: Seq<GamePhase>) -> bool {
    forall|i: int| 0 <= i < path.len() - 1 ==> legal(#[trigger] path[i], path[i + 1])
}

/// `phase` after a request for the edge `from -> to`.
pub open spec fn moved(phase: GamePhase, from: GamePhase, to: GamePhase) -> GamePhase {
    if phase == from {
        to
    } else {
        phase
    }
}

/// Whether team `team` is the only one with a living character.
pub open spec fn is_sole_survivor(alive: Seq<int>, team: int) -> bool {
    &&& 0 <= team < alive.len()
    &&& alive[team] > 0
    &&& forall|other: int| 0 <= other < alive.len() && other != team ==> alive[other] <= 0
}

/// The only team with a living character, if there is exactly one such team.
pub open spec fn sole_survivor(alive: Seq<int>) -> Option<int> {
    if exists|team: int| is_sole_survivor(alive, team) {
        Some(choose|team: int| is_sole_survivor(alive, team))
    } else {
        None
    }
}

/// The team `step` places after `current`, going round.
pub open spec fn seat(current: int, step: int, teams: int) -> int {
    (current + step) % teams
}

/// The first team with a living character found from `step` places after
/// `current` on, going round; the plain successor when no team lives.
pub open spec fn next_living(alive: Seq<int>, current: int, step: int) -> int
    decreases alive.len() + 1 - step,
{
    if step > alive.len() || step < 1 {
        seat(current, 1, alive.len() as int)
    } else if alive[seat(current, step, alive.len() as int)] > 0 {
        seat(current, step, alive.len() as int)
    } else {
        next_living(alive, current, step + 1)
    }
}

/// The team whose turn follows that of `current`.
pub open spec fn next_player(alive: Seq<int>, current: int) -> int {
    next_living(alive, current, 1)
}

/// The living characters of each of `teams` teams among `worms`.
pub open spec fn census(worms: Seq<Worm>, teams: nat) -> Seq<int> {
    Seq::new(teams, |team: int| alive_in_team(worms, team) as int)
}

impl GameStateView {
    /// What every state of a match satisfies.
    pub open spec fn valid(self) -> bool {
        &&& self.alive.len() >= 1
        &&& 0 <= self.current_player < self.alive.len()
        &&& self.winner matches Some(team) ==> 0 <= team < self.alive.len()
        &&& self.winner.is_some() <==> self.phase == GamePhase::GameOver
        &&& 0 <= self.transition_elapsed
    }

    /// Whether the player may move, aim or fire.
    pub open spec fn can_act(self) -> bool {
        self.phase == GamePhase::PlayerTurn || self.phase == GamePhase::Aiming
    }

    /// The state after a request for the edge `from -> to`.
    pub open spec fn request(self, from: GamePhase, to: GamePhase) -> GameStateView {
        GameStateView { phase: moved(self.phase, from, to), ..self }
    }

    /// The state after the win condition is evaluated on `worms`: the teams
    /// are counted anew, and if exactly one has a living character it wins.
    pub open spec fn win_checked(self, worms: Seq<Worm>) -> GameStateView {
        if self.phase == GamePhase::GameOver {
            self
        } else {
            let alive = census(worms, self.alive.len());
            match sole_survivor(alive) {
                Some(team) => GameStateView {
                    alive,
                    winner: Some(team),
                    phase: GamePhase::GameOver,
                    ..self
                },
                None => GameStateView { alive, ..self },
            }
        }
    }

    /// The state after the turn has ended, by the timer, by the player or by
    /// a resolved explosion: the win condition is evaluated, and unless the
    /// match is over the pause between turns begins and the turn passes on.
    pub open spec fn turn_ended(self, worms: Seq<Worm>) -> GameStateView {
        if self.phase == GamePhase::PlayerTurn || self.phase == GamePhase::Explosion {
            let checked = self.win_checked(worms);
            if checked.phase == GamePhase::GameOver {
                checked
            } else {
                GameStateView {
                    phase: GamePhase::TurnTransition,
                    current_player: next_player(checked.alive, checked.current_player),
                    transition_elapsed: 0,
                    ..checked
                }
            }
        } else {
            self
        }
    }

    /// The state after `dt` microseconds of the pause between turns. The
    /// second value says whether the pause ended and a new turn began.
    pub open spec fn pause_advanced(self, dt: int) -> (GameStateView, bool) {
        if self.phase != GamePhase::TurnTransition {
            (self, false)
        } else if self.transition_elapsed + dt >= TRANSITION_DELAY {
            (GameStateView { phase: GamePhase::PlayerTurn, transition_elapsed: 0, ..self }, true)
        } else {
            (GameStateView { transition_elapsed: self.transition_elapsed + dt, ..self }, false)
        }
    }
}

impl TurnTimer {
    /// Whether the time of the turn is used up.
    pub open spec fn expired(self) -> bool {
        self.current_time == 0
    }

    /// The timer wound up again.
    pub open spec fn rewound(self) -> TurnTimer {
        TurnTimer { current_time: self.max_time, is_active: true, ..self }
    }

    /// The timer after `dt` microseconds in the given phase: it runs only
    /// while it is active and a player has the turn, and stops at zero.
    pub open spec fn ticked(self, phase: GamePhase, dt: int) -> TurnTimer {
        if self.is_active && phase == GamePhase::PlayerTurn {
            TurnTimer { current_time: time_left(self.current_time, dt), ..self }
        } else {
            self
        }
    }

    /// The part of the turn that is left, in thousandths; zero for a timer
    /// without a length.
    pub open spec fn remaining_ratio(self) -> int {
        if self.max_time == 0 {
            0
        } else if self.current_time >= self.max_time {
            1000
        } else {
            self.current_time * 1000 / self.max_time as int
        }
    }

    /// A running timer for turns of `max_time` microseconds.
    pub fn new(max_time: u64) -> (timer: TurnTimer)
        ensures
            timer == (TurnTimer { max_time, current_time: max_time, is_active: true }),
    {
        TurnTimer { max_time, current_time: max_time, is_active: true }
    }

    /// Winds the timer up and lets it run.
    pub fn reset(&mut self)
        ensures
            *final(self) == old(self).rewound(),
    {
        self.current_time = self.max_time;
        self.is_active = true;
    }

    /// Stops the countdown.
    pub fn pause(&mut self)
        ensures
            *final(self) == (TurnTimer { is_active: false, ..*old(self) }),
    {
        self.is_active = false;
    }

    /// Lets the countdown run again.
    pub fn resume(&mut self)
        ensures
            *final(self) == (TurnTimer { is_active: true, ..*old(self) }),
    {
        self.is_active = true;
    }

    /// Whether the time of the turn is used up.
    pub fn is_expired(&self) -> (expired: bool)
        ensures
            expired == self.expired(),
    {
        self.current_time == 0
    }

    /// The part of the turn that is left, in thousandths.
    pub fn time_remaining_ratio(&self) -> (ratio: u64)
        ensures
            ratio == self.remaining_ratio(),
            ratio <= 1000,
    {
        if self.max_time == 0 {
            0
        } else if self.current_time >= self.max_time {
            1000
        } else {
            let scaled: u128 = self.current_time as u128 * 1000 / self.max_time as u128;
            assert(scaled < 1000) by (nonlinear_arith)
                requires
                    scaled == self.current_time * 1000 / self.max_time as int,
                    0 <= self.current_time < self.max_time,
            ;
            scaled as u64
        }
    }

    /// Counts `dt` microseconds down while a player has the turn.
    pub fn tick(&mut self, phase: GamePhase, dt: u32)
        ensures
            *final(self) == old(self).ticked(phase, dt as int),
    {
        if self.is_active && phase == GamePhase::PlayerTurn {
            self.current_time = count_down(self.current_time, dt);
        }
    }
}

impl View for GameState {
    type V = GameStateView;

    closed spec fn view(&self) -> GameStateView {
        GameStateView {
            current_player: self.current_player as int,
            phase: self.game_phase,
            alive: Seq::new(self.teams@.len(), |i: int| self.teams@[i].worms_alive as int),
            winner: match self.winner {
                Some(team) => Some(team as int),
                None => None,
            },
            transition_elapsed: self.transition_elapsed as int,
        }
    }
}

/// The counts of a census as mathematical integers.
pub open spec fn as_ints(counts: Seq<usize>) -> Seq<int> {
    Seq::new(counts.len(), |i: int| counts[i] as int)
}

/// The turn timer and the state after the turn-end rule was applied: when a
/// player has the turn and its time is used up or the player asks for it,
/// the turn ends, and unless the match is over the timer is wound up.
pub open spec fn turn_end_applied(
    state: GameStateView,
    timer: TurnTimer,
    end_requested: bool,
    worms: Seq<Worm>,
) -> (GameStateView, TurnTimer) {
    if (timer.expired() || end_requested) && state.phase == GamePhase::PlayerTurn {
        let ended = state.turn_ended(worms);
        (
            ended,
            if ended.phase == GamePhase::GameOver {
                timer
            } else {
                timer.rewound()
            },
        )
    } else {
        (state, timer)
    }
}

/// The turn timer and the state after `dt` microseconds of the pause
/// between turns: when the pause ends the timer is wound up.
pub open spec fn transition_applied(state: GameStateView, timer: TurnTimer, dt: int) -> (
    GameStateView,
    TurnTimer,
) {
    let (next, began) = state.pause_advanced(dt);
    (
        next,
        if began {
            timer.rewound()
        } else {
            timer
        },
    )
}

/// One tick of the turn rules, in their fixed order: the timer counts down,
/// the turn-end rule is applied, the pause between turns advances.
pub open spec fn turn_ticked(
    state: GameStateView,
    timer: TurnTimer,
    dt: int,
    end_requested: bool,
    worms: Seq<Worm>,
) -> (GameStateView, TurnTimer) {
    let counted = timer.ticked(state.phase, dt);
    let (ended, wound) = turn_end_applied(state, counted, end_requested, worms);
    transition_applied(ended, wound, dt)
}

impl GameState {
    #[verifier::type_invariant]
    spec fn well_formed(self) -> bool {
        &&& 1 <= self.teams@.len() <= u32::MAX
        &&& forall|i: int| 0 <= i < self.teams@.len() ==> (#[trigger] self.teams@[i]).id == i
        &&& self.current_player < self.teams@.len()
        &&& self.winner matches Some(team) ==> team < self.teams@.len()
        &&& self.winner.is_some() <==> self.game_phase == GamePhase::GameOver
    }

    /// A match of two teams with one character each; team 0 begins.
    pub fn new() -> (state: GameState)
        ensures
            state@ == (GameStateView {
                current_player: 0,
                phase: GamePhase::PlayerTurn,
                alive: seq![1int, 1int],
                winner: None,
                transition_elapsed: 0,
            }),
            state@.valid(),
    {
        let state = GameState::with_teams(2, 1);
        proof {
            assert(state@.alive =~= seq![1int, 1int]);
        }
        state
    }

    /// A match of `count` teams with `worms_each` characters each; team 0
    /// begins.
    pub fn with_teams(count: u32, worms_each: usize) -> (state: GameState)
        requires
            count >= 1,
        ensures
            state@ == (GameStateView {
                current_player: 0,
                phase: GamePhase::PlayerTurn,
                alive: Seq::new(count as nat, |i: int| worms_each as int),
                winner: None,
                transition_elapsed: 0,
            }),
            state@.valid(),
    {
        let mut teams: Vec<Team> = Vec::new();
        let mut id: u32 = 0;
        while id < count
            invariant
                id <= count,
                teams@.len() == id,
                forall|i: int|
                    0 <= i < teams@.len() ==> (#[trigger] teams@[i]).id == i && teams@[i].worms_alive
                        == worms_each,
            decreases count - id,
        {
            teams.push(Team { id, worms_alive: worms_each });
            id += 1;
        }
        let state = GameState {
            current_player: 0,
            game_phase: GamePhase::PlayerTurn,
            teams,
            winner: None,
            transition_elapsed: 0,
        };
        proof {
            assert(state@.alive =~= Seq::new(count as nat, |i: int| worms_each as int));
        }
        state
    }

    /// The team whose turn it is.
    pub fn current_player(&self) -> (player: u32)
        ensures
            player == self@.current_player,
            self@.valid(),
    {
        proof {
            use_type_invariant(self);
        }
        self.current_player
    }

    /// The current phase.
    pub fn game_phase(&self) -> (phase: GamePhase)
        ensures
            phase == self@.phase,
            self@.valid(),
    {
        proof {
            use_type_invariant(self);
        }
        self.game_phase
    }

    /// The winner, once the match is over.
    pub fn winner(&self) -> (winner: Option<u32>)
        ensures
            match winner {
                Some(team) => self@.winner == Some(team as int),
                None => self@.winner.is_none(),
            },
            self@.valid(),
    {
        proof {
            use_type_invariant(self);
        }
        self.winner
    }

    /// Number of teams.
    pub fn team_count(&self) -> (count: usize)
        ensures
            count == self@.alive.len(),
            count >= 1,
            self@.valid(),
    {
        proof {
            use_type_invariant(self);
        }
        self.teams.len()
    }

    /// The team with the given number, if the match has one.
    pub fn team(&self, id: u32) -> (team: Option<Team>)
        ensures
            match team {
                Some(t) => id < self@.alive.len() && t.id == id && t.worms_alive
                    == self@.alive[id as int],
                None => id >= self@.alive.len(),
            },
            self@.valid(),
    {
        proof {
            use_type_invariant(self);
        }
        if (id as usize) < self.teams.len() {
            Some(self.teams[id as usize])
        } else {
            None
        }
    }

    /// The team whose turn it is.
    pub fn get_current_team(&self) -> (team: Option<Team>)
        ensures
            team matches Some(t) && t.id == self@.current_player && t.worms_alive
                == self@.alive[self@.current_player],
            self@.valid(),
    {
        proof {
            use_type_invariant(self);
        }
        self.team(self.current_player)
    }

    /// Whether the player may move, aim or fire: a turn or an aim is on.
    pub fn can_player_act(&self) -> (allowed: bool)
        ensures
            allowed == self@.can_act(),
            self@.valid(),
    {
        proof {
            use_type_invariant(self);
        }
        self.game_phase == GamePhase::PlayerTurn || self.game_phase == GamePhase::Aiming
    }

    /// Takes the edge `from -> to` if the machine stands at `from`.
    fn request(&mut self, from: GamePhase, to: GamePhase)
        requires
            from != GamePhase::GameOver,
            to != GamePhase::GameOver,
        ensures
            final(self)@ == old(self)@.request(from, to),
            final(self)@.valid(),
    {
        proof {
            use_type_invariant(&*self);
        }
        if self.game_phase == from {
            self.game_phase = to;
        }
    }

    /// The player begins to aim: `PlayerTurn -> Aiming`.
    pub fn start_aiming(&mut self)
        ensures
            final(self)@ == old(self)@.request(GamePhase::PlayerTurn, GamePhase::Aiming),
            final(self)@.valid(),
    {
        self.request(GamePhase::PlayerTurn, GamePhase::Aiming);
    }

    /// The player gives the aim up: `Aiming -> PlayerTurn`.
    pub fn cancel_aiming(&mut self)
        ensures
            final(self)@ == old(self)@.request(GamePhase::Aiming, GamePhase::PlayerTurn),
            final(self)@.valid(),
    {
        self.request(GamePhase::Aiming, GamePhase::PlayerTurn);
    }

    /// The shot is being charged: `Aiming -> Firing`.
    pub fn start_firing(&mut self)
        ensures
            final(self)@ == old(self)@.request(GamePhase::Aiming, GamePhase::Firing),
            final(self)@.valid(),
    {
        self.request(GamePhase::Aiming, GamePhase::Firing);
    }

    /// A projectile has left: `Firing -> ProjectileFlying`.
    pub fn projectile_launched(&mut self)
        ensures
            final(self)@ == old(self)@.request(GamePhase::Firing, GamePhase::ProjectileFlying),
            final(self)@.valid(),
    {
        self.request(GamePhase::Firing, GamePhase::ProjectileFlying);
    }

    /// A projectile hit or its fuse ran out: `ProjectileFlying -> Explosion`.
    pub fn explosion_started(&mut self)
        ensures
            final(self)@ == old(self)@.request(GamePhase::ProjectileFlying, GamePhase::Explosion),
            final(self)@.valid(),
    {
        self.request(GamePhase::ProjectileFlying, GamePhase::Explosion);
    }

    /// The pause between turns is over: `TurnTransition -> PlayerTurn`.
    pub fn start_new_turn(&mut self)
        ensures
            final(self)@ == old(self)@.request(GamePhase::TurnTransition, GamePhase::PlayerTurn),
            final(self)@.valid(),
    {
        self.request(GamePhase::TurnTransition, GamePhase::PlayerTurn);
    }

    /// Counts the living characters of every team anew. If exactly one team
    /// has any, it wins and the match is over. A match that is over stays as
    /// it is.
    pub fn check_win_condition(&mut self, worms: &Vec<Worm>)
        ensures
            final(self)@ == old(self)@.win_checked(worms@),
            final(self)@.valid(),
            final(self)@.phase == old(self)@.phase || legal(old(self)@.phase, final(self)@.phase),
    {
        proof {
            use_type_invariant(&*self);
        }
        if self.game_phase == GamePhase::GameOver {
            return ;
        }
        let count: usize = self.teams.len();
        let counts: Vec<usize> = count_alive(worms, count);
        let survivor: Option<usize> = find_sole_survivor(&counts);
        let mut teams: Vec<Team> = Vec::new();
        let mut i: usize = 0;
        while i < count
            invariant
                i <= count <= u32::MAX,
                counts@.len() == count,
                teams@.len() == i,
                forall|j: int|
                    0 <= j < i ==> (#[trigger] teams@[j]).id == j && teams@[j].worms_alive
                        == counts@[j],
            decreases count - i,
        {
            teams.push(Team { id: i as u32, worms_alive: counts[i] });
            i += 1;
        }
        let ghost alive = census(worms@, count as nat);
        proof {
            assert(as_ints(counts@) =~= alive);
        }
        match survivor {
            Some(team) => {
                proof {
                    lemma_sole_survivor_unique(alive, team as int);
                }
                *self = GameState {
                    current_player: self.current_player,
                    game_phase: GamePhase::GameOver,
                    teams,
                    winner: Some(team as u32),
                    transition_elapsed: self.transition_elapsed,
                };
            },
            None => {
                self.teams = teams;
            },
        }
        proof {
            assert(self@.alive =~= alive);
        }
    }

    /// Ends the turn, from a player's turn or from a resolved explosion: the
    /// win condition is evaluated, and unless the match is over the pause
    /// between turns begins and the turn passes to the next team that has a
    /// living character. In any other phase the request is ignored.
    pub fn end_turn(&mut self, worms: &Vec<Worm>)
        ensures
            final(self)@ == old(self)@.turn_ended(worms@),
            final(self)@.valid(),
            final(self)@.phase == old(self)@.phase || legal(old(self)@.phase, final(self)@.phase),
    {
        proof {
            use_type_invariant(&*self);
        }
        if !(self.game_phase == GamePhase::PlayerTurn || self.game_phase == GamePhase::Explosion) {
            return ;
        }
        self.check_win_condition(worms);
        proof {
            use_type_invariant(&*self);
        }
        if self.game_phase == GamePhase::GameOver {
            return ;
        }
        let next: u32 = self.following_player();
        *self = GameState {
            current_player: next,
            game_phase: GamePhase::TurnTransition,
            teams: self.teams.clone(),
            winner: None,
            transition_elapsed: 0,
        };
    }

    /// The team whose turn comes after the current one.
    fn following_player(&self) -> (next: u32)
        ensures
            next == next_player(self@.alive, self@.current_player),
            next < self@.alive.len(),
    {
        proof {
            use_type_invariant(self);
            lemma_next_living_in_range(self@.alive, self@.current_player, 1);
        }
        let count: u64 = self.teams.len() as u64;
        let current: u64 = self.current_player as u64;
        let mut step: u64 = 1;
        while step <= count
            invariant
                1 <= step <= count + 1,
                count == self.teams@.len(),
                1 <= count <= u32::MAX,
                current == self.current_player,
                current < count,
                next_living(self@.alive, current as int, step as int) == next_player(
                    self@.alive,
                    current as int,
                ),
            decreases count + 1 - step,
        {
            let candidate: u64 = (current + step) % count;
            if self.teams[candidate as usize].worms_alive > 0 {
                return candidate as u32;
            }
            step += 1;
        }
        ((current + 1) % count) as u32
    }

    /// Advances the pause between turns by `dt` microseconds and says
    /// whether it ended and a new turn began.
    pub fn advance_transition(&mut self, dt: u32) -> (began: bool)
        ensures
            (final(self)@, began) == old(self)@.pause_advanced(dt as int),
            final(self)@.valid(),
            final(self)@.phase == old(self)@.phase || legal(old(self)@.phase, final(self)@.phase),
    {
        proof {
            use_type_invariant(&*self);
        }
        if self.game_phase != GamePhase::TurnTransition {
            return false;
        }
        let elapsed: u128 = self.transition_elapsed as u128 + dt as u128;
        if elapsed >= TRANSITION_DELAY as u128 {
            self.transition_elapsed = 0;
            self.game_phase = GamePhase::PlayerTurn;
            true
        } else {
            self.transition_elapsed = elapsed as u64;
            false
        }
    }
}

/// Counts the living characters of each of `teams` teams. Characters of a
/// team that the match does not have are not counted.
pub fn count_alive(worms: &Vec<Worm>, teams: usize) -> (counts: Vec<usize>)
    ensures
        counts@.len() == teams,
        forall|team: int| 0 <= team < teams ==> counts@[team] == alive_in_team(worms@, team),
{
    let mut counts: Vec<usize> = vec![0usize; teams];
    let mut i: usize = 0;
    assert(worms@.take(0) =~= Seq::<Worm>::empty());
    while i < worms.len()
        invariant
            i <= worms@.len(),
            counts@.len() == teams,
            forall|team: int|
                0 <= team < teams ==> counts@[team] == alive_in_team(worms@.take(i as int), team),
        decreases worms@.len() - i,
    {
        let worm: Worm = worms[i];
        proof {
            assert(worms@.take(i + 1).drop_last() =~= worms@.take(i as int));
            assert(worms@.take(i + 1).last() == worms@[i as int]);
            assert forall|team: int| 0 <= team < teams implies alive_in_team(
                worms@.take(i as int),
                team,
            ) <= i by {
                lemma_alive_bounded(worms@.take(i as int), team);
            }
        }
        if worm.health > 0 && (worm.team as usize) < teams {
            let team: usize = worm.team as usize;
            let so_far: usize = counts[team];
            counts.set(team, so_far + 1);
        }
        i += 1;
    }
    assert(worms@.take(worms@.len() as int) =~= worms@);
    counts
}

/// The only team with a living character, if there is exactly one.
pub fn find_sole_survivor(counts: &Vec<usize>) -> (survivor: Option<usize>)
    ensures
        match survivor {
            Some(team) => is_sole_survivor(as_ints(counts@), team as int),
            None => sole_survivor(as_ints(counts@)).is_none(),
        },
{
    let ghost alive = as_ints(counts@);
    let mut first: usize = 0;
    while first < counts.len() && counts[first] == 0
        invariant
            first <= counts@.len(),
            forall|j: int| 0 <= j < first ==> counts@[j] == 0,
        decreases counts@.len() - first,
    {
        first += 1;
    }
    if first == counts.len() {
        assert forall|team: int| !is_sole_survivor(alive, team) by {
            if 0 <= team < alive.len() {
                assert(alive[team] == counts@[team]);
            }
        }
        return None;
    }
    let mut other: usize = first + 1;
    while other < counts.len()
        invariant
            first < other <= counts@.len(),
            counts@[first as int] > 0,
            alive == as_ints(counts@),
            forall|j: int| 0 <= j < other && j != first ==> counts@[j] == 0,
        decreases counts@.len() - other,
    {
        if counts[other] > 0 {
            assert forall|team: int| !is_sole_survivor(alive, team) by {
                assert(alive[first as int] > 0);
                assert(alive[other as int] > 0);
            }
            return None;
        }
        other += 1;
    }
    assert(is_sole_survivor(alive, first as int));
    Some(first)
}

/// Counts the turn timer down by `dt` microseconds while a player has the
/// turn.
pub fn update_turn_timer(timer: &mut TurnTimer, state: &GameState, dt: u32)
    ensures
        *final(timer) == old(timer).ticked(state@.phase, dt as int),
{
    timer.tick(state.game_phase(), dt);
}

/// Ends the turn when its time is used up or the player asks for it, while
/// a player has the turn; unless that ends the match the timer is wound up.
pub fn handle_turn_end(
    state: &mut GameState,
    timer: &mut TurnTimer,
    end_requested: bool,
    worms: &Vec<Worm>,
)
    ensures
        (final(state)@, *final(timer)) == turn_end_applied(
            old(state)@,
            *old(timer),
            end_requested,
            worms@,
        ),
        final(state)@.valid(),
        final(state)@.phase == old(state)@.phase || legal(old(state)@.phase, final(state)@.phase),
{
    proof {
        use_type_invariant(&*state);
    }
    if (timer.is_expired() || end_requested) && state.game_phase() == GamePhase::PlayerTurn {
        state.end_turn(worms);
        if state.game_phase() != GamePhase::GameOver {
            timer.reset();
        }
    }
}

/// Advances the pause between turns; when it ends, a new turn begins and
/// the timer is wound up.
pub fn handle_turn_transition(state: &mut GameState, timer: &mut TurnTimer, dt: u32)
    ensures
        (final(state)@, *final(timer)) == transition_applied(old(state)@, *old(timer), dt as int),
        final(state)@.valid(),
        final(state)@.phase == old(state)@.phase || legal(old(state)@.phase, final(state)@.phase),
{
    let began: bool = state.advance_transition(dt);
    if began {
        timer.reset();
    }
}

/// One tick of the turn rules in their fixed order: timer, turn end, pause
/// between turns.
pub fn tick_turn(
    state: &mut GameState,
    timer: &mut TurnTimer,
    dt: u32,
    end_requested: bool,
    worms: &Vec<Worm>,
)
    ensures
        (final(state)@, *final(timer)) == turn_ticked(
            old(state)@,
            *old(timer),
            dt as int,
            end_requested,
            worms@,
        ),
        final(state)@.valid(),
{
    update_turn_timer(timer, state, dt);
    handle_turn_end(state, timer, end_requested, worms);
    handle_turn_transition(state, timer, dt);
}

/// From a phase that is not settled, an edge leads to a settled phase or to
/// a phase that is closer to one.
pub proof fn lemma_edge_descends(from: GamePhase, to: GamePhase)
    requires
        legal(from, to),
        !settled(from),
    ensures
        settled(to) || steps_to_settle(to) < steps_to_settle(from),
{
}

/// Whatever edges are taken, a settled phase is met within as many edges as
/// `steps_to_settle` allows the first phase: the machine cannot wander
/// through the other phases for ever.
pub proof fn lemma_run_settles(path: Seq<GamePhase>)
    requires
        is_run(path),
        path.len() > steps_to_settle(path[0]),
    ensures
        exists|i: int| 0 <= i <= steps_to_settle(path[0]) && settled(#[trigger] path[i]),
    decreases steps_to_settle(path[0]),
{
    if settled(path[0]) {
        assert(settled(path[0]));
    } else {
        let rest = path.subrange(1, path.len() as int);
        assert(legal(path[0], path[1]));
        lemma_edge_descends(path[0], path[1]);
        assert(rest[0] == path[1]);
        if settled(path[1]) {
            assert(settled(path[1]));
        } else {
            assert forall|i: int| 0 <= i < rest.len() - 1 implies legal(
                #[trigger] rest[i],
                rest[i + 1],
            ) by {
                assert(rest[i] == path[i + 1]);
                assert(rest[i + 1] == path[i + 2]);
                assert(legal(path[i + 1], path[i + 2]));
            }
            lemma_run_settles(rest);
            let j = choose|j: int| 0 <= j <= steps_to_settle(rest[0]) && settled(#[trigger] rest[j]);
            assert(rest[j] == path[j + 1]);
            assert(settled(path[j + 1]));
        }
    }
}

/// Any six phases in a row, each following from the one before it by an
/// edge, hold a player's turn or the end of the match.
pub proof fn lemma_phase_graph_closed(path: Seq<GamePhase>)
    requires
        is_run(path),
        path.len() >= 6,
    ensures
        exists|i: int| 0 <= i < 6 && settled(#[trigger] path[i]),
{
    lemma_run_settles(path);
    let i = choose|i: int| 0 <= i <= steps_to_settle(path[0]) && settled(#[trigger] path[i]);
    assert(settled(path[i]));
}

/// No edge leaves the end of the match.
pub proof fn lemma_game_over_terminal(to: GamePhase)
    ensures
        !legal(GamePhase::GameOver, to),
{
}

/// At most one team is the sole survivor.
pub proof fn lemma_sole_survivor_unique(alive: Seq<int>, team: int)
    requires
        is_sole_survivor(alive, team),
    ensures
        sole_survivor(alive) == Some(team),
{
    let chosen = choose|t: int| is_sole_survivor(alive, t);
    assert(is_sole_survivor(alive, chosen));
    if chosen != team {
        assert(alive[chosen] <= 0);
    }
}

/// While two teams or more have the turn order, the successor of a player
/// is the next team round the table when that team lives.
pub proof fn lemma_next_player_successor(alive: Seq<int>, current: int)
    requires
        alive.len() >= 1,
        0 <= current < alive.len(),
        alive[(current + 1) % alive.len() as int] > 0,
    ensures
        next_player(alive, current) == (current + 1) % alive.len() as int,
{
}

/// The turn always passes to a team of the match.
pub proof fn lemma_next_living_in_range(alive: Seq<int>, current: int, step: int)
    requires
        alive.len() >= 1,
        0 <= current < alive.len(),
    ensures
        0 <= next_living(alive, current, step) < alive.len(),
    decreases alive.len() + 1 - step,
{
    if step > alive.len() || step < 1 {
    } else if alive[seat(current, step, alive.len() as int)] > 0 {
    } else {
        lemma_next_living_in_range(alive, current, step + 1);
    }
}

/// When a player's turn is on and its time is used up, the next tick passes
/// the turn to the next team round the table, whether or not the player
/// asked for the end of the turn: provided that the match goes on and that
/// team has a living character.
pub proof fn lemma_expired_timer_passes_turn(
    state: GameStateView,
    timer: TurnTimer,
    dt: int,
    end_requested: bool,
    worms: Seq<Worm>,
)
    requires
        state.valid(),
        state.phase == GamePhase::PlayerTurn,
        timer.expired(),
        dt >= 0,
        sole_survivor(census(worms, state.alive.len())).is_none(),
        alive_in_team(worms, (state.current_player + 1) % state.alive.len() as int) > 0,
    ensures
        turn_ticked(state, timer, dt, end_requested, worms).0.current_player == (
        state.current_player + 1) % state.alive.len() as int,
        turn_ticked(state, timer, dt, end_requested, worms).0.phase == if dt >= TRANSITION_DELAY {
            GamePhase::PlayerTurn
        } else {
            GamePhase::TurnTransition
        },
        turn_ticked(state, timer, dt, end_requested, worms).1 == timer.rewound(),
{
    let alive = census(worms, state.alive.len());
    let next = (state.current_player + 1) % state.alive.len() as int;
    assert(alive[next] == alive_in_team(worms, next));
    lemma_next_player_successor(alive, state.current_player);
    assert(timer.ticked(state.phase, dt).expired());
}

/// When the turn ends while exactly one team has a living character, that
/// team wins and the match is over.
pub proof fn lemma_last_team_wins(state: GameStateView, worms: Seq<Worm>, team: int)
    requires
        state.phase == GamePhase::PlayerTurn || state.phase == GamePhase::Explosion,
        0 <= team < state.alive.len(),
        alive_in_team(worms, team) > 0,
        forall|other: int|
            0 <= other < state.alive.len() && other != team ==> alive_in_team(worms, other) == 0,
    ensures
        state.turn_ended(worms).winner == Some(team),
        state.turn_ended(worms).phase == GamePhase::GameOver,
{
    let alive = census(worms, state.alive.len());
    assert(is_sole_survivor(alive, team));
    lemma_sole_survivor_unique(alive, team);
}

/// Once a projectile flies, nothing calls the flight off: the only edges
/// from the flight lead to its explosion or to the end of the match.
pub proof fn lemma_flight_cannot_be_cancelled(to: GamePhase)
    requires
        legal(GamePhase::ProjectileFlying, to),
    ensures
        to == GamePhase::Explosion || to == GamePhase::GameOver,
{
}

} // verus!
