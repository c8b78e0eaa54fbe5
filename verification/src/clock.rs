//! The turn clock: a turn is resolved when every team has submitted, or
//! when the time allowed for a turn has passed, whichever comes first.

use vstd::prelude::*;
use crate::lobby::ServerState;
use crate::queue::PlayerMoves;

verus! {

/// The time allowed for a turn, in milliseconds.
pub const TURN_DURATION_MS: u64 = 60_000;

/// A repeating timer that counts milliseconds.
#[derive(Clone, Copy, Debug, PartialEq, Eq, Structural, Hash)]
pub struct TurnTimer {
    pub elapsed_ms: u64,
    pub duration_ms: u64,
}

impl TurnTimer {
    /// The period is not empty and the time counted is within it.
    pub open spec fn wf(self) -> bool {
        self.duration_ms > 0 && self.elapsed_ms < self.duration_ms
    }

    /// Whether a tick of `delta_ms` completes the period at least once.
    pub open spec fn spec_finishes(self, delta_ms: u64) -> bool {
        self.elapsed_ms + delta_ms >= self.duration_ms
    }

    /// The timer after a tick of `delta_ms`: the time counted wraps around
    /// at the end of each period.
    pub open spec fn spec_ticked(self, delta_ms: u64) -> TurnTimer {
        TurnTimer {
            elapsed_ms: ((self.elapsed_ms + delta_ms) % (self.duration_ms as int)) as u64,
            ..self
        }
    }

    /// The timer with nothing counted.
    pub open spec fn spec_reset(self) -> TurnTimer {
        TurnTimer { elapsed_ms: 0, ..self }
    }

    /// A timer for the time allowed for a turn, with nothing counted.
    pub fn new() -> (timer: TurnTimer)
        ensures
            timer == (TurnTimer { elapsed_ms: 0, duration_ms: TURN_DURATION_MS }),
            timer.wf(),
    {
        TurnTimer { elapsed_ms: 0, duration_ms: TURN_DURATION_MS }
    }

    /// A timer for a period of `duration_ms`; none for an empty period.
    pub fn with_duration(duration_ms: u64) -> (timer: Option<TurnTimer>)
        ensures
            timer == (if duration_ms > 0 {
                Some(TurnTimer { elapsed_ms: 0, duration_ms })
            } else {
                None
            }),
            timer matches Some(t) ==> t.wf(),
    {
        if duration_ms > 0 {
            Some(TurnTimer { elapsed_ms: 0, duration_ms })
        } else {
            None
        }
    }

    /// Counts `delta_ms` more; says whether the period was completed.
    pub fn tick(&mut self, delta_ms: u64) -> (finished: bool)
        requires
            old(self).wf(),
        ensures
            finished == old(self).spec_finishes(delta_ms),
            *final(self) == old(self).spec_ticked(delta_ms),
            final(self).wf(),
    {
        let total: u128 = self.elapsed_ms as u128 + delta_ms as u128;
        let period: u128 = self.duration_ms as u128;
        let rest: u128 = total % period;
        self.elapsed_ms = rest as u64;
        total >= period
    }

    /// Starts the period anew.
    pub fn reset(&mut self)
        ensures
            *final(self) == old(self).spec_reset(),
            old(self).duration_ms > 0 ==> final(self).wf(),
    {
        self.elapsed_ms = 0;
    }
}

impl Default for TurnTimer {
    fn default() -> (timer: TurnTimer)
        ensures
            timer == (TurnTimer { elapsed_ms: 0, duration_ms: TURN_DURATION_MS }),
    {
        TurnTimer::new()
    }
}

/// Whether the turn is to be resolved now: during the game, when the time
/// allowed has passed with this tick or as many teams have submitted as
/// there are players.
pub open spec fn spec_turn_ready(
    server_state: ServerState,
    timer: TurnTimer,
    delta_ms: u64,
    submitted: nat,
    players: usize,
) -> bool {
    server_state == ServerState::Game && (timer.spec_finishes(delta_ms) || submitted == players)
}

/// The clock after it was sampled: outside the game it stands still; during
/// the game it has counted the tick, and starts anew when every team has
/// submitted.
pub open spec fn spec_clock_after(
    server_state: ServerState,
    timer: TurnTimer,
    delta_ms: u64,
    submitted: nat,
    players: usize,
) -> TurnTimer {
    if server_state != ServerState::Game {
        timer
    } else if submitted == players {
        timer.spec_reset()
    } else {
        timer.spec_ticked(delta_ms)
    }
}

/// Samples the clock once per tick of the server and says whether the turn
/// is to be resolved now.
pub fn check_turn_execute_readiness(
    server_state: ServerState,
    turn_timer: &mut TurnTimer,
    delta_ms: u64,
    player_moves: &PlayerMoves,
    players: usize,
) -> (ready: bool)
    requires
        old(turn_timer).wf(),
    ensures
        ready == spec_turn_ready(
            server_state,
            *old(turn_timer),
            delta_ms,
            player_moves@.dom().len(),
            players,
        ),
        *final(turn_timer) == spec_clock_after(
            server_state,
            *old(turn_timer),
            delta_ms,
            player_moves@.dom().len(),
            players,
        ),
        final(turn_timer).wf(),
{
    if server_state != ServerState::Game {
        return false;
    }
    let timed_out = turn_timer.tick(delta_ms);
    let all_in = player_moves.all_submitted(players);
    if all_in {
        turn_timer.reset();
    }
    timed_out || all_in
}

} // verus!
