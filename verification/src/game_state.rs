use vstd::prelude::*;

verus! {

/// The top-level states of the game.
#[derive(Clone, Copy, Debug, PartialEq, Eq, Structural)]
pub enum GameState {
    Playing,
    Paused,
    Animating,
    Ui,
}

/// The state after the pause key: playing and paused swap, other states stay.
pub fn toggle_pause(state: GameState) -> (next: GameState)
    ensures
        next == match state {
            GameState::Paused => GameState::Playing,
            GameState::Playing => GameState::Paused,
            other => other,
        },
{
    match state {
        GameState::Paused => GameState::Playing,
        GameState::Playing => GameState::Paused,
        other => other,
    }
}

/// A player's death starts the death animation only while the game is being played.
pub fn kill_starts_animation(state: GameState) -> (starts: bool)
    ensures
        starts == (state == GameState::Playing),
{
    match state {
        GameState::Playing => true,
        _ => false,
    }
}

/// The speedrun stopwatch, in nanoseconds, and whether it is shown.
#[derive(Clone, Copy, Debug, PartialEq, Eq, Structural)]
pub struct SpeedrunTimer {
    pub enabled: bool,
    pub elapsed: u64,
}

impl SpeedrunTimer {
    /// A hidden stopwatch at zero.
    pub fn new() -> (t: SpeedrunTimer)
        ensures
            !t.enabled,
            t.elapsed == 0,
    {
        SpeedrunTimer { enabled: false, elapsed: 0 }
    }

    /// Runs the stopwatch for `delta` nanoseconds while the game is played.
    pub fn tick(&mut self, state: GameState, delta: u64)
        requires
            old(self).elapsed + delta <= u64::MAX,
        ensures
            final(self).enabled == old(self).enabled,
            final(self).elapsed == if state == GameState::Playing {
                old(self).elapsed + delta
            } else {
                old(self).elapsed as int
            },
    {
        if state == GameState::Playing {
            self.elapsed = self.elapsed + delta;
        }
    }
}

/// The goddess of the first level, whose cutscene plays once per visit.
#[derive(Clone, Copy, Debug, PartialEq, Eq, Structural)]
pub struct Cruciera {
    pub played_cutscene: bool,
}

impl Cruciera {
    /// A goddess whose cutscene has not played.
    pub fn new() -> (c: Cruciera)
        ensures
            !c.played_cutscene,
    {
        Cruciera { played_cutscene: false }
    }

    /// The cutscene starts when Lyra comes near, unless it played already or another animation
    /// runs; it then counts as played.
    pub fn check_start(&mut self, state: GameState, lyra_near: bool) -> (starts: bool)
        ensures
            starts == (state != GameState::Animating && lyra_near && !old(self).played_cutscene),
            final(self).played_cutscene == (old(self).played_cutscene || starts),
    {
        if state == GameState::Animating {
            return false;
        }
        if lyra_near && !self.played_cutscene {
            self.played_cutscene = true;
            return true;
        }
        false
    }

    /// On a level switch the cutscene can play again.
    pub fn reset(&mut self)
        ensures
            !final(self).played_cutscene,
    {
        self.played_cutscene = false;
    }
}

} // verus!
