use vstd::prelude::*;

use crate::beam::PlayerLightInventory;
use crate::color::LightColor;

verus! {

/// How long the player must be stuck before the restart hint shows, in nanoseconds.
pub const PLAYER_STUCK_TOOLTIP_DELAY_NANOS: u64 = 8_000_000_000;

/// The player has some color unlocked but cannot shoot any: every unlocked color's beam is out.
pub open spec fn spec_is_stuck(inv: PlayerLightInventory) -> bool {
    (exists|c: LightColor| #[trigger] inv.allowed.at(c))
        && !(exists|c: LightColor| #[trigger] inv.spec_can_shoot_color(c))
}

/// Whether the player is stuck and may need to restart the level.
pub fn is_stuck(inv: &PlayerLightInventory) -> (b: bool)
    ensures
        b == spec_is_stuck(*inv),
{
    let a = inv.allowed;
    let c = inv.collectible;
    let has_color = a.green || a.purple || a.white || a.blue || a.black;
    let can_shoot = (a.green && c.green.is_none()) || (a.purple && c.purple.is_none()) || (a.white
        && c.white.is_none()) || (a.blue && c.blue.is_none()) || (a.black && c.black.is_none());
    proof {
        if has_color {
            if a.green {
                assert(inv.allowed.at(LightColor::Green));
            } else if a.purple {
                assert(inv.allowed.at(LightColor::Purple));
            } else if a.white {
                assert(inv.allowed.at(LightColor::White));
            } else if a.blue {
                assert(inv.allowed.at(LightColor::Blue));
            } else {
                assert(inv.allowed.at(LightColor::Black));
            }
        } else {
            assert forall|x: LightColor| !#[trigger] inv.allowed.at(x) by {
                match x {
                    LightColor::Green => {},
                    LightColor::Purple => {},
                    LightColor::White => {},
                    LightColor::Blue => {},
                    LightColor::Black => {},
                }
            }
        }
        if can_shoot {
            if a.green && c.green.is_none() {
                assert(inv.spec_can_shoot_color(LightColor::Green));
            } else if a.purple && c.purple.is_none() {
                assert(inv.spec_can_shoot_color(LightColor::Purple));
            } else if a.white && c.white.is_none() {
                assert(inv.spec_can_shoot_color(LightColor::White));
            } else if a.blue && c.blue.is_none() {
                assert(inv.spec_can_shoot_color(LightColor::Blue));
            } else {
                assert(inv.spec_can_shoot_color(LightColor::Black));
            }
        } else {
            assert forall|x: LightColor| !#[trigger] inv.spec_can_shoot_color(x) by {
                match x {
                    LightColor::Green => {},
                    LightColor::Purple => {},
                    LightColor::White => {},
                    LightColor::Blue => {},
                    LightColor::Black => {},
                }
            }
        }
    }
    has_color && !can_shoot
}

/// The one-shot timer, in nanoseconds, after which a stuck player is hinted to restart. It pauses
/// once it has fired, so the hint shows once per level entry.
#[derive(Clone, Copy, Debug, PartialEq, Eq, Structural)]
pub struct HintRestartTimer {
    pub elapsed: u64,
    pub paused: bool,
}

impl HintRestartTimer {
    /// The timer never runs past its delay.
    pub open spec fn wf(self) -> bool {
        self.elapsed <= PLAYER_STUCK_TOOLTIP_DELAY_NANOS
    }

    /// A fresh, running timer.
    pub fn new() -> (t: HintRestartTimer)
        ensures
            t.wf(),
            t.elapsed == 0,
            !t.paused,
    {
        HintRestartTimer { elapsed: 0, paused: false }
    }

    /// Restarts the timer on entering the game.
    pub fn restart(&mut self)
        ensures
            final(self).wf(),
            final(self).elapsed == 0,
            !final(self).paused,
    {
        self.elapsed = 0;
        self.paused = false;
    }

    /// Advances the timer by `delta` nanoseconds while the player is stuck, and resets it (leaving
    /// a paused timer paused) while the player is not. Gives whether the hint shows now: the
    /// running timer just reached its delay, and it pauses.
    pub fn tick(&mut self, stuck: bool, delta: u64) -> (show: bool)
        requires
            old(self).wf(),
        ensures
            final(self).wf(),
            old(self).paused ==> !show && final(self).paused,
            show ==> final(self).paused,
            !stuck ==> !show && final(self).elapsed == 0 && final(self).paused == old(self).paused,
            stuck && (old(self).paused || old(self).elapsed == PLAYER_STUCK_TOOLTIP_DELAY_NANOS)
                ==> !show && *final(self) == *old(self),
            stuck && !old(self).paused && old(self).elapsed < PLAYER_STUCK_TOOLTIP_DELAY_NANOS
                ==> {
                &&& show == (old(self).elapsed + delta >= PLAYER_STUCK_TOOLTIP_DELAY_NANOS)
                &&& final(self).paused == show
                &&& final(self).elapsed == if show {
                    PLAYER_STUCK_TOOLTIP_DELAY_NANOS as int
                } else {
                    old(self).elapsed + delta
                }
            },
    {
        if !stuck {
            self.elapsed = 0;
            return false;
        }
        if self.paused || self.elapsed == PLAYER_STUCK_TOOLTIP_DELAY_NANOS {
            return false;
        }
        if delta >= PLAYER_STUCK_TOOLTIP_DELAY_NANOS - self.elapsed {
            self.elapsed = PLAYER_STUCK_TOOLTIP_DELAY_NANOS;
            self.paused = true;
            true
        } else {
            self.elapsed = self.elapsed + delta;
            false
        }
    }
}

} // verus!
