use vstd::prelude::*;

use crate::animation::AnimationConfig;
use crate::beam::{BeamAction, PlayerLightInventory, PlayerLightProgress};
use crate::color::{ColorMap, LightColor};

verus! {

/// The frames of one shard's animation in the shard sprite sheet.
pub const CRYSTAL_SHARD_FRAMES: usize = 7;

/// The row of a shard's color in the shard sprite sheet.
pub open spec fn spec_shard_row(color: LightColor) -> nat {
    match color {
        LightColor::Blue => 0,
        LightColor::Green => 1,
        LightColor::Purple => 2,
        LightColor::White => 3,
        LightColor::Black => 4,
    }
}

/// The looping animation of a shard of `color`: the seven frames of its row, at six frames a
/// second.
pub fn shard_animation(color: LightColor) -> (c: AnimationConfig)
    ensures
        c.first_index == spec_shard_row(color) * CRYSTAL_SHARD_FRAMES,
        c.last_index == c.first_index + CRYSTAL_SHARD_FRAMES - 1,
        c.cur_index == c.first_index,
        c.fps == 6,
        c.repeat,
        !c.finished,
{
    let row: usize = match color {
        LightColor::Blue => 0,
        LightColor::Green => 1,
        LightColor::Purple => 2,
        LightColor::White => 3,
        LightColor::Black => 4,
    };
    let start = row * CRYSTAL_SHARD_FRAMES;
    AnimationConfig::new(start, start + CRYSTAL_SHARD_FRAMES - 1, 6, true)
}

/// A shard starts hidden when its color is already unlocked.
pub fn shard_starts_hidden(inv: &PlayerLightInventory, color: LightColor) -> (hidden: bool)
    ensures
        hidden == inv.allowed.at(color),
{
    inv.allowed.get(color)
}

/// The shard whose pickup animation is playing, by its entity bits, and its color.
#[derive(Clone, Copy, Debug, PartialEq, Eq, Structural)]
pub struct ShardAnimationRes {
    pub shard: Option<u64>,
    pub color: Option<LightColor>,
}

impl ShardAnimationRes {
    /// No pickup animation is playing.
    pub fn new() -> (r: ShardAnimationRes)
        ensures
            r.shard is None,
            r.color is None,
    {
        ShardAnimationRes { shard: None, color: None }
    }

    /// Starts the pickup animation of a shard; refused while another one plays.
    pub fn start(&mut self, shard: u64, color: LightColor) -> (started: bool)
        ensures
            started == (old(self).shard is None),
            started ==> final(self).shard == Some(shard) && final(self).color == Some(color),
            !started ==> *final(self) == *old(self),
    {
        if self.shard.is_some() {
            return false;
        }
        self.shard = Some(shard);
        self.color = Some(color);
        true
    }

    /// After the pickup text is read: the shard's color is unlocked for the player and in the
    /// save data, and the player switches to it. Gives the shard to hide and the action to send.
    pub fn finish_reading(
        &self,
        inv: &mut PlayerLightInventory,
        progress: &mut PlayerLightProgress,
    ) -> (res: (u64, BeamAction))
        requires
            self.shard is Some,
            self.color is Some,
        ensures
            res.0 == self.shard->0,
            res.1 == BeamAction::SwitchColor(self.color),
            final(inv).allowed.at(self.color->0),
            forall|c: LightColor| c != self.color->0 ==> #[trigger] final(inv).allowed.at(c) == old(inv).allowed.at(c),
            final(inv).collectible == old(inv).collectible,
            final(inv).current_color == old(inv).current_color,
            final(inv).previewing == old(inv).previewing,
            final(inv).snapping == old(inv).snapping,
            final(inv).should_shoot == old(inv).should_shoot,
            final(progress).unlocked.at(self.color->0),
            forall|c: LightColor| c != self.color->0 ==> #[trigger] final(progress).unlocked.at(c) == old(progress).unlocked.at(c),
    {
        let color = match self.color {
            Some(c) => c,
            None => LightColor::Green,
        };
        let shard = match self.shard {
            Some(s) => s,
            None => 0,
        };
        inv.allowed.set(color, true);
        progress.unlocked.set(color, true);
        (shard, BeamAction::SwitchColor(self.color))
    }

    /// The camera is back on the player: the animation is over.
    pub fn finish(&mut self)
        ensures
            final(self).shard is None,
            final(self).color is None,
    {
        self.shard = None;
        self.color = None;
    }
}

/// The colors the player got from a shard in the current level without owning them before; they
/// are taken away again when the player respawns.
#[derive(Clone, Copy, Debug)]
pub struct ShardMods {
    pub temporary: ColorMap<bool>,
}

impl ShardMods {
    /// No temporary color.
    pub fn new() -> (m: ShardMods)
        ensures
            forall|c: LightColor| !#[trigger] m.temporary.at(c),
    {
        ShardMods { temporary: ColorMap::filled(false) }
    }

    /// The player touches a shard of `color`; it is temporary unless the level allows the color.
    pub fn on_pickup(&mut self, color: LightColor, allowed: &ColorMap<bool>)
        ensures
            !allowed.at(color) ==> final(self).temporary.at(color),
            allowed.at(color) ==> final(self).temporary.at(color) == old(self).temporary.at(color),
            forall|c: LightColor| c != color ==> #[trigger] final(self).temporary.at(c) == old(self).temporary.at(c),
    {
        if !allowed.get(color) {
            self.temporary.set(color, true);
        }
    }

    /// On respawn, the temporary colors are no longer allowed in the level.
    pub fn revoke(&self, allowed: &mut ColorMap<bool>)
        ensures
            forall|c: LightColor| #[trigger] final(allowed).at(c) == (old(allowed).at(c) && !self.temporary.at(c)),
    {
        let t = self.temporary;
        if t.green {
            allowed.green = false;
        }
        if t.purple {
            allowed.purple = false;
        }
        if t.white {
            allowed.white = false;
        }
        if t.blue {
            allowed.blue = false;
        }
        if t.black {
            allowed.black = false;
        }
    }

    /// Forgets every temporary color.
    pub fn clear(&mut self)
        ensures
            forall|c: LightColor| !#[trigger] final(self).temporary.at(c),
    {
        self.temporary = ColorMap::filled(false);
    }
}

/// What Lyra says on picking up the shard of each playable color.
pub open spec fn spec_shard_text(color: LightColor) -> Option<Seq<char>> {
    match color {
        LightColor::Green => Some("Oh good, the first piece of the Divine Prism. This should let me shoot a bouncing light beam."@),
        LightColor::Blue => Some("Blue light, formerly known as the light of harmony. Could this one shoot through the active blue crystals above me?"@),
        LightColor::White => Some("A different feeling than before... could this color have a special reflective properties?"@),
        LightColor::Purple => Some("This one's even more powerful... the purple light beam should bounce twice instead of once."@),
        LightColor::Black => None,
    }
}

/// The line Lyra says on picking up a shard of `color`; black has no shard to pick up.
pub fn shard_text(color: LightColor) -> (t: Option<&'static str>)
    ensures
        match t {
            Some(s) => spec_shard_text(color) == Some(s@),
            None => spec_shard_text(color) is None,
        },
{
    match color {
        LightColor::Green => Some("Oh good, the first piece of the Divine Prism. This should let me shoot a bouncing light beam."),
        LightColor::Blue => Some("Blue light, formerly known as the light of harmony. Could this one shoot through the active blue crystals above me?"),
        LightColor::White => Some("A different feeling than before... could this color have a special reflective properties?"),
        LightColor::Purple => Some("This one's even more powerful... the purple light beam should bounce twice instead of once."),
        LightColor::Black => None,
    }
}

} // verus!
