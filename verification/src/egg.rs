use vstd::prelude::*;

verus! {

/// The number of chime sounds the egg can play.
pub const EGG_SOUNDS: usize = 3;

/// A random index below `n`, from the thread-local generator of `rand::random_range`, which
/// samples uniformly from the range `0..n` and panics only on an empty range. The contract claims
/// only that the index lies in the range; which index comes back is left to chance.
#[verifier::external_body]
fn random_index_below(n: usize) -> (r: usize)
    requires
        n > 0,
    ensures
        r < n,
{
    rand::random_range(0..n)
}

/// The hidden egg of a level, which chimes when the player first touches it.
#[derive(Clone, Copy, Debug, PartialEq, Eq, Structural)]
pub struct EggChime {
    /// The player touched the egg on the previous step.
    pub was_intersecting: bool,
}

impl EggChime {
    /// An egg the player is not touching.
    pub fn new() -> (e: EggChime)
        ensures
            !e.was_intersecting,
    {
        EggChime { was_intersecting: false }
    }

    /// Records whether the player touches the egg this step. When the player starts touching it,
    /// gives the chime to play: sound `roll` of the egg's sounds.
    pub fn contact(&mut self, intersecting: bool, roll: usize) -> (sound: Option<usize>)
        ensures
            final(self).was_intersecting == intersecting,
            sound == (if intersecting && !old(self).was_intersecting { Some(roll) } else { None }),
    {
        let starts = intersecting && !self.was_intersecting;
        self.was_intersecting = intersecting;
        if starts {
            Some(roll)
        } else {
            None
        }
    }

    /// Records whether the player touches the egg this step; when the player starts touching it,
    /// a chime picked at random among the egg's sounds plays, and its index comes back.
    pub fn on_egg(&mut self, intersecting: bool) -> (sound: Option<usize>)
        ensures
            final(self).was_intersecting == intersecting,
            sound is Some <==> intersecting && !old(self).was_intersecting,
            sound matches Some(i) ==> i < EGG_SOUNDS,
    {
        let roll = if intersecting && !self.was_intersecting {
            random_index_below(EGG_SOUNDS)
        } else {
            0
        };
        self.contact(intersecting, roll)
    }
}

} // verus!
