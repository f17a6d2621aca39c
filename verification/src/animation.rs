use vstd::prelude::*;

verus! {

/// The number of frames in Lyra's sprite sheet.
pub const ANIMATION_FRAMES: usize = 29;

/// A sprite sheet animation: frames `first_index..=last_index` played at `fps` frames a second.
#[derive(Clone, Copy, Debug, PartialEq, Eq, Structural)]
pub struct AnimationConfig {
    pub cur_index: usize,
    pub first_index: usize,
    pub last_index: usize,
    pub fps: u8,
    pub repeat: bool,
    /// A non-repeating animation has played its last frame out.
    pub finished: bool,
}

impl AnimationConfig {
    /// The current frame lies within the animation's frames.
    pub open spec fn wf(self) -> bool {
        self.first_index <= self.cur_index <= self.last_index
    }

    /// An animation that starts on its first frame.
    pub fn new(first: usize, last: usize, fps: u8, repeat: bool) -> (c: AnimationConfig)
        requires
            first <= last,
        ensures
            c.wf(),
            c == (AnimationConfig {
                cur_index: first,
                first_index: first,
                last_index: last,
                fps,
                repeat,
                finished: false,
            }),
    {
        AnimationConfig { cur_index: first, first_index: first, last_index: last, fps, repeat, finished: false }
    }

    /// Moves on when the current frame's time is up: to the next frame; from the last frame back
    /// to the first when the animation repeats, else the animation stays on its last frame and is
    /// finished.
    pub fn advance(&mut self)
        requires
            old(self).wf(),
        ensures
            final(self).wf(),
            final(self).first_index == old(self).first_index,
            final(self).last_index == old(self).last_index,
            final(self).fps == old(self).fps,
            final(self).repeat == old(self).repeat,
            old(self).cur_index < old(self).last_index ==> final(self).cur_index == old(self).cur_index + 1
                && final(self).finished == old(self).finished,
            old(self).cur_index == old(self).last_index && old(self).repeat ==> final(self).cur_index
                == old(self).first_index && final(self).finished == old(self).finished,
            old(self).cur_index == old(self).last_index && !old(self).repeat ==> final(self).cur_index
                == old(self).cur_index && final(self).finished,
    {
        if self.cur_index == self.last_index {
            if self.repeat {
                self.cur_index = self.first_index;
            } else {
                self.finished = true;
            }
        } else {
            self.cur_index = self.cur_index + 1;
        }
    }
}

/// Lyra's animations.
#[derive(Clone, Copy, Debug, PartialEq, Eq, Structural)]
pub enum PlayerAnimationType {
    Idle,
    Walk,
    Crouch,
    Jump,
    Fall,
    Land,
}

/// The frames, rate and looping of each of Lyra's animations.
pub open spec fn spec_animation_config(a: PlayerAnimationType) -> AnimationConfig {
    let (first, last, fps, repeat) = match a {
        PlayerAnimationType::Walk => (3usize, 10usize, 12u8, true),
        PlayerAnimationType::Idle => (0usize, 2usize, 6u8, true),
        PlayerAnimationType::Crouch => (11usize, 14usize, 48u8, false),
        PlayerAnimationType::Jump => (15usize, 20usize, 24u8, false),
        PlayerAnimationType::Fall => (21usize, 24usize, 24u8, false),
        PlayerAnimationType::Land => (25usize, 28usize, 18u8, false),
    };
    AnimationConfig { cur_index: first, first_index: first, last_index: last, fps, repeat, finished: false }
}

impl PlayerAnimationType {
    /// The animation of this kind, at its first frame.
    pub fn config(self) -> (c: AnimationConfig)
        ensures
            c == spec_animation_config(self),
            c.wf(),
            c.last_index < ANIMATION_FRAMES,
    {
        match self {
            PlayerAnimationType::Walk => AnimationConfig::new(3, 10, 12, true),
            PlayerAnimationType::Idle => AnimationConfig::new(0, 2, 6, true),
            PlayerAnimationType::Crouch => AnimationConfig::new(11, 14, 48, false),
            PlayerAnimationType::Jump => AnimationConfig::new(15, 20, 24, false),
            PlayerAnimationType::Fall => AnimationConfig::new(21, 24, 24, false),
            PlayerAnimationType::Land => AnimationConfig::new(25, 28, 18, false),
        }
    }
}

impl From<PlayerAnimationType> for AnimationConfig {
    fn from(anim_type: PlayerAnimationType) -> (c: AnimationConfig) {
        anim_type.config()
    }
}

impl vstd::std_specs::convert::FromSpecImpl<PlayerAnimationType> for AnimationConfig {
    open spec fn obeys_from_spec() -> bool {
        true
    }

    open spec fn from_spec(anim_type: PlayerAnimationType) -> AnimationConfig {
        spec_animation_config(anim_type)
    }
}

/// What Lyra's motion this step reads as.
#[derive(Clone, Copy, Debug, PartialEq, Eq, Structural)]
pub struct MotionState {
    pub grounded: bool,
    pub was_grounded: bool,
    /// Moving up.
    pub rising: bool,
    /// Moving sideways faster than a standstill.
    pub walking: bool,
    pub crouched: bool,
}

/// The animation Lyra's motion asks for.
pub open spec fn spec_wanted_animation(m: MotionState) -> PlayerAnimationType {
    if !m.grounded && m.rising {
        PlayerAnimationType::Jump
    } else if !m.grounded {
        PlayerAnimationType::Fall
    } else if !m.was_grounded {
        PlayerAnimationType::Land
    } else if m.walking {
        PlayerAnimationType::Walk
    } else if m.crouched {
        PlayerAnimationType::Crouch
    } else {
        PlayerAnimationType::Idle
    }
}

/// Switches Lyra's animation to the one her motion asks for, except that a landing animation
/// plays out before it is replaced. A switch restarts the new animation at its first frame.
pub fn set_animation(animation: &mut PlayerAnimationType, config: &mut AnimationConfig, m: MotionState)
    ensures
        ({
            let wanted = spec_wanted_animation(m);
            let switch = wanted != *old(animation) && (*old(animation) != PlayerAnimationType::Land
                || old(config).finished);
            &&& *final(animation) == if switch { wanted } else { *old(animation) }
            &&& *final(config) == if switch { spec_animation_config(wanted) } else { *old(config) }
        }),
{
    let wanted = if !m.grounded && m.rising {
        PlayerAnimationType::Jump
    } else if !m.grounded {
        PlayerAnimationType::Fall
    } else if !m.was_grounded {
        PlayerAnimationType::Land
    } else if m.walking {
        PlayerAnimationType::Walk
    } else if m.crouched {
        PlayerAnimationType::Crouch
    } else {
        PlayerAnimationType::Idle
    };
    if wanted != *animation {
        let cancel = *animation != PlayerAnimationType::Land || config.finished;
        if cancel {
            *animation = wanted;
            *config = AnimationConfig::from(wanted);
        }
    }
}

/// Lyra's wanted animation follows her motion: in the air she jumps while rising and falls
/// otherwise; on touching down she lands; on the ground she walks whenever she moves sideways,
/// crouched or not, crouches only while still and crouched, and idles only while still and
/// standing.
pub proof fn lemma_wanted_animation(m: MotionState)
    ensures
        !m.grounded && m.rising ==> spec_wanted_animation(m) == PlayerAnimationType::Jump,
        !m.grounded && !m.rising ==> spec_wanted_animation(m) == PlayerAnimationType::Fall,
        m.grounded && !m.was_grounded ==> spec_wanted_animation(m) == PlayerAnimationType::Land,
        m.grounded && m.was_grounded && m.walking ==> spec_wanted_animation(m) == PlayerAnimationType::Walk,
        spec_wanted_animation(m) == PlayerAnimationType::Crouch ==> m.grounded && m.was_grounded && !m.walking
            && m.crouched,
        m.grounded && m.was_grounded && !m.walking && m.crouched ==> spec_wanted_animation(m)
            == PlayerAnimationType::Crouch,
        spec_wanted_animation(m) == PlayerAnimationType::Idle <==> m.grounded && m.was_grounded && !m.walking
            && !m.crouched,
{
}

} // verus!
