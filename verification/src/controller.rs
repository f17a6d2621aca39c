use vstd::prelude::*;

verus! {

/// The number of fixed steps the player can jump for after pressing the jump key.
pub const SHOULD_JUMP_TICKS: isize = 8;
/// The number of fixed steps the player can jump for after falling off an edge.
pub const COYOTE_TIME_TICKS: isize = 5;
/// The number of fixed steps the player receives upward velocity for.
pub const JUMP_BOOST_TICKS: isize = 2;

/// A movement input of the player. Horizontal moves carry their direction to the caller, which
/// applies the velocity.
#[derive(Clone, Copy, Debug, PartialEq, Eq, Structural)]
pub enum MovementAction {
    Move,
    Jump,
    JumpCut,
    Crouch,
    Stand,
}

/// The jump timers and crouch state of the player.
#[derive(Clone, Copy, Debug, PartialEq, Eq, Structural)]
pub struct MovementInfo {
    pub should_jump_ticks: isize,
    pub coyote_time_ticks: isize,
    pub jump_boost_ticks: isize,
    pub crouched: bool,
}

/// What the input actions of one step ask of the player's velocity.
#[derive(Clone, Copy, Debug, PartialEq, Eq, Structural)]
pub struct ActionOutcome {
    /// A horizontal move was made, so no friction applies this step.
    pub moved: bool,
    /// How many times the upward velocity is cut to a third.
    pub cuts: usize,
}

/// How the player's vertical velocity changes this step.
#[derive(Clone, Copy, Debug, PartialEq, Eq, Structural)]
pub enum VerticalMotion {
    /// Set to the jump velocity.
    JumpBoost,
    /// Nudged up out of the ground the player is sinking into.
    NudgeUp,
    /// Stopped on the ground.
    Rest,
    /// Pulled down by gravity.
    Fall,
}

/// The timers after one input action; `rising` tells whether the player moves up.
pub open spec fn apply_action(m: MovementInfo, a: MovementAction, rising: bool) -> MovementInfo {
    match a {
        MovementAction::Move => m,
        MovementAction::Jump => MovementInfo { should_jump_ticks: SHOULD_JUMP_TICKS, ..m },
        MovementAction::JumpCut => if rising {
            MovementInfo { jump_boost_ticks: 0, should_jump_ticks: 0, ..m }
        } else {
            m
        },
        MovementAction::Crouch => MovementInfo { crouched: true, ..m },
        MovementAction::Stand => MovementInfo { crouched: false, ..m },
    }
}

/// The timers after the first `n` input actions.
pub open spec fn apply_actions(m: MovementInfo, actions: Seq<MovementAction>, rising: bool, n: int) -> MovementInfo
    decreases n,
{
    if n <= 0 {
        m
    } else {
        apply_action(apply_actions(m, actions, rising, n - 1), actions[n - 1], rising)
    }
}

/// How many of the first `n` actions are of kind `a`.
pub open spec fn count_actions(actions: Seq<MovementAction>, a: MovementAction, n: int) -> nat
    decreases n,
{
    if n <= 0 {
        0
    } else if actions[n - 1] == a {
        count_actions(actions, a, n - 1) + 1
    } else {
        count_actions(actions, a, n - 1)
    }
}

proof fn lemma_count_bound(actions: Seq<MovementAction>, a: MovementAction, n: int)
    requires
        0 <= n,
    ensures
        count_actions(actions, a, n) <= n,
    decreases n,
{
    if n > 0 {
        lemma_count_bound(actions, a, n - 1);
    }
}

impl MovementInfo {
    /// A player with no jump pending and standing up.
    pub fn new() -> (m: MovementInfo)
        ensures
            m.should_jump_ticks == 0,
            m.coyote_time_ticks == 0,
            m.jump_boost_ticks == 0,
            !m.crouched,
    {
        MovementInfo { should_jump_ticks: 0, coyote_time_ticks: 0, jump_boost_ticks: 0, crouched: false }
    }

    /// Takes the input actions of a step. On the ground, coyote time is refilled first. A jump
    /// press opens the jump window; releasing jump while moving up ends the jump and cuts the
    /// upward velocity; crouch and stand set the crouch state. When a jump is wanted and coyote
    /// time is left, the jump boost starts.
    pub fn take_actions(&mut self, is_grounded: bool, actions: &Vec<MovementAction>, rising: bool) -> (out: ActionOutcome)
        ensures
            ({
                let start = if is_grounded {
                    MovementInfo { coyote_time_ticks: COYOTE_TIME_TICKS, ..*old(self) }
                } else {
                    *old(self)
                };
                let acted = apply_actions(start, actions@, rising, actions.len() as int);
                *final(self) == if acted.should_jump_ticks > 0 && acted.coyote_time_ticks > 0 {
                    MovementInfo { jump_boost_ticks: JUMP_BOOST_TICKS, ..acted }
                } else {
                    acted
                }
            }),
            out.moved == (count_actions(actions@, MovementAction::Move, actions.len() as int) > 0),
            out.cuts == (if rising { count_actions(actions@, MovementAction::JumpCut, actions.len() as int) } else { 0 }),
    {
        if is_grounded {
            self.coyote_time_ticks = COYOTE_TIME_TICKS;
        }
        let ghost start = *self;
        let mut moved = false;
        let mut moves: usize = 0;
        let mut cuts: usize = 0;
        let mut i: usize = 0;
        while i < actions.len()
            invariant
                0 <= i <= actions.len(),
                *self == apply_actions(start, actions@, rising, i as int),
                moves == count_actions(actions@, MovementAction::Move, i as int),
                moved == (moves > 0),
                cuts == (if rising { count_actions(actions@, MovementAction::JumpCut, i as int) } else { 0 }),
            decreases actions.len() - i,
        {
            proof {
                lemma_count_bound(actions@, MovementAction::Move, i as int);
                lemma_count_bound(actions@, MovementAction::JumpCut, i as int);
            }
            match actions[i] {
                MovementAction::Move => {
                    moved = true;
                    moves = moves + 1;
                },
                MovementAction::Jump => {
                    self.should_jump_ticks = SHOULD_JUMP_TICKS;
                },
                MovementAction::JumpCut => {
                    if rising {
                        self.jump_boost_ticks = 0;
                        self.should_jump_ticks = 0;
                        cuts = cuts + 1;
                    }
                },
                MovementAction::Crouch => {
                    self.crouched = true;
                },
                MovementAction::Stand => {
                    self.crouched = false;
                },
            }
            i = i + 1;
        }
        if self.should_jump_ticks > 0 && self.coyote_time_ticks > 0 {
            self.jump_boost_ticks = JUMP_BOOST_TICKS;
        }
        ActionOutcome { moved, cuts }
    }

    /// Chooses the vertical motion of the step and counts every timer down by one. A running
    /// jump boost wins; otherwise a player sinking into what is just below (`too_close`) with a
    /// low vertical velocity (`slow`) is nudged up, a grounded slow player rests, and any other
    /// falls.
    pub fn finish_step(&mut self, too_close: bool, slow: bool, is_grounded: bool) -> (v: VerticalMotion)
        requires
            old(self).should_jump_ticks > isize::MIN,
            old(self).jump_boost_ticks > isize::MIN,
            old(self).coyote_time_ticks > isize::MIN,
        ensures
            v == (if old(self).jump_boost_ticks > 0 {
                VerticalMotion::JumpBoost
            } else if too_close && slow {
                VerticalMotion::NudgeUp
            } else if is_grounded && slow {
                VerticalMotion::Rest
            } else {
                VerticalMotion::Fall
            }),
            final(self).should_jump_ticks == old(self).should_jump_ticks - 1,
            final(self).jump_boost_ticks == old(self).jump_boost_ticks - 1,
            final(self).coyote_time_ticks == old(self).coyote_time_ticks - 1,
            final(self).crouched == old(self).crouched,
    {
        let v = if self.jump_boost_ticks > 0 {
            VerticalMotion::JumpBoost
        } else if too_close && slow {
            VerticalMotion::NudgeUp
        } else if is_grounded && slow {
            VerticalMotion::Rest
        } else {
            VerticalMotion::Fall
        };
        self.should_jump_ticks = self.should_jump_ticks - 1;
        self.jump_boost_ticks = self.jump_boost_ticks - 1;
        self.coyote_time_ticks = self.coyote_time_ticks - 1;
        v
    }
}

/// The keys that drive the player this frame.
#[derive(Clone, Copy, Debug, PartialEq, Eq, Structural)]
pub struct MovementKeys {
    pub left: bool,
    pub right: bool,
    pub jump_pressed: bool,
    pub jump_released: bool,
    pub crouch_pressed: bool,
    pub crouch_released: bool,
}

/// The horizontal direction the keys ask for: 1 right, -1 left, 0 neither or both.
pub open spec fn key_direction(keys: MovementKeys) -> int {
    (if keys.right { 1int } else { 0int }) - (if keys.left { 1int } else { 0int })
}

/// The movement actions of this frame's keys, in the order the game sends them: a move when a
/// direction is held, then jump, jump cut, crouch and stand for their key edges. The direction
/// of the move comes with them.
pub fn keyboard_actions(keys: MovementKeys) -> (res: (i8, Vec<MovementAction>))
    ensures
        res.0 == key_direction(keys),
        res.1@ == {
            let s0 = if key_direction(keys) != 0 { seq![MovementAction::Move] } else { Seq::empty() };
            let s1 = if keys.jump_pressed { s0.push(MovementAction::Jump) } else { s0 };
            let s2 = if keys.jump_released { s1.push(MovementAction::JumpCut) } else { s1 };
            let s3 = if keys.crouch_pressed { s2.push(MovementAction::Crouch) } else { s2 };
            if keys.crouch_released { s3.push(MovementAction::Stand) } else { s3 }
        },
{
    let direction: i8 = (if keys.right { 1i8 } else { 0i8 }) - (if keys.left { 1i8 } else { 0i8 });
    let mut actions: Vec<MovementAction> = Vec::new();
    if direction != 0 {
        actions.push(MovementAction::Move);
    }
    if keys.jump_pressed {
        actions.push(MovementAction::Jump);
    }
    if keys.jump_released {
        actions.push(MovementAction::JumpCut);
    }
    if keys.crouch_pressed {
        actions.push(MovementAction::Crouch);
    }
    if keys.crouch_released {
        actions.push(MovementAction::Stand);
    }
    (direction, actions)
}

} // verus!
