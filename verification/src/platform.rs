use vstd::prelude::*;

use crate::color::chars_equal;
use crate::merge_tile::GridCoords;

verus! {

/// The state of a platform's motion.
#[derive(Clone, Copy, Debug, PartialEq, Eq, Structural)]
pub enum PlatformState {
    Play,
    Pause,
    Stop,
}

/// The direction of a platform's motion along its path.
#[derive(Clone, Copy, Debug, PartialEq, Eq, Structural)]
pub enum PlatformDirection {
    Forward,
    Backward,
}

impl PlatformState {
    /// Reads a state from its name in a level file; any other name reads as `Play`.
    pub fn from_name(name: &str) -> (s: PlatformState)
        ensures
            s == spec_state_named(name@),
    {
        proof {
            reveal_strlit("Play");
            reveal_strlit("Pause");
            reveal_strlit("Stop");
            assert("Play"@.len() == 4 && "Pause"@.len() == 5 && "Stop"@.len() == 4);
            assert("Play"@[0] != "Stop"@[0]);
        }
        if chars_equal(name, "Play") {
            PlatformState::Play
        } else if chars_equal(name, "Pause") {
            PlatformState::Pause
        } else if chars_equal(name, "Stop") {
            PlatformState::Stop
        } else {
            PlatformState::Play
        }
    }
}

/// The state a level file names; any other name reads as `Play`.
pub open spec fn spec_state_named(name: Seq<char>) -> PlatformState {
    if name == "Pause"@ {
        PlatformState::Pause
    } else if name == "Stop"@ {
        PlatformState::Stop
    } else {
        PlatformState::Play
    }
}

impl<'a> From<&'a String> for PlatformState {
    fn from(name: &'a String) -> (s: PlatformState) {
        PlatformState::from_name(name.as_str())
    }
}

impl<'a> vstd::std_specs::convert::FromSpecImpl<&'a String> for PlatformState {
    open spec fn obeys_from_spec() -> bool {
        true
    }

    open spec fn from_spec(name: &'a String) -> PlatformState {
        spec_state_named(name@)
    }
}

/// The state a platform moves to when an event asks for `event`.
///
/// A stopped platform that has already been activated only plays again when it can reactivate.
pub open spec fn next_state(cur: PlatformState, event: PlatformState, can_reactivate: bool, has_activated: bool) -> PlatformState {
    match event {
        PlatformState::Play => match cur {
            PlatformState::Stop => if !can_reactivate && has_activated { PlatformState::Stop } else { PlatformState::Play },
            _ => PlatformState::Play,
        },
        PlatformState::Pause => match cur {
            PlatformState::Stop => PlatformState::Stop,
            _ => PlatformState::Pause,
        },
        PlatformState::Stop => PlatformState::Stop,
    }
}

/// Why a moving platform read from a level cannot be built.
#[derive(Clone, Copy, Debug, PartialEq, Eq, Structural)]
pub enum RouteError {
    /// The path names no point.
    EmptyPath,
    /// A reversing platform's path ends with a curve.
    ReversingPathEndsInCurve,
    /// Two curve points follow each other.
    AdjacentCurves,
}

/// The sign pattern of the direction along a quarter-circle arc: the direction is
/// `(x_sign * sin t, y_sign * cos t)` when `x_from_sin`, else `(x_sign * cos t, y_sign * sin t)`.
#[derive(Clone, Copy, Debug, PartialEq, Eq, Structural)]
pub struct ArcDirection {
    pub x_from_sin: bool,
    pub x_sign: i32,
    pub y_sign: i32,
}

/// The route of a moving platform: its path, the goal it moves toward, and its state.
#[derive(Clone, Debug)]
pub struct PlatformRoute {
    /// The points the platform traverses, starting with its initial position
    pub path: Vec<GridCoords>,
    /// Whether the platform moves along a quarter circle at each point
    pub path_curve_points: Vec<bool>,
    pub initial_state: PlatformState,
    /// The current goal
    pub curr_segment: GridCoords,
    /// The previous goal (used for circular motion)
    pub previous_segment: GridCoords,
    /// The index in `path` of the current goal
    pub curr_segment_index: i32,
    pub curr_state: PlatformState,
    pub curr_direction: PlatformDirection,
    /// The platform moves back along its path after reaching the end
    pub does_reverse: bool,
    /// The platform continues after reaching the end of its path
    pub does_repeat: bool,
    /// The platform can leave a Stop state it has entered before
    pub can_reactivate: bool,
    /// The platform has entered a Stop state
    pub has_activated: bool,
    /// The id events use to address the platform
    pub id: i32,
}

/// Division that rounds toward zero, as integer division does.
pub open spec fn trunc_div(x: int, d: int) -> int {
    if x >= 0 { x / d } else { -((-x) / d) }
}

/// Two curve points follow each other somewhere in `flags`.
pub open spec fn has_adjacent_curves(flags: Seq<bool>) -> bool {
    exists|i: int| 0 <= i < flags.len() - 1 && #[trigger] flags[i] && flags[i + 1]
}

/// The curve flags of a path of `n` given points: all straight when none are given, then one more
/// straight flag in front for the initial position.
pub open spec fn route_curve_flags(flags: Seq<bool>, n: int) -> Seq<bool> {
    if flags.len() == 0 {
        seq![false] + Seq::new(n as nat, |i: int| false)
    } else {
        seq![false] + flags
    }
}

impl PlatformRoute {
    /// Builds the route of a platform at grid cell `grid` of pixel height `height`, from the
    /// points and curve flags of its level entity.
    ///
    /// A route with no point, a reversing route that ends in a curve, or two curve points in a
    /// row cannot be driven, and a level holding one cannot be loaded: each `Err` stands for that
    /// fatal error, and the caller stops the game on it.
    pub fn new(
        points: Vec<GridCoords>,
        curve_flags: Vec<bool>,
        grid: GridCoords,
        height: i32,
        initial_state: PlatformState,
        does_reverse: bool,
        does_repeat: bool,
        can_reactivate: bool,
        id: i32,
    ) -> (res: Result<PlatformRoute, RouteError>)
        requires
            points.len() + 2 < i32::MAX,
            curve_flags.len() + 2 < i32::MAX,
            i32::MIN + 1 <= grid.y + trunc_div(height as int, 8) <= i32::MAX,
        ensures
            ({
                let start = GridCoords { x: grid.x, y: (grid.y + trunc_div(height as int, 8) - 1) as i32 };
                let flags = route_curve_flags(curve_flags@, points.len() as int);
                if points.len() == 0 {
                    res == Err::<PlatformRoute, RouteError>(RouteError::EmptyPath)
                } else if does_reverse && flags[flags.len() - 1] {
                    res == Err::<PlatformRoute, RouteError>(RouteError::ReversingPathEndsInCurve)
                } else if has_adjacent_curves(flags) {
                    res == Err::<PlatformRoute, RouteError>(RouteError::AdjacentCurves)
                } else {
                    res matches Ok(r) && {
                        &&& (curve_flags.len() == 0 || curve_flags.len() >= points.len()) ==> r.route_wf()
                        &&& r.path@ == seq![start] + points@
                        &&& r.path_curve_points@ == flags
                        &&& r.initial_state == initial_state
                        &&& r.curr_segment == points@[0]
                        &&& r.previous_segment == start
                        &&& r.curr_segment_index == 1
                        &&& r.curr_state == initial_state
                        &&& r.curr_direction == PlatformDirection::Forward
                        &&& r.does_reverse == does_reverse
                        &&& r.does_repeat == does_repeat
                        &&& r.can_reactivate == can_reactivate
                        &&& !r.has_activated
                        &&& r.id == id
                    }
                }
            }),
    {
        let n = points.len();
        let mut flags: Vec<bool> = Vec::new();
        flags.push(false);
        if curve_flags.len() == 0 {
            let mut k: usize = 0;
            while k < n
                invariant
                    0 <= k <= n,
                    flags@ == seq![false] + Seq::new(k as nat, |i: int| false),
                decreases n - k,
            {
                flags.push(false);
                proof {
                    assert(flags@ =~= seq![false] + Seq::new((k + 1) as nat, |i: int| false));
                }
                k += 1;
            }
        } else {
            let mut k: usize = 0;
            while k < curve_flags.len()
                invariant
                    0 <= k <= curve_flags.len(),
                    flags@ == seq![false] + curve_flags@.subrange(0, k as int),
                decreases curve_flags.len() - k,
            {
                flags.push(curve_flags[k]);
                proof {
                    assert(flags@ =~= seq![false] + curve_flags@.subrange(0, k + 1));
                }
                k += 1;
            }
            assert(curve_flags@.subrange(0, curve_flags.len() as int) =~= curve_flags@);
        }
        let ghost fl = route_curve_flags(curve_flags@, n as int);
        assert(flags@ =~= fl);
        if n == 0 {
            return Err(RouteError::EmptyPath);
        }
        let start = GridCoords { x: grid.x, y: grid.y + height.checked_div(8).unwrap() - 1 };
        if does_reverse && flags[flags.len() - 1] {
            return Err(RouteError::ReversingPathEndsInCurve);
        }
        let mut last = flags[0];
        let mut k: usize = 1;
        while k < flags.len()
            invariant
                flags@ == fl,
                fl == route_curve_flags(curve_flags@, n as int),
                n == points.len(),
                n > 0,
                !(does_reverse && fl[fl.len() - 1]),
                1 <= k <= flags.len(),
                last == flags@[k - 1],
                forall|i: int| 0 <= i < k - 1 ==> !(#[trigger] flags@[i] && flags@[i + 1]),
            decreases flags.len() - k,
        {
            if last && flags[k] {
                assert(flags@[k - 1] && flags@[(k - 1) + 1]);
                assert(has_adjacent_curves(fl));
                return Err(RouteError::AdjacentCurves);
            }
            last = flags[k];
            k += 1;
        }
        let mut path: Vec<GridCoords> = Vec::new();
        path.push(start);
        let mut k: usize = 0;
        while k < n
            invariant
                n == points.len(),
                0 <= k <= n,
                path@ == seq![start] + points@.subrange(0, k as int),
            decreases n - k,
        {
            path.push(points[k]);
            proof {
                assert(path@ =~= seq![start] + points@.subrange(0, k + 1));
            }
            k += 1;
        }
        assert(points@.subrange(0, n as int) =~= points@);
        Ok(PlatformRoute {
            path,
            path_curve_points: flags,
            initial_state,
            curr_segment: points[0],
            previous_segment: start,
            curr_segment_index: 1,
            curr_state: initial_state,
            curr_direction: PlatformDirection::Forward,
            does_reverse,
            does_repeat,
            can_reactivate,
            has_activated: false,
            id,
        })
    }

    /// Handles an event that sets the state of the platforms with id `event_id` to `event`.
    pub fn on_state_event(&mut self, event_id: i32, event: PlatformState)
        ensures
            old(self).id == event_id ==> final(self).curr_state == next_state(old(self).curr_state, event, old(self).can_reactivate, old(self).has_activated),
            old(self).id != event_id ==> final(self).curr_state == old(self).curr_state,
            final(self).has_activated == (old(self).has_activated || (old(self).id == event_id && event == PlatformState::Stop && old(self).curr_state == PlatformState::Play)),
            final(self).path == old(self).path,
            final(self).path_curve_points == old(self).path_curve_points,
            final(self).curr_segment_index == old(self).curr_segment_index,
            final(self).curr_segment == old(self).curr_segment,
            final(self).previous_segment == old(self).previous_segment,
            final(self).curr_direction == old(self).curr_direction,
            final(self).can_reactivate == old(self).can_reactivate,
            final(self).does_reverse == old(self).does_reverse,
            final(self).does_repeat == old(self).does_repeat,
            final(self).initial_state == old(self).initial_state,
            final(self).id == old(self).id,
            old(self).route_wf() ==> final(self).route_wf(),
    {
        if self.id != event_id {
            return;
        }
        self.curr_state = match event {
            PlatformState::Play => match self.curr_state {
                PlatformState::Play => PlatformState::Play,
                PlatformState::Pause => PlatformState::Play,
                PlatformState::Stop => {
                    if !self.can_reactivate && self.has_activated {
                        PlatformState::Stop
                    } else {
                        PlatformState::Play
                    }
                },
            },
            PlatformState::Pause => match self.curr_state {
                PlatformState::Play => PlatformState::Pause,
                PlatformState::Pause => PlatformState::Pause,
                PlatformState::Stop => PlatformState::Stop,
            },
            PlatformState::Stop => match self.curr_state {
                PlatformState::Play => {
                    self.has_activated = true;
                    PlatformState::Stop
                },
                PlatformState::Pause => PlatformState::Stop,
                PlatformState::Stop => PlatformState::Stop,
            },
        };
    }

    /// Puts the platform back as it was when the level was built: at the start of its path,
    /// moving forward, in its initial state, and not yet activated.
    pub fn reset(&mut self)
        requires
            old(self).path.len() >= 1,
        ensures
            final(self).curr_segment == (if old(self).path.len() == 1 { old(self).path@[0] } else { old(self).path@[1] }),
            final(self).previous_segment == old(self).path@[0],
            final(self).curr_segment_index == 1,
            final(self).curr_state == old(self).initial_state,
            final(self).path == old(self).path,
            final(self).path_curve_points == old(self).path_curve_points,
            final(self).curr_direction == PlatformDirection::Forward,
            !final(self).has_activated,
            final(self).can_reactivate == old(self).can_reactivate,
            final(self).does_reverse == old(self).does_reverse,
            final(self).does_repeat == old(self).does_repeat,
            final(self).initial_state == old(self).initial_state,
            final(self).id == old(self).id,
            old(self).route_wf() ==> final(self).route_wf(),
    {
        self.curr_segment = if self.path.len() == 1 { self.path[0] } else { self.path[1] };
        self.previous_segment = self.path[0];
        self.curr_segment_index = 1;
        self.curr_state = self.initial_state;
        self.curr_direction = PlatformDirection::Forward;
        self.has_activated = false;
    }

    /// The goal is valid and, on a curve, the point after it can be found.
    pub open spec fn can_advance(self) -> bool {
        &&& 2 <= self.path.len() < i32::MAX
        &&& 0 <= self.curr_segment_index < self.path.len()
        &&& self.curr_segment_index < self.path_curve_points.len()
        &&& (self.path_curve_points@[self.curr_segment_index as int] && self.curr_direction == PlatformDirection::Backward ==> self.curr_segment_index >= 1)
    }

    /// A route the platform can keep advancing along: every path index has a curve flag and the
    /// initial position is no curve.
    pub open spec fn route_wf(self) -> bool {
        &&& self.can_advance()
        &&& self.path.len() <= self.path_curve_points.len()
        &&& !self.path_curve_points@[0]
    }

    /// The end of the arc the platform follows when its current goal is a curve point.
    pub fn arc_end(&self) -> (p: GridCoords)
        requires
            self.can_advance(),
            self.path_curve_points@[self.curr_segment_index as int],
        ensures
            p == (match self.curr_direction {
                PlatformDirection::Forward => self.path@[(self.curr_segment_index + 1) % (self.path.len() as int)],
                PlatformDirection::Backward => self.path@[self.curr_segment_index - 1],
            }),
    {
        let len = self.path.len() as i32;
        match self.curr_direction {
            PlatformDirection::Forward => self.path[((self.curr_segment_index + 1) % len) as usize],
            PlatformDirection::Backward => self.path[(self.curr_segment_index - 1) as usize],
        }
    }

    /// The sign pattern of the platform's direction along the arc toward `arc_end`, chosen by
    /// where the goal lies between the previous goal and the arc's end.
    pub fn arc_direction(&self) -> (d: ArcDirection)
        requires
            self.can_advance(),
            self.path_curve_points@[self.curr_segment_index as int],
        ensures
            ({
                let next = match self.curr_direction {
                    PlatformDirection::Forward => self.path@[(self.curr_segment_index + 1) % (self.path.len() as int)],
                    PlatformDirection::Backward => self.path@[self.curr_segment_index - 1],
                };
                let cur = self.curr_segment;
                let prev = self.previous_segment;
                let x_diff = next.x - cur.x;
                let y_diff = cur.y - prev.y;
                let other_y_diff = next.y - cur.y;
                let other_x_diff = cur.x - prev.x;
                d == (if x_diff < 0 {
                    ArcDirection { x_from_sin: true, x_sign: -1i32, y_sign: if y_diff <= 0 { 1 } else { -1i32 } }
                } else if x_diff > 0 {
                    ArcDirection { x_from_sin: true, x_sign: 1, y_sign: if y_diff <= 0 { 1 } else { -1i32 } }
                } else if other_y_diff >= 0 {
                    ArcDirection { x_from_sin: false, x_sign: if other_x_diff >= 0 { 1 } else { -1i32 }, y_sign: -1i32 }
                } else {
                    ArcDirection { x_from_sin: false, x_sign: if other_x_diff >= 0 { 1 } else { -1i32 }, y_sign: 1 }
                })
            }),
    {
        let next = self.arc_end();
        let cur = self.curr_segment;
        let prev = self.previous_segment;
        let x_diff = next.x as i64 - cur.x as i64;
        let y_diff = cur.y as i64 - prev.y as i64;
        let other_y_diff = next.y as i64 - cur.y as i64;
        let other_x_diff = cur.x as i64 - prev.x as i64;
        if x_diff < 0 {
            ArcDirection { x_from_sin: true, x_sign: -1i32, y_sign: if y_diff <= 0 { 1 } else { -1i32 } }
        } else if x_diff > 0 {
            ArcDirection { x_from_sin: true, x_sign: 1, y_sign: if y_diff <= 0 { 1 } else { -1i32 } }
        } else if other_y_diff >= 0 {
            ArcDirection { x_from_sin: false, x_sign: if other_x_diff >= 0 { 1 } else { -1i32 }, y_sign: -1i32 }
        } else {
            ArcDirection { x_from_sin: false, x_sign: if other_x_diff >= 0 { 1 } else { -1i32 }, y_sign: 1 }
        }
    }
    /// The goal index after the platform reaches its current goal, and the platform's direction
    /// and state then: a curve goal is passed through to the arc's end first; at an end of the path
    /// the platform turns back when it reverses, else wraps around, and stops unless it repeats.
    pub open spec fn spec_after_arrival(self) -> (int, PlatformDirection, bool) {
        let len = self.path.len() as int;
        let i0 = self.curr_segment_index as int;
        let on_curve = self.path_curve_points@[i0];
        let i1 = if on_curve {
            match self.curr_direction {
                PlatformDirection::Forward => (i0 + 1) % len,
                PlatformDirection::Backward => i0 - 1,
            }
        } else {
            i0
        };
        match self.curr_direction {
            PlatformDirection::Forward => if i1 == len - 1 {
                if self.does_reverse { (i1 - 1, PlatformDirection::Backward, true) } else { (0, PlatformDirection::Forward, true) }
            } else {
                (i1 + 1, PlatformDirection::Forward, false)
            },
            PlatformDirection::Backward => if i1 == 0 {
                if self.does_reverse { (1, PlatformDirection::Forward, true) } else { (len - 1, PlatformDirection::Backward, true) }
            } else {
                (i1 - 1, PlatformDirection::Backward, false)
            },
        }
    }

    /// Moves the goal on once the platform has reached its current goal. Gives whether the goal
    /// was a curve point, so that the caller restarts its arc timer.
    pub fn advance_goal(&mut self) -> (was_curve: bool)
        requires
            old(self).can_advance(),
        ensures
            ({
                let (i, dir, at_end) = old(self).spec_after_arrival();
                &&& was_curve == old(self).path_curve_points@[old(self).curr_segment_index as int]
                &&& final(self).curr_segment_index == i
                &&& final(self).curr_segment == old(self).path@[i]
                &&& final(self).curr_direction == dir
                &&& final(self).previous_segment == (if was_curve {
                        match old(self).curr_direction {
                            PlatformDirection::Forward => old(self).path@[(old(self).curr_segment_index + 1) % (old(self).path.len() as int)],
                            PlatformDirection::Backward => old(self).path@[old(self).curr_segment_index - 1],
                        }
                    } else {
                        old(self).curr_segment
                    })
                &&& final(self).curr_state == (if at_end && !old(self).does_repeat { PlatformState::Stop } else { old(self).curr_state })
                &&& final(self).has_activated == (old(self).has_activated || (at_end && !old(self).does_repeat))
            }),
            final(self).path == old(self).path,
            final(self).path_curve_points == old(self).path_curve_points,
            final(self).can_reactivate == old(self).can_reactivate,
            final(self).does_reverse == old(self).does_reverse,
            final(self).does_repeat == old(self).does_repeat,
            final(self).initial_state == old(self).initial_state,
            final(self).id == old(self).id,
            old(self).route_wf() ==> final(self).route_wf(),
    {
        let len = self.path.len() as i32;
        self.previous_segment = self.curr_segment;
        let was_curve = self.path_curve_points[self.curr_segment_index as usize];
        if was_curve {
            self.curr_segment = match self.curr_direction {
                PlatformDirection::Forward => {
                    self.curr_segment_index = (self.curr_segment_index + 1) % len;
                    self.path[self.curr_segment_index as usize]
                },
                PlatformDirection::Backward => {
                    self.curr_segment_index -= 1;
                    self.path[self.curr_segment_index as usize]
                },
            };
            self.previous_segment = self.curr_segment;
        }
        let mut at_end = false;
        if self.curr_direction == PlatformDirection::Forward {
            if self.curr_segment_index == len - 1 {
                if self.does_reverse {
                    self.curr_direction = PlatformDirection::Backward;
                    self.curr_segment_index -= 1;
                    self.curr_segment = self.path[self.curr_segment_index as usize];
                } else {
                    self.curr_segment_index = 0;
                    self.curr_segment = self.path[self.curr_segment_index as usize];
                }
                at_end = true;
            } else {
                self.curr_segment_index += 1;
                self.curr_segment = self.path[self.curr_segment_index as usize];
            }
        } else {
            if self.curr_segment_index == 0 {
                if self.does_reverse {
                    self.curr_direction = PlatformDirection::Forward;
                    self.curr_segment_index += 1;
                    self.curr_segment = self.path[self.curr_segment_index as usize];
                } else {
                    self.curr_segment_index = len - 1;
                    self.curr_segment = self.path[self.curr_segment_index as usize];
                }
                at_end = true;
            } else {
                self.curr_segment_index -= 1;
                self.curr_segment = self.path[self.curr_segment_index as usize];
            }
        }
        if at_end && !self.does_repeat {
            self.has_activated = true;
            self.curr_state = PlatformState::Stop;
        }
        was_curve
    }
}

/// A platform that has been stopped after activating, and cannot reactivate, stays stopped
/// whatever state it is asked to take.
pub proof fn lemma_stopped_for_good(event: PlatformState)
    ensures
        next_state(PlatformState::Stop, event, false, true) == PlatformState::Stop,
{
}

/// Asking a platform to stop always stops it, and a stopped platform never pauses.
pub proof fn lemma_stop_wins(cur: PlatformState, can_reactivate: bool, has_activated: bool)
    ensures
        next_state(cur, PlatformState::Stop, can_reactivate, has_activated) == PlatformState::Stop,
        next_state(PlatformState::Stop, PlatformState::Pause, can_reactivate, has_activated) == PlatformState::Stop,
{
}

impl PlatformRoute {
    /// The point the platform is heading for: the arc's end while its goal is a curve point, else
    /// its goal.
    pub fn arrival_target(&self) -> (p: GridCoords)
        requires
            self.can_advance(),
        ensures
            p == (if self.path_curve_points@[self.curr_segment_index as int] {
                match self.curr_direction {
                    PlatformDirection::Forward => self.path@[(self.curr_segment_index + 1) % (self.path.len() as int)],
                    PlatformDirection::Backward => self.path@[self.curr_segment_index - 1],
                }
            } else {
                self.curr_segment
            }),
    {
        if self.path_curve_points[self.curr_segment_index as usize] {
            self.arc_end()
        } else {
            self.curr_segment
        }
    }
}

/// What the probes around the player found, relative to one moving platform.
#[derive(Clone, Copy, Debug, PartialEq, Eq, Structural)]
pub struct PlayerContact {
    /// The body right above the player is this platform.
    pub platform_above: bool,
    /// Some body is right above the player.
    pub anything_above: bool,
    /// The body right below the player is this platform.
    pub platform_below: bool,
    pub anything_left: bool,
    pub anything_right: bool,
    pub grounded: bool,
    /// The platform moves down.
    pub moving_down: bool,
    /// The platform moves up.
    pub moving_up: bool,
    /// The player is beside the platform, within its height, and the platform moves toward them.
    pub alongside: bool,
    /// The platform lies to the right of the player.
    pub platform_to_right: bool,
}

/// How a platform carries the player standing on it.
#[derive(Clone, Copy, Debug, PartialEq, Eq, Structural)]
pub enum Carry {
    /// The player is not on the platform.
    Stay,
    /// The player moves with the platform.
    Full,
    /// Something beside the player: only the platform's vertical motion carries them.
    VerticalOnly,
    /// The platform is not playing: the player is lifted slightly out of it.
    Lift,
}

/// What a moving platform does to the player this step.
#[derive(Clone, Copy, Debug, PartialEq, Eq, Structural)]
pub struct ContactOutcome {
    /// How many crushes ask for a respawn.
    pub respawns: u8,
    pub carry: Carry,
    /// The platform pushes the player sideways.
    pub push: bool,
}

/// Decides how a platform in `state` acts on the player. The player is crushed when the platform
/// comes down on them while they stand, when it carries them up into something, and when it pushes
/// them sideways into something; a playing platform carries the player standing on it and pushes
/// the player beside it.
pub fn player_contact(state: PlatformState, c: PlayerContact) -> (out: ContactOutcome)
    ensures
        out.respawns == (if c.platform_above && c.grounded && c.moving_down { 1int } else { 0int })
            + (if c.platform_below && state == PlatformState::Play && c.moving_up && c.anything_above { 1int } else { 0int })
            + (if c.alongside && state == PlatformState::Play && (if c.platform_to_right { c.anything_right } else { c.anything_left }) { 1int } else { 0int }),
        out.carry == (if !c.platform_below {
            Carry::Stay
        } else if state != PlatformState::Play {
            Carry::Lift
        } else if !c.anything_left && !c.anything_right {
            Carry::Full
        } else {
            Carry::VerticalOnly
        }),
        out.push == (c.alongside && state == PlatformState::Play),
{
    let playing = state == PlatformState::Play;
    let mut respawns: u8 = 0;
    if c.platform_above && c.grounded && c.moving_down {
        respawns = respawns + 1;
    }
    let mut carry = Carry::Stay;
    if c.platform_below {
        if playing {
            if c.moving_up && c.anything_above {
                respawns = respawns + 1;
            }
            carry = if !c.anything_left && !c.anything_right { Carry::Full } else { Carry::VerticalOnly };
        } else {
            carry = Carry::Lift;
        }
    }
    let mut push = false;
    if c.alongside && playing {
        let blocked = if c.platform_to_right { c.anything_right } else { c.anything_left };
        if blocked {
            respawns = respawns + 1;
        }
        push = true;
    }
    ContactOutcome { respawns, carry, push }
}

/// A Play event makes a platform play from any state, except that a stopped platform which has
/// activated and cannot reactivate stays stopped; in particular a paused platform always resumes.
pub proof fn lemma_play_resumes(cur: PlatformState, can_reactivate: bool, has_activated: bool)
    ensures
        next_state(cur, PlatformState::Play, can_reactivate, has_activated) == PlatformState::Play
            || next_state(cur, PlatformState::Play, can_reactivate, has_activated) == PlatformState::Stop,
        next_state(cur, PlatformState::Play, can_reactivate, has_activated) == PlatformState::Stop
            <==> (cur == PlatformState::Stop && !can_reactivate && has_activated),
        next_state(PlatformState::Pause, PlatformState::Play, can_reactivate, has_activated) == PlatformState::Play,
        next_state(PlatformState::Play, PlatformState::Play, can_reactivate, has_activated) == PlatformState::Play,
{
}

/// A Pause event pauses a platform that is playing or paused, and leaves a stopped one stopped.
pub proof fn lemma_pause_holds(cur: PlatformState, can_reactivate: bool, has_activated: bool)
    ensures
        cur != PlatformState::Stop ==> next_state(cur, PlatformState::Pause, can_reactivate, has_activated) == PlatformState::Pause,
        cur == PlatformState::Stop ==> next_state(cur, PlatformState::Pause, can_reactivate, has_activated) == PlatformState::Stop,
{
}

} // verus!
