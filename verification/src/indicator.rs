use vstd::prelude::*;

use crate::beam::PlayerLightInventory;
use crate::color::LightColor;

verus! {

/// How long Lyra must keep moving, or keep still, before her shard indicators change formation.
pub const LYRA_SHARD_MOVING_DELAY_NANOS: u64 = 250_000_000;

/// The formation of the shard indicators around Lyra.
#[derive(Clone, Copy, Debug, PartialEq, Eq, Structural)]
pub enum ShardMovementState {
    /// The indicators trail behind Lyra in a chain.
    Moving,
    /// The indicators orbit around Lyra.
    Stationary,
}

/// The formation of the shard indicators, and a one-shot timer, in nanoseconds, that delays a
/// change of formation.
#[derive(Clone, Copy, Debug)]
pub struct ShardMovingState {
    pub elapsed: u64,
    pub state: ShardMovementState,
}

/// Whether Lyra's motion asks the formation to change.
pub open spec fn wants_change(state: ShardMovementState, is_moving: bool) -> bool {
    (is_moving && state == ShardMovementState::Stationary) || (!is_moving && state
        == ShardMovementState::Moving)
}

/// The other formation.
pub open spec fn flipped(state: ShardMovementState) -> ShardMovementState {
    match state {
        ShardMovementState::Moving => ShardMovementState::Stationary,
        ShardMovementState::Stationary => ShardMovementState::Moving,
    }
}

impl ShardMovingState {
    /// The timer never holds a finished delay: it is reset as soon as it finishes.
    pub open spec fn wf(self) -> bool {
        self.elapsed < LYRA_SHARD_MOVING_DELAY_NANOS
    }

    /// Indicators start out orbiting, with the timer at zero.
    pub fn new() -> (s: ShardMovingState)
        ensures
            s.wf(),
            s.elapsed == 0,
            s.state == ShardMovementState::Stationary,
    {
        ShardMovingState { elapsed: 0, state: ShardMovementState::Stationary }
    }

    /// Advances the formation by one tick of `delta` nanoseconds. While Lyra's motion disagrees
    /// with the formation the timer runs, and when it reaches the delay the formation flips and
    /// the timer restarts; while they agree the timer is held at zero.
    pub fn tick(&mut self, is_moving: bool, delta: u64)
        requires
            old(self).wf(),
        ensures
            final(self).wf(),
            wants_change(old(self).state, is_moving) && old(self).elapsed + delta
                >= LYRA_SHARD_MOVING_DELAY_NANOS ==> final(self).state == flipped(old(self).state)
                && final(self).elapsed == 0,
            wants_change(old(self).state, is_moving) && old(self).elapsed + delta
                < LYRA_SHARD_MOVING_DELAY_NANOS ==> final(self).state == old(self).state
                && final(self).elapsed == old(self).elapsed + delta,
            !wants_change(old(self).state, is_moving) ==> final(self).state == old(self).state
                && final(self).elapsed == 0,
    {
        let change = match (is_moving, self.state) {
            (true, ShardMovementState::Stationary) => true,
            (false, ShardMovementState::Moving) => true,
            _ => false,
        };
        if change {
            if delta >= LYRA_SHARD_MOVING_DELAY_NANOS - self.elapsed {
                self.state = match self.state {
                    ShardMovementState::Moving => ShardMovementState::Stationary,
                    ShardMovementState::Stationary => ShardMovementState::Moving,
                };
                self.elapsed = 0;
            } else {
                self.elapsed = self.elapsed + delta;
            }
        } else {
            self.elapsed = 0;
        }
    }
}

/// What the game knows of one shard indicator before placing it.
#[derive(Clone, Copy, Debug, PartialEq, Eq, Structural)]
pub struct IndicatorState {
    pub color: LightColor,
    /// The indicator is currently a child of Lyra.
    pub was_childed: bool,
    /// The indicator has a transform to move.
    pub placed: bool,
}

/// Where an indicator heads this tick.
#[derive(Clone, Copy, Debug, PartialEq, Eq, Structural)]
pub enum IndicatorTarget {
    /// Held in Lyra's hand while she shoots its color.
    Held,
    /// Resting at the beam source of its color, which is out in the level.
    AtSource,
    /// Hovering above Lyra's head: its color is selected.
    Hover,
    /// Trailing right behind Lyra, at the head of the chain.
    FollowLyra,
    /// Trailing behind the indicator of this color in the chain.
    Follow(LightColor),
    /// On the orbit around Lyra, in place `slot` of `count` evenly spaced places.
    Orbit { slot: usize, count: usize },
}

/// The placement of one indicator for this tick.
#[derive(Clone, Copy, Debug, PartialEq, Eq, Structural)]
pub struct IndicatorPlan {
    pub color: LightColor,
    /// The indicator becomes visible: its color is unlocked.
    pub show: bool,
    /// The indicator becomes a child of Lyra.
    pub attach: bool,
    /// The indicator stops being a child of Lyra.
    pub detach: bool,
    pub target: IndicatorTarget,
}

/// Where a shooting, spent or selected indicator goes; `None` for one that joins the formation.
pub open spec fn own_placement(inv: PlayerLightInventory, s: IndicatorState) -> Option<
    IndicatorTarget,
> {
    let selected = inv.current_color == Some(s.color);
    if !s.placed {
        None
    } else if selected && inv.spec_can_shoot() {
        Some(IndicatorTarget::Held)
    } else if !inv.spec_can_shoot_color(s.color) {
        Some(IndicatorTarget::AtSource)
    } else if selected {
        Some(IndicatorTarget::Hover)
    } else {
        None
    }
}

/// The indicator becomes a child of Lyra: it is held or hovers, and was not a child yet.
pub open spec fn spec_attach(inv: PlayerLightInventory, s: IndicatorState) -> bool {
    s.placed && !s.was_childed && (own_placement(inv, s) == Some(IndicatorTarget::Held)
        || own_placement(inv, s) == Some(IndicatorTarget::Hover))
}

/// The indicator stops being a child of Lyra: it goes to its source or joins the formation.
pub open spec fn spec_detach(inv: PlayerLightInventory, s: IndicatorState) -> bool {
    s.placed && s.was_childed && (own_placement(inv, s) == Some(IndicatorTarget::AtSource)
        || own_placement(inv, s) is None)
}

/// How many of the first `n` indicators join the formation.
pub open spec fn free_count(inv: PlayerLightInventory, states: Seq<IndicatorState>, n: int) -> nat
    decreases n,
{
    if n <= 0 {
        0
    } else if own_placement(inv, states[n - 1]) is None {
        free_count(inv, states, n - 1) + 1
    } else {
        free_count(inv, states, n - 1)
    }
}

/// The color of the last of the first `n` indicators that joins the formation.
pub open spec fn last_free(inv: PlayerLightInventory, states: Seq<IndicatorState>, n: int) -> Option<
    LightColor,
>
    decreases n,
{
    if n <= 0 {
        None
    } else if own_placement(inv, states[n - 1]) is None {
        Some(states[n - 1].color)
    } else {
        last_free(inv, states, n - 1)
    }
}

/// The target of indicator `i` of `states`.
pub open spec fn spec_target(
    inv: PlayerLightInventory,
    states: Seq<IndicatorState>,
    formation: ShardMovementState,
    i: int,
) -> IndicatorTarget {
    match own_placement(inv, states[i]) {
        Some(t) => t,
        None => match formation {
            ShardMovementState::Moving => match last_free(inv, states, i) {
                None => IndicatorTarget::FollowLyra,
                Some(c) => IndicatorTarget::Follow(c),
            },
            ShardMovementState::Stationary => IndicatorTarget::Orbit {
                slot: free_count(inv, states, i) as usize,
                count: free_count(inv, states, states.len() as int) as usize,
            },
        },
    }
}

/// The plan of indicator `i` of `states`.
pub open spec fn spec_plan(
    inv: PlayerLightInventory,
    states: Seq<IndicatorState>,
    formation: ShardMovementState,
    i: int,
) -> IndicatorPlan {
    IndicatorPlan {
        color: states[i].color,
        show: inv.allowed.at(states[i].color),
        attach: spec_attach(inv, states[i]),
        detach: spec_detach(inv, states[i]),
        target: spec_target(inv, states, formation, i),
    }
}

proof fn lemma_free_count_bound(inv: PlayerLightInventory, states: Seq<IndicatorState>, n: int)
    requires
        0 <= n,
    ensures
        free_count(inv, states, n) <= n,
    decreases n,
{
    if n > 0 {
        lemma_free_count_bound(inv, states, n - 1);
    }
}

/// Where an indicator goes on its own, computed.
fn placement_of(inv: &PlayerLightInventory, s: IndicatorState) -> (t: Option<IndicatorTarget>)
    ensures
        t == own_placement(*inv, s),
{
    let selected = match inv.current_color {
        Some(c) => c == s.color,
        None => false,
    };
    if !s.placed {
        None
    } else if selected && inv.can_shoot() {
        Some(IndicatorTarget::Held)
    } else if !inv.can_shoot_color(s.color) {
        Some(IndicatorTarget::AtSource)
    } else if selected {
        Some(IndicatorTarget::Hover)
    } else {
        None
    }
}

/// Places every shard indicator for this tick, in the order given. An indicator whose color Lyra
/// is shooting is held in her hand; one whose beam is out in the level rests at its source; the
/// selected one hovers above her. The others join the formation: a chain behind Lyra while she
/// moves, an orbit around her while she stands still.
pub fn plan_indicators(
    inv: &PlayerLightInventory,
    states: &Vec<IndicatorState>,
    formation: ShardMovementState,
) -> (plans: Vec<IndicatorPlan>)
    ensures
        plans.len() == states.len(),
        forall|i: int| 0 <= i < states.len() ==> #[trigger] plans@[i] == spec_plan(*inv, states@, formation, i),
{
    let n = states.len();
    let mut total: usize = 0;
    let mut k: usize = 0;
    while k < n
        invariant
            n == states.len(),
            0 <= k <= n,
            total == free_count(*inv, states@, k as int),
        decreases n - k,
    {
        proof {
            lemma_free_count_bound(*inv, states@, k as int);
        }
        if placement_of(inv, states[k]).is_none() {
            total = total + 1;
        }
        k = k + 1;
    }
    let mut plans: Vec<IndicatorPlan> = Vec::new();
    let mut rank: usize = 0;
    let mut prev: Option<LightColor> = None;
    let mut i: usize = 0;
    while i < n
        invariant
            n == states.len(),
            0 <= i <= n,
            total == free_count(*inv, states@, n as int),
            rank == free_count(*inv, states@, i as int),
            prev == last_free(*inv, states@, i as int),
            plans.len() == i,
            forall|j: int| 0 <= j < i ==> #[trigger] plans@[j] == spec_plan(*inv, states@, formation, j),
        decreases n - i,
    {
        proof {
            lemma_free_count_bound(*inv, states@, i as int);
        }
        let s = states[i];
        let own = placement_of(inv, s);
        let target = match own {
            Some(t) => t,
            None => match formation {
                ShardMovementState::Moving => match prev {
                    None => IndicatorTarget::FollowLyra,
                    Some(c) => IndicatorTarget::Follow(c),
                },
                ShardMovementState::Stationary => IndicatorTarget::Orbit { slot: rank, count: total },
            },
        };
        let attach = match own {
            Some(IndicatorTarget::Held) | Some(IndicatorTarget::Hover) => !s.was_childed,
            _ => false,
        };
        let detach = match own {
            Some(IndicatorTarget::AtSource) => s.was_childed,
            None => s.placed && s.was_childed,
            _ => false,
        };
        let plan = IndicatorPlan {
            color: s.color,
            show: inv.allowed.get(s.color),
            attach,
            detach,
            target,
        };
        plans.push(plan);
        if own.is_none() {
            rank = rank + 1;
            prev = Some(s.color);
        }
        i = i + 1;
    }
    plans
}

/// The icon of an indicator of `color` among the four shard icons, if it has one.
pub fn indicator_icon(color: LightColor) -> (i: Option<usize>)
    ensures
        i == match color {
            LightColor::Green => Some(0usize),
            LightColor::Purple => Some(1usize),
            LightColor::White => Some(2usize),
            LightColor::Blue => Some(3usize),
            LightColor::Black => None::<usize>,
        },
{
    match color {
        LightColor::Green => Some(0),
        LightColor::Purple => Some(1),
        LightColor::White => Some(2),
        LightColor::Blue => Some(3),
        LightColor::Black => None,
    }
}

proof fn lemma_free_count_monotone(inv: PlayerLightInventory, states: Seq<IndicatorState>, i: int, j: int)
    requires
        0 <= i <= j,
    ensures
        free_count(inv, states, i) <= free_count(inv, states, j),
    decreases j - i,
{
    if i < j {
        lemma_free_count_monotone(inv, states, i, j - 1);
    }
}

/// While Lyra stands still, the indicators that join the orbit take distinct places on it, each
/// one of the `count` places, so no two overlap.
pub proof fn lemma_orbit_slots_distinct(inv: PlayerLightInventory, states: Seq<IndicatorState>, i: int, j: int)
    requires
        0 <= i < j < states.len(),
        own_placement(inv, states[i]) is None,
        own_placement(inv, states[j]) is None,
        states.len() <= usize::MAX,
    ensures
        spec_target(inv, states, ShardMovementState::Stationary, i) matches IndicatorTarget::Orbit { slot: si, count: ci }
            && spec_target(inv, states, ShardMovementState::Stationary, j) matches IndicatorTarget::Orbit { slot: sj, count: cj }
            && si < sj < cj && ci == cj,
{
    lemma_free_count_monotone(inv, states, i + 1, j);
    lemma_free_count_monotone(inv, states, j + 1, states.len() as int);
    lemma_free_count_bound(inv, states, states.len() as int);
    assert(free_count(inv, states, i + 1) == free_count(inv, states, i) + 1);
    assert(free_count(inv, states, j + 1) == free_count(inv, states, j) + 1);
}

/// Where an indicator appears when the game starts.
#[derive(Clone, Copy, Debug, PartialEq, Eq, Structural)]
pub enum InitialPlacement {
    /// Hidden at the crystal shard of its color, which is still to be found in the level.
    HiddenAtShard,
    /// Beside Lyra, just behind her.
    AtLyra,
}

/// Where the indicator of `color` appears when the game starts: beside Lyra once its color is
/// unlocked, else hidden at the color's shard.
pub fn initial_placement(inv: &PlayerLightInventory, color: LightColor) -> (p: InitialPlacement)
    ensures
        p == (if inv.allowed.at(color) { InitialPlacement::AtLyra } else { InitialPlacement::HiddenAtShard }),
{
    if inv.allowed.get(color) {
        InitialPlacement::AtLyra
    } else {
        InitialPlacement::HiddenAtShard
    }
}

proof fn lemma_last_free_props(inv: PlayerLightInventory, states: Seq<IndicatorState>, n: int)
    requires
        0 <= n <= states.len(),
    ensures
        last_free(inv, states, n) is None <==> forall|j: int| 0 <= j < n ==> #[trigger] own_placement(inv, states[j]) is Some,
        last_free(inv, states, n) matches Some(c) ==> exists|j: int| 0 <= j < n && #[trigger] own_placement(inv, states[j]) is None
            && states[j].color == c
            && forall|k: int| j < k < n ==> #[trigger] own_placement(inv, states[k]) is Some,
    decreases n,
{
    if n > 0 {
        lemma_last_free_props(inv, states, n - 1);
        if own_placement(inv, states[n - 1]) is None {
            assert(own_placement(inv, states[n - 1]) is None);
        } else {
            if last_free(inv, states, n - 1) is None {
                assert forall|j: int| 0 <= j < n implies #[trigger] own_placement(inv, states[j]) is Some by {
                    if j < n - 1 {
                    }
                }
            } else {
                let c = last_free(inv, states, n - 1)->0;
                let j = choose|j: int| 0 <= j < n - 1 && #[trigger] own_placement(inv, states[j]) is None
                    && states[j].color == c
                    && forall|k: int| j < k < n - 1 ==> #[trigger] own_placement(inv, states[k]) is Some;
                assert forall|k: int| j < k < n implies #[trigger] own_placement(inv, states[k]) is Some by {
                    if k < n - 1 {
                    }
                }
            }
        }
    }
}

/// While Lyra moves, an indicator that joins the chain trails the nearest earlier indicator that
/// also joins it, and trails Lyra herself when there is none: indicators that are held, hover or
/// rest at their source are never followed.
pub proof fn lemma_chain_follows_chain(inv: PlayerLightInventory, states: Seq<IndicatorState>, i: int)
    requires
        0 <= i < states.len(),
        own_placement(inv, states[i]) is None,
    ensures
        spec_target(inv, states, ShardMovementState::Moving, i) == IndicatorTarget::FollowLyra
            <==> forall|j: int| 0 <= j < i ==> #[trigger] own_placement(inv, states[j]) is Some,
        spec_target(inv, states, ShardMovementState::Moving, i) matches IndicatorTarget::Follow(c) ==> exists|j: int|
            0 <= j < i && #[trigger] own_placement(inv, states[j]) is None && states[j].color == c
            && forall|k: int| j < k < i ==> #[trigger] own_placement(inv, states[k]) is Some,
        spec_target(inv, states, ShardMovementState::Moving, i) is FollowLyra
            || spec_target(inv, states, ShardMovementState::Moving, i) is Follow,
{
    lemma_last_free_props(inv, states, i);
}

} // verus!
