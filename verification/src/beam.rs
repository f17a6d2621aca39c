use vstd::prelude::*;

use crate::color::{all_colors, color_order, ColorMap, LightColor};

verus! {

/// The colors a player has unlocked, kept in the save file.
#[derive(Clone, Copy, Debug)]
pub struct PlayerLightProgress {
    pub unlocked: ColorMap<bool>,
}

impl PlayerLightProgress {
    /// Progress with no color unlocked.
    pub fn new() -> (p: PlayerLightProgress)
        ensures
            forall|c: LightColor| !#[trigger] p.unlocked.at(c),
    {
        PlayerLightProgress { unlocked: ColorMap::filled(false) }
    }

    /// Unlocks the four playable colors, as the debug configuration asks.
    pub fn unlock_debug_colors(&mut self)
        ensures
            final(self).unlocked.at(LightColor::White),
            final(self).unlocked.at(LightColor::Green),
            final(self).unlocked.at(LightColor::Purple),
            final(self).unlocked.at(LightColor::Blue),
            final(self).unlocked.at(LightColor::Black) == old(self).unlocked.at(LightColor::Black),
    {
        self.unlocked.set(LightColor::White, true);
        self.unlocked.set(LightColor::Green, true);
        self.unlocked.set(LightColor::Purple, true);
        self.unlocked.set(LightColor::Blue, true);
    }
}

/// A light beam the player has shot, which can be collected back.
#[derive(Clone, Copy, Debug, PartialEq, Eq, Structural)]
pub struct LightInventorySource {
    /// The player touches the beam's source.
    pub in_reach: bool,
    /// The beam source entity, by its bits.
    pub entity: u64,
}

/// What the player can do with light beams.
#[derive(Clone, Copy, Debug)]
pub struct PlayerLightInventory {
    pub previewing: bool,
    pub snapping: bool,
    pub should_shoot: bool,
    pub current_color: Option<LightColor>,
    /// Is true if the color is unlocked
    pub allowed: ColorMap<bool>,
    /// The beam of each color that is out in the level
    pub collectible: ColorMap<Option<LightInventorySource>>,
}

impl<'a> From<&'a PlayerLightProgress> for PlayerLightInventory {
    /// An inventory that allows exactly the unlocked colors of `progress`.
    fn from(progress: &'a PlayerLightProgress) -> (inv: PlayerLightInventory) {
        let mut inv = PlayerLightInventory::new();
        inv.allowed = progress.unlocked;
        assert(inv.collectible.at(LightColor::Green) is None);
        assert(inv.collectible.at(LightColor::Purple) is None);
        assert(inv.collectible.at(LightColor::White) is None);
        assert(inv.collectible.at(LightColor::Blue) is None);
        assert(inv.collectible.at(LightColor::Black) is None);
        inv
    }
}

impl<'a> vstd::std_specs::convert::FromSpecImpl<&'a PlayerLightProgress> for PlayerLightInventory {
    open spec fn obeys_from_spec() -> bool {
        true
    }

    open spec fn from_spec(progress: &'a PlayerLightProgress) -> PlayerLightInventory {
        PlayerLightInventory {
            previewing: false,
            snapping: false,
            should_shoot: false,
            current_color: None,
            allowed: progress.unlocked,
            collectible: ColorMap {
                green: None,
                purple: None,
                white: None,
                blue: None,
                black: None,
            },
        }
    }
}

/// An input action on the light beams.
#[derive(Clone, Copy, Debug, PartialEq, Eq, Structural)]
pub enum BeamAction {
    SwitchColor(Option<LightColor>),
    Preview,
    Snap(bool),
    Cancel,
    Shoot,
    Collect,
}

/// What the caller has to do after a beam action.
#[derive(Clone, Debug, PartialEq, Eq)]
pub enum BeamEffect {
    Nothing,
    /// Shoot a beam of this color, then report it with `record_shot`.
    Shoot(LightColor),
    /// Start despawning these beam source entities.
    Despawn(Vec<u64>),
}

/// The entities of the in-reach beam sources among the first `n` colors, in color order.
pub open spec fn in_reach_sources(collectible: ColorMap<Option<LightInventorySource>>, n: int) -> Seq<u64>
    decreases n,
{
    if n <= 0 {
        Seq::empty()
    } else {
        let prev = in_reach_sources(collectible, n - 1);
        match collectible.at(color_order()[n - 1]) {
            Some(s) => if s.in_reach { prev.push(s.entity) } else { prev },
            None => prev,
        }
    }
}

impl PlayerLightInventory {
    pub open spec fn spec_can_shoot_color(self, color: LightColor) -> bool {
        self.allowed.at(color) && self.collectible.at(color) is None
    }

    pub open spec fn spec_can_shoot(self) -> bool {
        self.should_shoot && match self.current_color {
            Some(c) => self.spec_can_shoot_color(c),
            None => false,
        }
    }

    /// An inventory with nothing allowed and nothing shot.
    pub fn new() -> (inv: PlayerLightInventory)
        ensures
            !inv.previewing,
            !inv.snapping,
            !inv.should_shoot,
            inv.current_color is None,
            forall|c: LightColor| !#[trigger] inv.allowed.at(c),
            forall|c: LightColor| #[trigger] inv.collectible.at(c) is None,
    {
        PlayerLightInventory {
            previewing: false,
            snapping: false,
            should_shoot: false,
            current_color: None,
            allowed: ColorMap::filled(false),
            collectible: ColorMap::filled(None),
        }
    }

    /// The color is unlocked and no beam of it is out.
    pub fn can_shoot_color(&self, color: LightColor) -> (b: bool)
        ensures
            b == self.spec_can_shoot_color(color),
    {
        self.allowed.get(color) && self.collectible.get(color).is_none()
    }

    /// A shot is armed and the current color can be shot.
    pub fn can_shoot(&self) -> (b: bool)
        ensures
            b == self.spec_can_shoot(),
    {
        self.should_shoot && match self.current_color {
            Some(c) => self.can_shoot_color(c),
            None => false,
        }
    }

    /// Forgets every beam that is out, as on a level reset.
    pub fn reset(&mut self)
        ensures
            forall|c: LightColor| #[trigger] final(self).collectible.at(c) is None,
            final(self).allowed == old(self).allowed,
            final(self).current_color == old(self).current_color,
            final(self).previewing == old(self).previewing,
            final(self).snapping == old(self).snapping,
            final(self).should_shoot == old(self).should_shoot,
    {
        self.collectible = ColorMap::filled(None);
    }

    /// Marks whether the player touches the source of the beam of `color`.
    pub fn set_in_reach(&mut self, color: LightColor, in_reach: bool)
        requires
            old(self).collectible.at(color) is Some,
        ensures
            final(self).collectible.at(color) == Some(LightInventorySource {
                in_reach,
                entity: old(self).collectible.at(color)->0.entity,
            }),
            forall|d: LightColor| d != color ==> #[trigger] final(self).collectible.at(d) == old(self).collectible.at(d),
            final(self).allowed == old(self).allowed,
            final(self).current_color == old(self).current_color,
            final(self).previewing == old(self).previewing,
            final(self).snapping == old(self).snapping,
            final(self).should_shoot == old(self).should_shoot,
    {
        let source = self.collectible.get(color).unwrap();
        self.collectible.set(color, Some(LightInventorySource { in_reach, entity: source.entity }));
    }

    /// Records that the beam of `color` has finished despawning.
    pub fn clear_source(&mut self, color: LightColor)
        ensures
            final(self).collectible.at(color) is None,
            final(self).spec_can_shoot_color(color) == old(self).allowed.at(color),
            forall|d: LightColor| d != color ==> #[trigger] final(self).collectible.at(d) == old(self).collectible.at(d),
            final(self).allowed == old(self).allowed,
            final(self).current_color == old(self).current_color,
            final(self).previewing == old(self).previewing,
            final(self).snapping == old(self).snapping,
            final(self).should_shoot == old(self).should_shoot,
    {
        self.collectible.set(color, None);
    }

    /// Records the beam source `entity` just shot in the current color.
    pub fn record_shot(&mut self, entity: u64)
        requires
            old(self).spec_can_shoot(),
        ensures
            final(self).collectible.at(old(self).current_color->0) == Some(LightInventorySource { in_reach: false, entity }),
            !final(self).spec_can_shoot_color(old(self).current_color->0),
            forall|d: LightColor| d != old(self).current_color->0 ==> #[trigger] final(self).collectible.at(d) == old(self).collectible.at(d),
            !final(self).should_shoot,
            !final(self).previewing,
            final(self).allowed == old(self).allowed,
            final(self).current_color == old(self).current_color,
            final(self).snapping == old(self).snapping,
    {
        let color = self.current_color.unwrap();
        self.collectible.set(color, Some(LightInventorySource { in_reach: false, entity }));
        self.should_shoot = false;
        self.previewing = false;
    }

    /// Unlocks `color` after its crystal shard was read.
    pub fn unlock(&mut self, color: LightColor)
        ensures
            final(self).allowed.at(color),
            forall|d: LightColor| d != color ==> #[trigger] final(self).allowed.at(d) == old(self).allowed.at(d),
            final(self).collectible == old(self).collectible,
            final(self).current_color == old(self).current_color,
            final(self).previewing == old(self).previewing,
            final(self).snapping == old(self).snapping,
            final(self).should_shoot == old(self).should_shoot,
    {
        self.allowed.set(color, true);
    }

    /// The entities of the beam sources the player touches, in color order.
    pub fn sources_in_reach(&self) -> (v: Vec<u64>)
        ensures
            v@ == in_reach_sources(self.collectible, 5),
    {
        let colors = all_colors();
        let mut v: Vec<u64> = Vec::new();
        let mut i: usize = 0;
        while i < colors.len()
            invariant
                colors@ == color_order(),
                0 <= i <= colors.len(),
                v@ == in_reach_sources(self.collectible, i as int),
            decreases colors.len() - i,
        {
            match self.collectible.get(colors[i]) {
                Some(s) => {
                    if s.in_reach {
                        v.push(s.entity);
                    }
                },
                None => {},
            }
            i += 1;
        }
        v
    }

    /// Applies one beam action to the inventory.
    ///
    /// A `Shoot` only asks the caller to shoot: the inventory changes once the beam exists,
    /// through `record_shot`. A `Collect` names the beam sources to despawn.
    pub fn process_action(&mut self, action: BeamAction) -> (effect: BeamEffect)
        ensures
            match action {
                BeamAction::Shoot => {
                    &&& *final(self) == *old(self)
                    &&& effect == (if old(self).spec_can_shoot() { BeamEffect::Shoot(old(self).current_color->0) } else { BeamEffect::Nothing })
                },
                BeamAction::Snap(v) => {
                    &&& *final(self) == (PlayerLightInventory { snapping: v, ..*old(self) })
                    &&& effect == BeamEffect::Nothing
                },
                BeamAction::Preview => {
                    &&& *final(self) == (if old(self).current_color is Some && old(self).spec_can_shoot_color(old(self).current_color->0) {
                            PlayerLightInventory { previewing: true, should_shoot: true, ..*old(self) }
                        } else {
                            *old(self)
                        })
                    &&& effect == BeamEffect::Nothing
                },
                BeamAction::Cancel => {
                    &&& *final(self) == (PlayerLightInventory { previewing: false, should_shoot: false, ..*old(self) })
                    &&& effect == BeamEffect::Nothing
                },
                BeamAction::SwitchColor(c) => {
                    &&& *final(self) == (PlayerLightInventory { current_color: c, ..*old(self) })
                    &&& effect == BeamEffect::Nothing
                },
                BeamAction::Collect => {
                    &&& *final(self) == *old(self)
                    &&& effect matches BeamEffect::Despawn(v) && v@ == in_reach_sources(old(self).collectible, 5)
                },
            },
    {
        match action {
            BeamAction::Shoot => {
                if self.can_shoot() {
                    BeamEffect::Shoot(self.current_color.unwrap())
                } else {
                    BeamEffect::Nothing
                }
            },
            BeamAction::Snap(v) => {
                self.snapping = v;
                BeamEffect::Nothing
            },
            BeamAction::Preview => {
                match self.current_color {
                    Some(c) => {
                        if self.can_shoot_color(c) {
                            self.previewing = true;
                            self.should_shoot = true;
                        }
                    },
                    None => {},
                }
                BeamEffect::Nothing
            },
            BeamAction::Cancel => {
                self.previewing = false;
                self.should_shoot = false;
                BeamEffect::Nothing
            },
            BeamAction::SwitchColor(c) => {
                self.current_color = c;
                BeamEffect::Nothing
            },
            BeamAction::Collect => BeamEffect::Despawn(self.sources_in_reach()),
        }
    }
}

/// The colors bound to the number keys 1 to 4, repeating in both directions.
pub open spec fn bind_color(i: int) -> LightColor {
    let r = i % 4;
    if r == 0 {
        LightColor::Green
    } else if r == 1 {
        LightColor::Purple
    } else if r == 2 {
        LightColor::White
    } else {
        LightColor::Blue
    }
}

/// The cycle position of the current color; `-1` when no color is held.
pub open spec fn color_index(c: Option<LightColor>) -> int {
    match c {
        None => -1,
        Some(LightColor::Green) => 0,
        Some(LightColor::Purple) => 1,
        Some(LightColor::White) => 2,
        Some(LightColor::Blue) => 3,
        Some(LightColor::Black) => 4,
    }
}

/// The position `1 + k` steps from `cur` in the direction `sign`.
pub open spec fn step_index(cur: int, sign: int, k: int) -> int {
    if sign > 0 {
        cur + 1 + k
    } else if sign < 0 {
        cur - 1 - k
    } else {
        cur
    }
}

/// The number of further steps a scroll takes past disallowed colors: the first `k` from `from`
/// on whose position is allowed, or 4 when none of the four positions is.
pub open spec fn skipped_steps(cur: int, sign: int, allowed: ColorMap<bool>, from: nat) -> nat
    decreases 4 - from,
{
    if from >= 4 {
        4
    } else if allowed.at(bind_color(step_index(cur, sign, from as int))) {
        from
    } else {
        skipped_steps(cur, sign, allowed, from + 1)
    }
}

/// The new cycle position after one scroll in direction `sign`.
pub open spec fn scroll_target(cur: int, sign: int, allowed: ColorMap<bool>) -> int {
    step_index(cur, sign, skipped_steps(cur, sign, allowed, 0) as int)
}

/// The color a scroll switches to, if the new position is allowed.
pub open spec fn scroll_switch(cur: int, sign: int, allowed: ColorMap<bool>) -> Option<LightColor> {
    let t = scroll_target(cur, sign, allowed);
    if allowed.at(bind_color(t)) { Some(bind_color(t)) } else { None }
}

/// The cycle position after the first `n` scrolls of `signs`.
pub open spec fn scroll_position(cur: int, signs: Seq<i32>, allowed: ColorMap<bool>, n: int) -> int
    decreases n,
{
    if n <= 0 {
        cur
    } else {
        scroll_target(scroll_position(cur, signs, allowed, n - 1), signs[n - 1] as int, allowed)
    }
}

/// The color switches asked for by the first `n` scrolls of `signs`.
pub open spec fn scroll_switches(cur: int, signs: Seq<i32>, allowed: ColorMap<bool>, n: int) -> Seq<LightColor>
    decreases n,
{
    if n <= 0 {
        Seq::empty()
    } else {
        let prev = scroll_switches(cur, signs, allowed, n - 1);
        match scroll_switch(scroll_position(cur, signs, allowed, n - 1), signs[n - 1] as int, allowed) {
            Some(c) => prev.push(c),
            None => prev,
        }
    }
}

/// The color switches asked for by the first `n` number keys.
pub open spec fn key_switches(pressed: Seq<bool>, allowed: ColorMap<bool>, n: int) -> Seq<LightColor>
    decreases n,
{
    if n <= 0 {
        Seq::empty()
    } else {
        let prev = key_switches(pressed, allowed, n - 1);
        if pressed[n - 1] && allowed.at(bind_color(n - 1)) {
            prev.push(bind_color(n - 1))
        } else {
            prev
        }
    }
}

fn bind_color_at(i: i32) -> (c: LightColor)
    ensures
        c == bind_color(i as int),
{
    let r = i.checked_rem_euclid(4).unwrap();
    if r == 0 {
        LightColor::Green
    } else if r == 1 {
        LightColor::Purple
    } else if r == 2 {
        LightColor::White
    } else {
        LightColor::Blue
    }
}

/// One scroll of the mouse wheel in direction `sign`: skips the disallowed colors and gives the new
/// cycle position, with the color to switch to when that position is allowed.
pub fn scroll_step(cur: i32, sign: i32, allowed: &ColorMap<bool>) -> (res: (i32, Option<LightColor>))
    requires
        -1 <= sign <= 1,
        i32::MIN + 5 <= cur <= i32::MAX - 5,
    ensures
        res.0 == scroll_target(cur as int, sign as int, *allowed),
        res.1 == scroll_switch(cur as int, sign as int, *allowed),
{
    let mut new_index: i32 = cur + sign;
    let mut count: usize = 0;
    while !allowed.get(bind_color_at(new_index)) && count < 4
        invariant
            -1 <= sign <= 1,
            i32::MIN + 5 <= cur <= i32::MAX - 5,
            0 <= count <= 4,
            new_index == step_index(cur as int, sign as int, count as int),
            skipped_steps(cur as int, sign as int, *allowed, 0) == skipped_steps(cur as int, sign as int, *allowed, count as nat),
        decreases 4 - count,
    {
        new_index += sign;
        count += 1;
    }
    proof {
        if count < 4 {
            assert(allowed.at(bind_color(new_index as int)));
        }
    }
    let target = bind_color_at(new_index);
    if allowed.get(target) {
        (new_index, Some(target))
    } else {
        (new_index, None)
    }
}

proof fn lemma_scroll_position_bounds(cur: int, signs: Seq<i32>, allowed: ColorMap<bool>, n: int)
    requires
        0 <= n <= signs.len(),
        forall|i: int| 0 <= i < signs.len() ==> -1 <= #[trigger] signs[i] <= 1,
    ensures
        cur - 5 * n <= scroll_position(cur, signs, allowed, n) <= cur + 5 * n,
    decreases n,
{
    if n > 0 {
        lemma_scroll_position_bounds(cur, signs, allowed, n - 1);
        assert(skipped_steps(scroll_position(cur, signs, allowed, n - 1), signs[n - 1] as int, allowed, 0) <= 4) by {
            lemma_skipped_steps_bound(scroll_position(cur, signs, allowed, n - 1), signs[n - 1] as int, allowed, 0);
        }
    }
}

proof fn lemma_skipped_steps_bound(cur: int, sign: int, allowed: ColorMap<bool>, from: nat)
    ensures
        skipped_steps(cur, sign, allowed, from) <= 4,
    decreases 4 - from,
{
    if from < 4 {
        lemma_skipped_steps_bound(cur, sign, allowed, from + 1);
    }
}

/// The color switches asked for by the mouse wheel and the number keys in one frame.
///
/// Each scroll moves the cycle position from the current color's, skipping disallowed colors, and
/// asks for a switch when it lands on an allowed color; then each pressed number key whose color is
/// allowed asks for that color. `pressed` holds the keys 1 to 4.
pub fn color_switches(
    current: Option<LightColor>,
    allowed: &ColorMap<bool>,
    scroll_signs: &Vec<i32>,
    pressed: [bool; 4],
) -> (switches: Vec<LightColor>)
    requires
        scroll_signs.len() * 5 + 10 <= i32::MAX,
        forall|i: int| 0 <= i < scroll_signs.len() ==> -1 <= #[trigger] scroll_signs@[i] <= 1,
    ensures
        switches@ == scroll_switches(color_index(current), scroll_signs@, *allowed, scroll_signs.len() as int)
            + key_switches(pressed@, *allowed, 4),
{
    let mut cur_index: i32 = match current {
        None => -1,
        Some(LightColor::Green) => 0,
        Some(LightColor::Purple) => 1,
        Some(LightColor::White) => 2,
        Some(LightColor::Blue) => 3,
        Some(LightColor::Black) => 4,
    };
    let ghost start = cur_index as int;
    let mut switches: Vec<LightColor> = Vec::new();
    let mut i: usize = 0;
    while i < scroll_signs.len()
        invariant
            scroll_signs.len() * 5 + 10 <= i32::MAX,
            forall|k: int| 0 <= k < scroll_signs.len() ==> -1 <= #[trigger] scroll_signs@[k] <= 1,
            start == color_index(current),
            0 <= i <= scroll_signs.len(),
            cur_index as int == scroll_position(start, scroll_signs@, *allowed, i as int),
            switches@ == scroll_switches(start, scroll_signs@, *allowed, i as int),
        decreases scroll_signs.len() - i,
    {
        proof {
            lemma_scroll_position_bounds(start, scroll_signs@, *allowed, i as int);
        }
        let (next, switch) = scroll_step(cur_index, scroll_signs[i], allowed);
        cur_index = next;
        match switch {
            Some(c) => switches.push(c),
            None => {},
        }
        i += 1;
    }
    let ghost scrolled = switches@;
    let mut k: usize = 0;
    while k < 4
        invariant
            0 <= k <= 4,
            switches@ == scrolled + key_switches(pressed@, *allowed, k as int),
        decreases 4 - k,
    {
        let color = bind_color_at(k as i32);
        if pressed[k] && allowed.get(color) {
            switches.push(color);
        }
        proof {
            assert(switches@ =~= scrolled + key_switches(pressed@, *allowed, k + 1));
        }
        k += 1;
    }
    switches
}

proof fn lemma_skipped_steps_props(cur: int, sign: int, allowed: ColorMap<bool>, from: nat)
    requires
        from <= 4,
    ensures
        from <= skipped_steps(cur, sign, allowed, from) <= 4,
        forall|k: int| from <= k < skipped_steps(cur, sign, allowed, from) ==>
            !allowed.at(#[trigger] bind_color(step_index(cur, sign, k))),
        skipped_steps(cur, sign, allowed, from) < 4 ==>
            allowed.at(bind_color(step_index(cur, sign, skipped_steps(cur, sign, allowed, from) as int))),
    decreases 4 - from,
{
    if from < 4 && !allowed.at(bind_color(step_index(cur, sign, from as int))) {
        lemma_skipped_steps_props(cur, sign, allowed, from + 1);
        assert forall|k: int| from <= k < skipped_steps(cur, sign, allowed, from) implies
            !allowed.at(#[trigger] bind_color(step_index(cur, sign, k))) by {
            if k > from {
            }
        }
    }
}

proof fn lemma_bind_color_period(a: int, b: int)
    requires
        a % 4 == b % 4,
    ensures
        bind_color(a) == bind_color(b),
{
}

/// A scroll of the mouse wheel always lands on an allowed color when one of the four cycled colors
/// is allowed: the player is then switched to that color.
pub proof fn lemma_scroll_lands_on_allowed(cur: int, sign: int, allowed: ColorMap<bool>, i: int)
    requires
        sign == 1 || sign == -1,
        0 <= i < 4,
        allowed.at(bind_color(i)),
    ensures
        scroll_switch(cur, sign, allowed) == Some(bind_color(scroll_target(cur, sign, allowed))),
        allowed.at(bind_color(scroll_target(cur, sign, allowed))),
{
    lemma_skipped_steps_props(cur, sign, allowed, 0);
    let s = skipped_steps(cur, sign, allowed, 0);
    if s == 4 {
        let k: int = if sign == 1 { (i - cur - 1) % 4 } else { (cur - 1 - i) % 4 };
        assert(0 <= k < 4);
        assert(step_index(cur, sign, k) % 4 == i % 4) by {
            if sign == 1 {
                assert((cur + 1 + (i - cur - 1) % 4) % 4 == i % 4);
            } else {
                assert((cur - 1 - (cur - 1 - i) % 4) % 4 == i % 4);
            }
        }
        lemma_bind_color_period(step_index(cur, sign, k), i);
        assert(!allowed.at(bind_color(step_index(cur, sign, k))));
    }
}

/// Scrolling one color forward and then one back returns to the color held, when that color is
/// allowed: the colors skipped on the way forward are skipped again on the way back.
pub proof fn lemma_scroll_round_trip(cur: int, allowed: ColorMap<bool>)
    requires
        allowed.at(bind_color(cur)),
    ensures
        scroll_target(scroll_target(cur, 1, allowed), -1, allowed) == cur,
{
    lemma_skipped_steps_props(cur, 1, allowed, 0);
    let k = skipped_steps(cur, 1, allowed, 0);
    if k == 4 {
        assert(step_index(cur, 1, 3) % 4 == cur % 4);
        lemma_bind_color_period(step_index(cur, 1, 3), cur);
        assert(!allowed.at(bind_color(step_index(cur, 1, 3))));
    }
    let t = scroll_target(cur, 1, allowed);
    assert(t == cur + 1 + k);
    lemma_skipped_steps_props(t, -1, allowed, 0);
    let j = skipped_steps(t, -1, allowed, 0);
    assert(step_index(t, -1, k as int) == cur);
    if j > k {
        assert(!allowed.at(bind_color(step_index(t, -1, k as int))));
    }
    if j < k {
        assert(step_index(t, -1, j as int) == step_index(cur, 1, (k - 1 - j) as int));
        assert(!allowed.at(bind_color(step_index(cur, 1, (k - 1 - j) as int))));
    }
}

impl PlayerLightProgress {
    /// The progress the game starts with: the saved one when there is a save, else none; the
    /// debug configuration may unlock the four playable colors on top.
    pub fn init(saved: Option<PlayerLightProgress>, unlock_beams: bool) -> (p: PlayerLightProgress)
        ensures
            forall|c: LightColor| #[trigger] p.unlocked.at(c) == ((match saved {
                Some(s) => s.unlocked.at(c),
                None => false,
            }) || (unlock_beams && c != LightColor::Black)),
    {
        let mut p = match saved {
            Some(s) => s,
            None => PlayerLightProgress::new(),
        };
        if unlock_beams {
            p.unlock_debug_colors();
        }
        p
    }
}

/// The mouse and key edges that drive the light beams this frame.
#[derive(Clone, Copy, Debug, PartialEq, Eq, Structural)]
pub struct ShootInputs {
    pub aim_pressed: bool,
    pub cancel_pressed: bool,
    pub aim_released: bool,
    pub snap_pressed: bool,
    pub snap_released: bool,
    pub collect_pressed: bool,
}

/// The beam actions of this frame's inputs, in the order the game sends them: pressing aim
/// previews, the cancel button cancels, releasing aim shoots, the snap key toggles snapping, and
/// the collect key collects.
pub fn shoot_input_actions(inputs: ShootInputs) -> (actions: Vec<BeamAction>)
    ensures
        actions@ == {
            let s0 = if inputs.aim_pressed { seq![BeamAction::Preview] } else { Seq::empty() };
            let s1 = if inputs.cancel_pressed { s0.push(BeamAction::Cancel) } else { s0 };
            let s2 = if inputs.aim_released { s1.push(BeamAction::Shoot) } else { s1 };
            let s3 = if inputs.snap_pressed { s2.push(BeamAction::Snap(true)) } else { s2 };
            let s4 = if inputs.snap_released { s3.push(BeamAction::Snap(false)) } else { s3 };
            if inputs.collect_pressed { s4.push(BeamAction::Collect) } else { s4 }
        },
{
    let mut actions: Vec<BeamAction> = Vec::new();
    if inputs.aim_pressed {
        actions.push(BeamAction::Preview);
    }
    if inputs.cancel_pressed {
        actions.push(BeamAction::Cancel);
    }
    if inputs.aim_released {
        actions.push(BeamAction::Shoot);
    }
    if inputs.snap_pressed {
        actions.push(BeamAction::Snap(true));
    }
    if inputs.snap_released {
        actions.push(BeamAction::Snap(false));
    }
    if inputs.collect_pressed {
        actions.push(BeamAction::Collect);
    }
    actions
}

} // verus!
