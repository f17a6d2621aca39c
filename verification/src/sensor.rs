use vstd::prelude::*;

use crate::color::{all_colors, color_order, ColorMap, LightColor};
use crate::crystal::CrystalColor;
use crate::platform::PlatformState;

verus! {

/// The state of a light sensor that the game's rules read: which beams hit it, whether it is
/// active, and what it toggles. Its light meter is kept by the caller.
#[derive(Clone, Copy, Debug)]
pub struct LightSensor {
    /// Colors of light beams hitting the sensor.
    pub hit_by: ColorMap<bool>,
    /// Active state of the sensor.
    pub is_active: bool,
    /// The crystals the sensor toggles.
    pub toggle_ident: CrystalColor,
    /// The id of the platform the sensor drives; -1 for none.
    pub platform_id: i32,
}

/// What a sensor does when its meter crosses a bound.
#[derive(Clone, Copy, Debug, PartialEq, Eq, Structural)]
pub struct SensorToggle {
    /// The crystals to toggle.
    pub crystals: CrystalColor,
    /// The platform to drive.
    pub platform_id: i32,
    /// The state the platform is asked to take: play while light hits the sensor, else pause.
    pub platform_state: PlatformState,
}

/// The hit colors among the first `n` colors, in color order.
pub open spec fn hit_colors_upto(hit_by: ColorMap<bool>, n: int) -> Seq<LightColor>
    decreases n,
{
    if n <= 0 {
        Seq::empty()
    } else if hit_by.at(color_order()[n - 1]) {
        hit_colors_upto(hit_by, n - 1).push(color_order()[n - 1])
    } else {
        hit_colors_upto(hit_by, n - 1)
    }
}

impl LightSensor {
    /// Some beam hits the sensor.
    pub open spec fn spec_is_hit(self) -> bool {
        exists|c: LightColor| #[trigger] self.hit_by.at(c)
    }

    /// An inactive sensor that no light hits.
    pub fn new(toggle_ident: CrystalColor, platform_id: i32) -> (s: LightSensor)
        ensures
            forall|c: LightColor| !#[trigger] s.hit_by.at(c),
            !s.is_active,
            s.toggle_ident == toggle_ident,
            s.platform_id == platform_id,
    {
        LightSensor { hit_by: ColorMap::filled(false), is_active: false, toggle_ident, platform_id }
    }

    /// The sensor of a level entity: the platform id field is optional and defaults to -1.
    pub fn from_fields(toggle_ident: CrystalColor, platform_id: Option<i32>) -> (s: LightSensor)
        ensures
            forall|c: LightColor| !#[trigger] s.hit_by.at(c),
            !s.is_active,
            s.toggle_ident == toggle_ident,
            s.platform_id == match platform_id {
                Some(id) => id,
                None => -1i32,
            },
    {
        let id = match platform_id {
            Some(id) => id,
            None => -1,
        };
        LightSensor::new(toggle_ident, id)
    }

    /// Puts the sensor back to its state at level start.
    pub fn reset(&mut self)
        ensures
            forall|c: LightColor| !#[trigger] final(self).hit_by.at(c),
            !final(self).is_active,
            final(self).toggle_ident == old(self).toggle_ident,
            final(self).platform_id == old(self).platform_id,
    {
        self.hit_by = ColorMap::filled(false);
        self.is_active = false;
    }

    /// Records whether a beam of `color` hits the sensor.
    pub fn set_hit(&mut self, color: LightColor, hit: bool)
        ensures
            final(self).hit_by.at(color) == hit,
            forall|d: LightColor| d != color ==> #[trigger] final(self).hit_by.at(d) == old(
                self,
            ).hit_by.at(d),
            final(self).is_active == old(self).is_active,
            final(self).toggle_ident == old(self).toggle_ident,
            final(self).platform_id == old(self).platform_id,
    {
        self.hit_by.set(color, hit);
    }

    /// Whether some beam hits the sensor.
    pub fn is_hit(&self) -> (b: bool)
        ensures
            b == self.spec_is_hit(),
    {
        let b = self.hit_by.green || self.hit_by.purple || self.hit_by.white || self.hit_by.blue
            || self.hit_by.black;
        proof {
            if b {
                if self.hit_by.green {
                    assert(self.hit_by.at(LightColor::Green));
                } else if self.hit_by.purple {
                    assert(self.hit_by.at(LightColor::Purple));
                } else if self.hit_by.white {
                    assert(self.hit_by.at(LightColor::White));
                } else if self.hit_by.blue {
                    assert(self.hit_by.at(LightColor::Blue));
                } else {
                    assert(self.hit_by.at(LightColor::Black));
                }
            } else {
                assert forall|c: LightColor| !#[trigger] self.hit_by.at(c) by {
                    match c {
                        LightColor::Green => {},
                        LightColor::Purple => {},
                        LightColor::White => {},
                        LightColor::Blue => {},
                        LightColor::Black => {},
                    }
                }
            }
        }
        b
    }

    /// The colors of the beams hitting the sensor, in color order.
    pub fn hit_colors(&self) -> (v: Vec<LightColor>)
        ensures
            v@ == hit_colors_upto(self.hit_by, 5),
    {
        let colors = all_colors();
        let mut v: Vec<LightColor> = Vec::new();
        let mut i: usize = 0;
        while i < colors.len()
            invariant
                colors@ == color_order(),
                0 <= i <= colors.len(),
                v@ == hit_colors_upto(self.hit_by, i as int),
            decreases colors.len() - i,
        {
            if self.hit_by.get(colors[i]) {
                v.push(colors[i]);
            }
            i = i + 1;
        }
        v
    }

    /// Reacts to the light meter after a tick: a meter above full activates an inactive sensor,
    /// a meter below empty deactivates an active one, and either change toggles the sensor's
    /// crystals and asks its platform to play (light hits the sensor) or pause (it does not).
    pub fn on_meter(&mut self, above_full: bool, below_empty: bool) -> (toggle: Option<SensorToggle>)
        requires
            !(above_full && below_empty),
        ensures
            toggle is Some <==> final(self).is_active != old(self).is_active,
            final(self).hit_by == old(self).hit_by,
            final(self).toggle_ident == old(self).toggle_ident,
            final(self).platform_id == old(self).platform_id,
            final(self).is_active == (if above_full {
                true
            } else if below_empty {
                false
            } else {
                old(self).is_active
            }),
            toggle == (if (above_full && !old(self).is_active) || (below_empty && old(self).is_active) {
                Some(
                    SensorToggle {
                        crystals: old(self).toggle_ident,
                        platform_id: old(self).platform_id,
                        platform_state: if old(self).spec_is_hit() {
                            PlatformState::Play
                        } else {
                            PlatformState::Pause
                        },
                    },
                )
            } else {
                None
            }),
    {
        let was_hit = self.is_hit();
        let event = SensorToggle {
            crystals: self.toggle_ident,
            platform_id: self.platform_id,
            platform_state: if was_hit {
                PlatformState::Play
            } else {
                PlatformState::Pause
            },
        };
        if above_full {
            if !self.is_active {
                self.is_active = true;
                return Some(event);
            }
        } else if below_empty {
            if self.is_active {
                self.is_active = false;
                return Some(event);
            }
        }
        None
    }
}

} // verus!
