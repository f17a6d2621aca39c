use vstd::prelude::*;

use crate::color::LightColor;
use crate::merge_tile::GridCoords;

verus! {

/// The horizontal offset between active crystals and inactive crystals in the crystal tilemap.
pub const CRYSTAL_INDEX_OFFSET: u32 = 5;

/// The crystals a light sensor toggles: a color, and for white crystals an id.
#[derive(Clone, Copy, Debug, PartialEq, Eq, Structural, Hash)]
pub struct CrystalColor {
    pub color: LightColor,
    pub id: i32,
}

/// A crystal tile: its color, whether it starts active, and whether it is active.
#[derive(Clone, Copy, Debug, PartialEq, Eq, Structural)]
pub struct Crystal {
    pub color: CrystalColor,
    pub init_active: bool,
    pub active: bool,
}

/// The texture index of a crystal tile after a flip: active crystals sit `CRYSTAL_INDEX_OFFSET`
/// columns before inactive ones.
pub open spec fn toggled_index(active: bool, index: int) -> int {
    if active { index + CRYSTAL_INDEX_OFFSET } else { index - CRYSTAL_INDEX_OFFSET }
}

/// The grid cell values that hold crystals.
pub open spec fn is_crystal_cell(value: i32) -> bool {
    3 <= value <= 10
}

/// Odd crystal cell values start active, even ones inactive.
pub open spec fn spec_is_crystal_active(value: i32) -> bool {
    value == 3 || value == 5 || value == 7 || value == 9
}

/// The base color of the crystal in a cell.
pub open spec fn spec_crystal_color(value: i32) -> LightColor {
    if value == 3 || value == 4 {
        LightColor::Purple
    } else if value == 5 || value == 6 {
        LightColor::Green
    } else if value == 7 || value == 8 {
        LightColor::White
    } else {
        LightColor::Blue
    }
}

/// Whether the crystal in a cell starts active.
pub fn is_crystal_active(value: i32) -> (b: bool)
    requires
        is_crystal_cell(value),
    ensures
        b == spec_is_crystal_active(value),
{
    match value {
        3 | 5 | 7 | 9 => true,
        _ => false,
    }
}

/// The base color of the crystal in a cell.
pub fn crystal_color(value: i32) -> (c: LightColor)
    requires
        is_crystal_cell(value),
    ensures
        c == spec_crystal_color(value),
{
    match value {
        3 | 4 => LightColor::Purple,
        5 | 6 => LightColor::Green,
        7 | 8 => LightColor::White,
        _ => LightColor::Blue,
    }
}

impl Crystal {
    /// The crystal with its activity flipped.
    pub open spec fn toggled(self) -> Crystal {
        Crystal { active: !self.active, ..self }
    }

    /// The crystal of a grid cell, with id 0 until the crystal map names its id.
    pub fn from_cell(value: i32) -> (c: Crystal)
        requires
            is_crystal_cell(value),
        ensures
            c.color == (CrystalColor { color: spec_crystal_color(value), id: 0 }),
            c.init_active == spec_is_crystal_active(value),
            c.active == c.init_active,
    {
        let init_active = is_crystal_active(value);
        Crystal { color: CrystalColor { color: crystal_color(value), id: 0 }, active: init_active, init_active }
    }

    /// Flips a crystal tile, moving its tile texture between the active and inactive columns.
    pub fn toggle(&mut self, texture_index: &mut u32)
        requires
            old(self).active ==> *old(texture_index) <= u32::MAX - CRYSTAL_INDEX_OFFSET,
            !old(self).active ==> *old(texture_index) >= CRYSTAL_INDEX_OFFSET,
        ensures
            *final(self) == old(self).toggled(),
            *final(texture_index) == toggled_index(old(self).active, *old(texture_index) as int),
    {
        if !self.active {
            self.active = true;
            *texture_index = *texture_index - CRYSTAL_INDEX_OFFSET;
        } else {
            self.active = false;
            *texture_index = *texture_index + CRYSTAL_INDEX_OFFSET;
        }
    }

    /// Flips a merged crystal group. Gives whether the group now needs its collider and occluder.
    pub fn toggle_group(&mut self) -> (solid: bool)
        ensures
            final(self).active == !old(self).active,
            final(self).color == old(self).color,
            final(self).init_active == old(self).init_active,
            solid == final(self).active,
    {
        self.active = !self.active;
        self.active
    }

    /// Puts a crystal tile back in its initial state.
    pub fn reset(&mut self, texture_index: &mut u32)
        requires
            old(self).active && !old(self).init_active ==> *old(texture_index) <= u32::MAX - CRYSTAL_INDEX_OFFSET,
            !old(self).active && old(self).init_active ==> *old(texture_index) >= CRYSTAL_INDEX_OFFSET,
        ensures
            final(self).active == old(self).init_active,
            final(self).color == old(self).color,
            final(self).init_active == old(self).init_active,
            *final(texture_index) == (if old(self).active == old(self).init_active {
                *old(texture_index) as int
            } else if old(self).active {
                *old(texture_index) + CRYSTAL_INDEX_OFFSET
            } else {
                *old(texture_index) - CRYSTAL_INDEX_OFFSET
            }),
    {
        if self.init_active != self.active {
            self.toggle(texture_index);
        }
    }

    /// Puts a merged crystal group back in its initial state. Gives `Some(solid)` when the group
    /// was flipped, `solid` saying whether it now needs its collider and occluder.
    pub fn reset_group(&mut self) -> (flipped: Option<bool>)
        ensures
            final(self).active == old(self).init_active,
            final(self).color == old(self).color,
            final(self).init_active == old(self).init_active,
            flipped == (if old(self).active == old(self).init_active { None } else { Some(old(self).init_active) }),
    {
        if self.init_active != self.active {
            Some(self.toggle_group())
        } else {
            None
        }
    }
}

/// The id the crystal map gives the cell at `coords`: the last entry for that cell, else 0.
pub fn crystal_id_at(ids: &Vec<(GridCoords, i32)>, coords: GridCoords) -> (id: i32)
    ensures
        (exists|i: int| 0 <= i < ids.len() && (#[trigger] ids@[i]).0 == coords) ==> exists|i: int|
            0 <= i < ids.len() && ids@[i].0 == coords && id == ids@[i].1
            && forall|j: int| i < j < ids.len() ==> (#[trigger] ids@[j]).0 != coords,
        (forall|i: int| 0 <= i < ids.len() ==> (#[trigger] ids@[i]).0 != coords) ==> id == 0,
{
    let mut k: usize = ids.len();
    while k > 0
        invariant
            0 <= k <= ids.len(),
            forall|j: int| k <= j < ids.len() ==> (#[trigger] ids@[j]).0 != coords,
        decreases k,
    {
        k -= 1;
        if ids[k].0 == coords {
            return ids[k].1;
        }
    }
    0
}

/// The entities, in cache order, of the first `n` cache entries whose crystals are `color`.
pub open spec fn entities_with_color(entries: Seq<(CrystalColor, u64)>, color: CrystalColor, n: int) -> Seq<u64>
    decreases n,
{
    if n <= 0 {
        Seq::empty()
    } else if entries[n - 1].0 == color {
        entities_with_color(entries, color, n - 1).push(entries[n - 1].1)
    } else {
        entities_with_color(entries, color, n - 1)
    }
}

/// The crystal entities of a level's cache that a toggle of `color` flips, in cache order.
pub fn entities_of_color(entries: &Vec<(CrystalColor, u64)>, color: CrystalColor) -> (v: Vec<u64>)
    ensures
        v@ == entities_with_color(entries@, color, entries.len() as int),
{
    let mut v: Vec<u64> = Vec::new();
    let mut i: usize = 0;
    while i < entries.len()
        invariant
            0 <= i <= entries.len(),
            v@ == entities_with_color(entries@, color, i as int),
        decreases entries.len() - i,
    {
        if entries[i].0 == color {
            v.push(entries[i].1);
        }
        i = i + 1;
    }
    v
}

/// Flipping a crystal twice puts it back as it was, texture included: a sensor that turns on and
/// off again leaves its crystals unchanged.
pub proof fn lemma_toggle_twice(c: Crystal, index: int)
    ensures
        c.toggled().toggled() == c,
        toggled_index(c.toggled().active, toggled_index(c.active, index)) == index,
{
}

/// Crystal cells come in pairs of one color: the odd value of a pair starts active and the even
/// value after it starts inactive.
pub proof fn lemma_crystal_cells_pair_up(value: i32)
    requires
        is_crystal_cell(value),
    ensures
        spec_is_crystal_active(value) <==> value % 2 == 1,
        value % 2 == 1 ==> spec_crystal_color(value) == spec_crystal_color((value + 1) as i32),
        spec_crystal_color(3) != spec_crystal_color(5),
        spec_crystal_color(5) != spec_crystal_color(7),
        spec_crystal_color(7) != spec_crystal_color(9),
        spec_crystal_color(3) != spec_crystal_color(7),
        spec_crystal_color(3) != spec_crystal_color(9),
        spec_crystal_color(5) != spec_crystal_color(9),
{
}

} // verus!
