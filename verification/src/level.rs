use vstd::prelude::*;

use crate::color::{light_color_name, ColorMap, LightColor};

verus! {

/// How the game moves to the level the player has entered.
#[derive(Clone, Copy, Debug, PartialEq, Eq, Structural)]
pub enum LevelSwitch {
    /// The player is still in the current level, or in no level.
    Stay,
    /// The camera slides over to level `index`, and the levels reset when it arrives.
    Animated { index: usize },
    /// No level was current yet: level `index` starts at once and the levels reset.
    Immediate { index: usize },
}

/// Level `k` is the first level whose box holds the player.
pub open spec fn is_first_containing(contains: Seq<bool>, k: int) -> bool {
    &&& 0 <= k < contains.len()
    &&& contains[k]
    &&& forall|j: int| 0 <= j < k ==> !#[trigger] contains[j]
}

/// Decides the level switch. `iids` are the levels' ids and `contains[i]` says whether level `i`'s
/// box holds the player; the first such level is the one the player is in. Entering another level
/// than the current one switches to it, animated unless no level was current (an empty id).
pub fn switch_decision(current: &String, iids: &Vec<String>, contains: &Vec<bool>) -> (s: LevelSwitch)
    requires
        iids.len() == contains.len(),
    ensures
        (forall|j: int| 0 <= j < contains.len() ==> !#[trigger] contains@[j]) ==> s == LevelSwitch::Stay,
        forall|k: int| #[trigger] is_first_containing(contains@, k) ==> s == (if iids@[k]@ == current@ {
            LevelSwitch::Stay
        } else if current@.len() == 0 {
            LevelSwitch::Immediate { index: k as usize }
        } else {
            LevelSwitch::Animated { index: k as usize }
        }),
{
    let mut i: usize = 0;
    while i < contains.len()
        invariant
            iids.len() == contains.len(),
            0 <= i <= contains.len(),
            forall|j: int| 0 <= j < i ==> !#[trigger] contains@[j],
        decreases contains.len() - i,
    {
        if contains[i] {
            assert(is_first_containing(contains@, i as int));
            assert forall|k: int| #[trigger] is_first_containing(contains@, k) implies k == i by {
                if k > i {
                    assert(contains@[i as int]);
                }
            }
            if iids[i] == *current {
                return LevelSwitch::Stay;
            } else if current.as_str().unicode_len() == 0 {
                return LevelSwitch::Immediate { index: i };
            } else {
                return LevelSwitch::Animated { index: i };
            }
        }
        i = i + 1;
    }
    LevelSwitch::Stay
}

/// The name is some color's name.
pub open spec fn names_color(name: Seq<char>) -> bool {
    exists|c: LightColor| light_color_name(c) == name
}

/// The colors a level allows, from the color names of its `AllowedColors` field: a color is allowed
/// when one of the names is its name. `None` when a name is no color's name: such a level is
/// malformed, and the caller stops the game on `None`.
pub fn allowed_colors(names: &Vec<String>) -> (allowed: Option<ColorMap<bool>>)
    ensures
        allowed is None <==> exists|i: int| 0 <= i < names.len() && !names_color(#[trigger] names@[i]@),
        allowed matches Some(m) ==> forall|c: LightColor| #[trigger] m.at(c) <==> exists|i: int|
            0 <= i < names.len() && light_color_name(c) == #[trigger] names@[i]@,
{
    let mut m: ColorMap<bool> = ColorMap::filled(false);
    let mut i: usize = 0;
    while i < names.len()
        invariant
            0 <= i <= names.len(),
            forall|j: int| 0 <= j < i ==> names_color(#[trigger] names@[j]@),
            forall|c: LightColor| #[trigger] m.at(c) <==> exists|j: int|
                0 <= j < i && light_color_name(c) == #[trigger] names@[j]@,
        decreases names.len() - i,
    {
        match LightColor::from_name(names[i].as_str()) {
            Some(c) => {
                let ghost before = m;
                m.set(c, true);
                assert forall|d: LightColor| #[trigger] m.at(d) <==> exists|j: int|
                    0 <= j < i + 1 && light_color_name(d) == #[trigger] names@[j]@ by {
                    if d == c {
                        assert(light_color_name(d) == names@[i as int]@);
                    } else if exists|j: int| 0 <= j < i + 1 && light_color_name(d) == #[trigger] names@[j]@ {
                        let j = choose|j: int| 0 <= j < i + 1 && light_color_name(d) == #[trigger] names@[j]@;
                        if j == i {
                            lemma_names_distinct(c, d);
                        }
                    }
                }
            },
            None => {
                assert(!names_color(names@[i as int]@));
                return None;
            },
        }
        i = i + 1;
    }
    Some(m)
}

proof fn lemma_names_distinct(c: LightColor, d: LightColor)
    requires
        c != d,
    ensures
        light_color_name(c) != light_color_name(d),
{
    let a = light_color_name(c);
    let b = light_color_name(d);
    match (c, d) {
        (LightColor::Green, LightColor::White) => assert(a[0] != b[0]),
        (LightColor::White, LightColor::Green) => assert(a[0] != b[0]),
        (LightColor::Blue, LightColor::Black) => assert(a[2] != b[2]),
        (LightColor::Black, LightColor::Blue) => assert(a[2] != b[2]),
        _ => assert(a.len() != b.len() || a[0] != b[0]),
    }
}

/// The music of a level.
#[derive(Clone, Copy, Debug, PartialEq, Eq, Structural)]
pub enum BgmTrack {
    MustntStop,
    Cutscene1Draft,
    LightInTheDark,
    Silent,
}

/// The music of a level, by the first character of its level id: the first two worlds share a
/// track, the third and fourth have their own, and other levels are silent.
pub open spec fn spec_bgm_for(first: char) -> BgmTrack {
    if first == '1' || first == '2' {
        BgmTrack::MustntStop
    } else if first == '3' {
        BgmTrack::Cutscene1Draft
    } else if first == '4' {
        BgmTrack::LightInTheDark
    } else {
        BgmTrack::Silent
    }
}

/// Level `k` is the first level whose id is `current`.
pub open spec fn is_current_level(iids: Seq<String>, current: Seq<char>, k: int) -> bool {
    &&& 0 <= k < iids.len()
    &&& iids[k]@ == current
    &&& forall|j: int| 0 <= j < k ==> (#[trigger] iids[j])@ != current
}

/// The music of the current level: found by its id among the levels, the first match counting.
/// Every level looked at up to the match must have a non-empty level id, and the match's must
/// start with a one-byte character.
pub fn bgm_for_current_level(current: &String, iids: &Vec<String>, level_ids: &Vec<String>) -> (t: BgmTrack)
    requires
        iids.len() == level_ids.len(),
        forall|j: int|
            0 <= j < level_ids.len() && (forall|k: int| 0 <= k < j ==> (#[trigger] iids@[k])@ != current@)
                ==> (#[trigger] level_ids@[j])@.len() > 0,
        forall|k: int| #[trigger] is_current_level(iids@, current@, k) ==> (level_ids@[k]@[0] as int) < 128,
    ensures
        (forall|j: int| 0 <= j < iids.len() ==> (#[trigger] iids@[j])@ != current@) ==> t == BgmTrack::Silent,
        forall|k: int| #[trigger] is_current_level(iids@, current@, k) ==> t == spec_bgm_for(level_ids@[k]@[0]),
{
    let mut i: usize = 0;
    while i < iids.len()
        invariant
            iids.len() == level_ids.len(),
            0 <= i <= iids.len(),
            forall|j: int|
                0 <= j < level_ids.len() && (forall|k: int| 0 <= k < j ==> (#[trigger] iids@[k])@ != current@)
                    ==> (#[trigger] level_ids@[j])@.len() > 0,
            forall|j: int| 0 <= j < i ==> (#[trigger] iids@[j])@ != current@,
        decreases iids.len() - i,
    {
        if iids[i] == *current {
            assert(is_current_level(iids@, current@, i as int));
            assert forall|k: int| #[trigger] is_current_level(iids@, current@, k) implies k == i by {
                if k > i {
                    assert(iids@[i as int]@ == current@);
                }
            }
            let first = level_ids[i].as_str().get_char(0);
            return if first == '1' || first == '2' {
                BgmTrack::MustntStop
            } else if first == '3' {
                BgmTrack::Cutscene1Draft
            } else if first == '4' {
                BgmTrack::LightInTheDark
            } else {
                BgmTrack::Silent
            };
        }
        i = i + 1;
    }
    BgmTrack::Silent
}

/// A level's box in world units: `min_x..=max_x` by `min_y..=max_y`, with y pointing up.
#[derive(Clone, Copy, Debug, PartialEq, Eq, Structural)]
pub struct LevelBox {
    pub min_x: i64,
    pub min_y: i64,
    pub max_x: i64,
    pub max_y: i64,
}

/// The smaller of two integers.
pub open spec fn min(a: int, b: int) -> int {
    if a <= b { a } else { b }
}

/// The larger of two integers.
pub open spec fn max(a: int, b: int) -> int {
    if a <= b { b } else { a }
}

/// The box of a level placed at `world_x`, `world_y` (y pointing down) with the given pixel size,
/// in the game's coordinates where y points up.
pub fn level_box(world_x: i32, world_y: i32, px_wid: i32, px_hei: i32) -> (b: LevelBox)
    ensures
        b.min_x == min(world_x as int, world_x + px_wid),
        b.max_x == max(world_x as int, world_x + px_wid),
        b.min_y == min(-world_y, -world_y - px_hei),
        b.max_y == max(-world_y, -world_y - px_hei),
{
    let x0: i64 = world_x as i64;
    let x1: i64 = world_x as i64 + px_wid as i64;
    let y0: i64 = -(world_y as i64);
    let y1: i64 = -(world_y as i64) - px_hei as i64;
    LevelBox {
        min_x: if x0 <= x1 { x0 } else { x1 },
        max_x: if x0 <= x1 { x1 } else { x0 },
        min_y: if y0 <= y1 { y0 } else { y1 },
        max_y: if y0 <= y1 { y1 } else { y0 },
    }
}

} // verus!
