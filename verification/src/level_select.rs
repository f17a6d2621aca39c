use vstd::prelude::*;

use crate::color::chars_equal;

verus! {

/// The bytes of one pixel of a level preview: red, green, blue, alpha.
pub const PREVIEW_PIXEL_SIZE: usize = 4;

/// The preview color of a terrain cell value, for the sixteen cell values a level can hold.
pub open spec fn spec_preview_color(tile: int) -> Seq<u8> {
    if tile == 1 {
        seq![41u8, 54u8, 78u8, 255u8]
    } else if tile == 2 {
        seq![117u8, 158u8, 202u8, 255u8]
    } else if tile == 3 {
        seq![255u8, 0u8, 68u8, 255u8]
    } else if tile == 4 {
        seq![71u8, 1u8, 19u8, 255u8]
    } else if tile == 5 {
        seq![99u8, 199u8, 77u8, 255u8]
    } else if tile == 6 {
        seq![30u8, 61u8, 23u8, 255u8]
    } else if tile == 7 {
        seq![192u8, 203u8, 220u8, 255u8]
    } else if tile == 8 {
        seq![55u8, 58u8, 62u8, 255u8]
    } else if tile == 9 {
        seq![80u8, 150u8, 230u8, 255u8]
    } else if tile == 10 {
        seq![43u8, 85u8, 136u8, 255u8]
    } else if tile == 15 {
        seq![115u8, 62u8, 57u8, 255u8]
    } else {
        seq![0u8, 0u8, 0u8, 255u8]
    }
}

/// The preview color of a terrain cell value.
pub fn preview_color(tile: i32) -> (c: [u8; 4])
    requires
        0 <= tile < 16,
    ensures
        c@ == spec_preview_color(tile as int),
{
    let c: [u8; 4] = match tile {
        1 => [41, 54, 78, 255],
        2 => [117, 158, 202, 255],
        3 => [255, 0, 68, 255],
        4 => [71, 1, 19, 255],
        5 => [99, 199, 77, 255],
        6 => [30, 61, 23, 255],
        7 => [192, 203, 220, 255],
        8 => [55, 58, 62, 255],
        9 => [80, 150, 230, 255],
        10 => [43, 85, 136, 255],
        15 => [115, 62, 57, 255],
        _ => [0, 0, 0, 255],
    };
    assert(c@ =~= spec_preview_color(tile as int));
    c
}

/// The preview color of a light sensor that toggles crystals of the named color.
pub open spec fn spec_sensor_rgba(name: Seq<char>) -> Seq<u8> {
    if name == "Red"@ {
        seq![255u8, 143u8, 212u8, 255u8]
    } else if name == "Green"@ {
        seq![157u8, 253u8, 148u8, 255u8]
    } else if name == "White"@ {
        seq![229u8, 229u8, 229u8, 255u8]
    } else if name == "Blue"@ {
        seq![143u8, 225u8, 255u8, 255u8]
    } else {
        seq![0u8, 0u8, 0u8, 255u8]
    }
}

/// The preview color of a light sensor that toggles crystals of the named color.
pub fn sensor_color_to_rgba(name: &str) -> (c: [u8; 4])
    ensures
        c@ == spec_sensor_rgba(name@),
{
    let c: [u8; 4] = if chars_equal(name, "Red") {
        [255, 143, 212, 255]
    } else if chars_equal(name, "Green") {
        [157, 253, 148, 255]
    } else if chars_equal(name, "White") {
        [229, 229, 229, 255]
    } else if chars_equal(name, "Blue") {
        [143, 225, 255, 255]
    } else {
        [0, 0, 0, 255]
    };
    assert(c@ =~= spec_sensor_rgba(name@));
    c
}

/// An entity of a level's entity layer, as the level preview sees it.
#[derive(Clone, Debug)]
pub struct PreviewEntity {
    pub identifier: String,
    /// The grid cell of the entity.
    pub grid_x: i32,
    pub grid_y: i32,
    /// The crystal color a sensor toggles, by name.
    pub color: Option<String>,
}

/// The entity is a light sensor.
pub open spec fn is_sensor(e: PreviewEntity) -> bool {
    e.identifier@ == "Sensor"@
}

/// The preview pixel that an entity sits on, in a terrain layer `width` cells wide.
pub open spec fn entity_pixel(e: PreviewEntity, width: int) -> int {
    e.grid_y * width + e.grid_x
}

/// The color of preview pixel `p` once the first `n` entities are drawn over the terrain: the
/// last sensor drawn on the pixel gives its color, else the terrain cell does.
pub open spec fn preview_pixel(
    tiles: Seq<i32>,
    width: int,
    entities: Seq<PreviewEntity>,
    p: int,
    n: int,
) -> Seq<u8>
    decreases n,
{
    if n <= 0 {
        spec_preview_color(tiles[p] as int)
    } else if is_sensor(entities[n - 1]) && entity_pixel(entities[n - 1], width) == p {
        match entities[n - 1].color {
            Some(name) => spec_sensor_rgba(name@),
            None => spec_sensor_rgba(Seq::empty()),
        }
    } else {
        preview_pixel(tiles, width, entities, p, n - 1)
    }
}

/// What a level must hold for its preview to be drawn: known terrain cell values, and every
/// sensor with a color and on a cell of the terrain.
pub open spec fn previewable(tiles: Seq<i32>, width: int, entities: Seq<PreviewEntity>) -> bool {
    &&& forall|p: int| 0 <= p < tiles.len() ==> 0 <= #[trigger] tiles[p] < 16
    &&& forall|j: int|
        0 <= j < entities.len() && #[trigger] is_sensor(entities[j]) ==> {
            &&& entities[j].color is Some
            &&& 0 <= entities[j].grid_x
            &&& 0 <= entities[j].grid_y
            &&& entity_pixel(entities[j], width) < tiles.len()
        }
}

/// The pixels of a level's preview image: one pixel per terrain cell, colored by its value, with
/// each light sensor drawn over its cell in the color of the crystals it toggles.
pub fn level_preview_pixels(width: usize, tiles: &Vec<i32>, entities: &Vec<PreviewEntity>) -> (data:
    Vec<u8>)
    requires
        previewable(tiles@, width as int, entities@),
        tiles.len() * PREVIEW_PIXEL_SIZE <= usize::MAX,
    ensures
        data.len() == tiles.len() * PREVIEW_PIXEL_SIZE,
        forall|p: int, ch: int|
            0 <= p < tiles.len() && 0 <= ch < 4 ==> #[trigger] data@[p * 4 + ch] == preview_pixel(
                tiles@,
                width as int,
                entities@,
                p,
                entities.len() as int,
            )[ch],
{
    let n = tiles.len();
    let mut data: Vec<u8> = Vec::new();
    let mut k: usize = 0;
    while k < n
        invariant
            n == tiles.len(),
            n * 4 <= usize::MAX,
            0 <= k <= n,
            data.len() == k * 4,
            forall|p: int| 0 <= p < n ==> 0 <= #[trigger] tiles@[p] < 16,
            forall|p: int, ch: int|
                0 <= p < k && 0 <= ch < 4 ==> #[trigger] data@[p * 4 + ch] == spec_preview_color(
                    tiles@[p] as int,
                )[ch],
        decreases n - k,
    {
        let c = preview_color(tiles[k]);
        let ghost before = data@;
        data.push(c[0]);
        data.push(c[1]);
        data.push(c[2]);
        data.push(c[3]);
        assert forall|p: int, ch: int| 0 <= p < k + 1 && 0 <= ch < 4 implies #[trigger] data@[p * 4
            + ch] == spec_preview_color(tiles@[p] as int)[ch] by {
            if p < k {
                assert(data@[p * 4 + ch] == before[p * 4 + ch]);
            } else {
                assert(p * 4 + ch == k * 4 + ch);
            }
        }
        k = k + 1;
    }
    let m = entities.len();
    let mut j: usize = 0;
    while j < m
        invariant
            n == tiles.len(),
            m == entities.len(),
            n * 4 <= usize::MAX,
            0 <= j <= m,
            data.len() == n * 4,
            previewable(tiles@, width as int, entities@),
            forall|p: int, ch: int|
                0 <= p < n && 0 <= ch < 4 ==> #[trigger] data@[p * 4 + ch] == preview_pixel(
                    tiles@,
                    width as int,
                    entities@,
                    p,
                    j as int,
                )[ch],
        decreases m - j,
    {
        let e = &entities[j];
        let ghost before = data@;
        if chars_equal(e.identifier.as_str(), "Sensor") {
            assert(is_sensor(entities@[j as int]));
            let x = e.grid_x as usize;
            let y = e.grid_y as usize;
            assert(y * width + x < n) by {
                assert(entity_pixel(entities@[j as int], width as int) < n);
            }
            assert(y * width <= n) by (nonlinear_arith)
                requires
                    y * width + x < n,
                    x >= 0,
            ;
            let pixel = y * width + x;
            let idx = pixel * 4;
            let rgba = match &e.color {
                Some(name) => sensor_color_to_rgba(name.as_str()),
                None => sensor_color_to_rgba(""),
            };
            data.set(idx, rgba[0]);
            data.set(idx + 1, rgba[1]);
            data.set(idx + 2, rgba[2]);
            data.set(idx + 3, rgba[3]);
            assert forall|p: int, ch: int| 0 <= p < n && 0 <= ch < 4 implies #[trigger] data@[p * 4
                + ch] == preview_pixel(tiles@, width as int, entities@, p, j + 1)[ch] by {
                if p == pixel {
                    assert(p * 4 + ch == idx + ch);
                } else {
                    assert(p * 4 + ch != idx && p * 4 + ch != idx + 1 && p * 4 + ch != idx + 2
                        && p * 4 + ch != idx + 3);
                    assert(data@[p * 4 + ch] == before[p * 4 + ch]);
                }
            }
        }
        j = j + 1;
    }
    data
}

/// An entity of a level's entity layer, as the level selection sees it.
#[derive(Clone, Debug)]
pub struct FlagEntity {
    pub identifier: String,
    /// The entity's position in the world, when the world is laid out freely.
    pub world: Option<(i32, i32)>,
}

/// A layer of a level: whether it is an entity layer, and its entities.
#[derive(Clone, Debug)]
pub struct FlagLayer {
    pub is_entity_layer: bool,
    pub entities: Vec<FlagEntity>,
}

/// The entity is the level's start flag.
pub open spec fn is_start_flag(e: FlagEntity) -> bool {
    e.identifier@ == "Start"@
}

/// Entity `j` of layer `i` is a start flag of an entity layer.
pub open spec fn is_flag_at(layers: Seq<FlagLayer>, i: int, j: int) -> bool {
    &&& 0 <= i < layers.len()
    &&& layers[i].is_entity_layer
    &&& 0 <= j < layers[i].entities.len()
    &&& is_start_flag(layers[i].entities@[j])
}

/// The flag at layer `i`, entity `j`, comes before every other flag, layer by layer.
pub open spec fn is_first_flag(layers: Seq<FlagLayer>, i: int, j: int) -> bool {
    &&& is_flag_at(layers, i, j)
    &&& forall|a: int, b: int|
        #![trigger is_flag_at(layers, a, b)]
        is_flag_at(layers, a, b) ==> a > i || (a == i && b >= j)
}

/// Where the selected level starts: the position of its first start flag, searching the entity
/// layers in order; `None` when it has none.
pub fn find_start_flag(layers: &Vec<FlagLayer>) -> (pos: Option<(i32, i32)>)
    requires
        forall|i: int, j: int|
            #![trigger is_first_flag(layers@, i, j)]
            is_first_flag(layers@, i, j) ==> layers@[i].entities@[j].world is Some,
    ensures
        pos is None <==> forall|i: int, j: int| !#[trigger] is_flag_at(layers@, i, j),
        pos is Some ==> exists|i: int, j: int|
            #[trigger] is_first_flag(layers@, i, j) && pos == layers@[i].entities@[j].world,
{
    let mut i: usize = 0;
    while i < layers.len()
        invariant
            0 <= i <= layers.len(),
            forall|a: int, b: int|
                #![trigger is_flag_at(layers@, a, b)]
                is_flag_at(layers@, a, b) ==> a >= i,
            forall|a: int, b: int|
                #![trigger is_first_flag(layers@, a, b)]
                is_first_flag(layers@, a, b) ==> layers@[a].entities@[b].world is Some,
        decreases layers.len() - i,
    {
        let layer = &layers[i];
        if layer.is_entity_layer {
            let mut j: usize = 0;
            while j < layer.entities.len()
                invariant
                    0 <= i < layers.len(),
                    *layer == layers@[i as int],
                    layer.is_entity_layer,
                    0 <= j <= layer.entities.len(),
                    forall|a: int, b: int|
                        #![trigger is_flag_at(layers@, a, b)]
                        is_flag_at(layers@, a, b) ==> a > i || (a == i && b >= j),
                    forall|a: int, b: int|
                        #![trigger is_first_flag(layers@, a, b)]
                        is_first_flag(layers@, a, b) ==> layers@[a].entities@[b].world is Some,
                decreases layer.entities.len() - j,
            {
                if chars_equal(layer.entities[j].identifier.as_str(), "Start") {
                    assert(is_flag_at(layers@, i as int, j as int));
                    assert(is_first_flag(layers@, i as int, j as int));
                    return layer.entities[j].world;
                }
                assert(!is_flag_at(layers@, i as int, j as int));
                j = j + 1;
            }
        } else {
            assert forall|b: int| !is_flag_at(layers@, i as int, b) by {}
        }
        i = i + 1;
    }
    None
}

/// Lexicographic order on character sequences. Strings compare by their UTF-8 bytes, and that
/// order agrees with this one.
pub open spec fn chars_lt(a: Seq<char>, b: Seq<char>) -> bool
    decreases a.len(),
{
    if b.len() == 0 {
        false
    } else if a.len() == 0 {
        true
    } else if a[0] != b[0] {
        (a[0] as int) < (b[0] as int)
    } else {
        chars_lt(a.drop_first(), b.drop_first())
    }
}

proof fn lemma_chars_lt_transitive(a: Seq<char>, b: Seq<char>, c: Seq<char>)
    requires
        chars_lt(a, b),
        chars_lt(b, c),
    ensures
        chars_lt(a, c),
    decreases a.len(),
{
    if a.len() > 0 && b.len() > 0 && c.len() > 0 && a[0] == b[0] && b[0] == c[0] {
        lemma_chars_lt_transitive(a.drop_first(), b.drop_first(), c.drop_first());
    }
}

proof fn lemma_chars_lt_total(a: Seq<char>, b: Seq<char>)
    requires
        a != b,
    ensures
        chars_lt(a, b) || chars_lt(b, a),
    decreases a.len(),
{
    if a.len() == 0 && b.len() == 0 {
        assert(a =~= b);
    } else if a.len() > 0 && b.len() > 0 && a[0] == b[0] {
        if a.drop_first() == b.drop_first() {
            assert(a =~= seq![a[0]] + a.drop_first());
            assert(b =~= seq![b[0]] + b.drop_first());
        }
        lemma_chars_lt_total(a.drop_first(), b.drop_first());
    } else if a.len() > 0 && b.len() > 0 {
        assert((a[0] as int) != (b[0] as int));
    }
}

/// Whether `a` comes before `b` in lexicographic order.
pub fn str_lt(a: &str, b: &str) -> (lt: bool)
    ensures
        lt == chars_lt(a@, b@),
{
    let n = a.unicode_len();
    let m = b.unicode_len();
    let mut i: usize = 0;
    assert(a@.skip(0) =~= a@);
    assert(b@.skip(0) =~= b@);
    while i < n && i < m
        invariant
            n == a@.len(),
            m == b@.len(),
            0 <= i <= n,
            i <= m,
            chars_lt(a@, b@) == chars_lt(a@.skip(i as int), b@.skip(i as int)),
        decreases n - i,
    {
        let ca = a.get_char(i);
        let cb = b.get_char(i);
        assert(a@.skip(i as int)[0] == ca);
        assert(b@.skip(i as int)[0] == cb);
        if ca != cb {
            return (ca as u32) < (cb as u32);
        }
        assert(a@.skip(i as int).drop_first() =~= a@.skip(i + 1));
        assert(b@.skip(i as int).drop_first() =~= b@.skip(i + 1));
        i = i + 1;
    }
    assert(b@.skip(i as int).len() == m - i);
    assert(a@.skip(i as int).len() == n - i);
    i < m
}

/// Level button `x` comes before level button `y`: by level id, then by position in the project.
pub open spec fn button_before(ids: Seq<String>, x: int, y: int) -> bool {
    chars_lt(ids[x]@, ids[y]@) || (ids[x]@ == ids[y]@ && x < y)
}

proof fn lemma_button_before_transitive(ids: Seq<String>, x: int, y: int, z: int)
    requires
        button_before(ids, x, y),
        button_before(ids, y, z),
    ensures
        button_before(ids, x, z),
{
    if chars_lt(ids[x]@, ids[y]@) && chars_lt(ids[y]@, ids[z]@) {
        lemma_chars_lt_transitive(ids[x]@, ids[y]@, ids[z]@);
    }
}

/// The order of the level buttons on the level select screen: every level once, sorted by level
/// id, levels with the same id in project order.
pub fn level_button_order(ids: &Vec<String>) -> (order: Vec<usize>)
    requires
        forall|i: int| 0 <= i < ids.len() ==> #[trigger] ids@[i]@.len() > 0,
    ensures
        order.len() == ids.len(),
        forall|k: int| 0 <= k < order.len() ==> #[trigger] order@[k] < ids.len(),
        forall|x: usize| x < ids.len() ==> #[trigger] order@.contains(x),
        forall|a: int, b: int|
            0 <= a < b < order.len() ==> #[trigger] button_before(ids@, order@[a] as int, order@[b] as int),
{
    let n = ids.len();
    let mut order: Vec<usize> = Vec::new();
    let mut i: usize = 0;
    while i < n
        invariant
            n == ids.len(),
            0 <= i <= n,
            order.len() == i,
            forall|k: int| 0 <= k < order.len() ==> #[trigger] order@[k] < i,
            forall|x: usize| x < i ==> #[trigger] order@.contains(x),
            forall|a: int, b: int|
                0 <= a < b < order.len() ==> #[trigger] button_before(ids@, order@[a] as int, order@[b] as int),
        decreases n - i,
    {
        let mut pos: usize = 0;
        while pos < order.len() && !str_lt(ids[i].as_str(), ids[order[pos]].as_str())
            invariant
                n == ids.len(),
                0 <= i < n,
                order.len() == i,
                0 <= pos <= order.len(),
                forall|k: int| 0 <= k < order.len() ==> #[trigger] order@[k] < i,
                forall|a: int| 0 <= a < pos ==> !chars_lt(ids@[i as int]@, #[trigger] ids@[order@[a] as int]@),
            decreases order.len() - pos,
        {
            pos = pos + 1;
        }
        let ghost old_order = order@;
        proof {
            assert forall|a: int| 0 <= a < pos implies button_before(ids@, #[trigger] old_order[a] as int, i as int) by {
                let x = old_order[a] as int;
                if ids@[x]@ != ids@[i as int]@ {
                    lemma_chars_lt_total(ids@[x]@, ids@[i as int]@);
                }
            }
            if pos < old_order.len() {
                assert(chars_lt(ids@[i as int]@, ids@[old_order[pos as int] as int]@));
                assert forall|b: int| pos <= b < old_order.len() implies button_before(ids@, i as int, #[trigger] old_order[b] as int) by {
                    if b > pos {
                        lemma_button_before_transitive(ids@, i as int, old_order[pos as int] as int, old_order[b] as int);
                    }
                }
            }
        }
        order.insert(pos, i);
        proof {
            assert forall|a: int, b: int| 0 <= a < b < order.len() implies #[trigger] button_before(ids@, order@[a] as int, order@[b] as int) by {
                if b < pos {
                    assert(order@[a] == old_order[a] && order@[b] == old_order[b]);
                } else if b == pos {
                    assert(order@[a] == old_order[a]);
                } else if a < pos {
                    assert(order@[a] == old_order[a] && order@[b] == old_order[b - 1]);
                    assert(button_before(ids@, old_order[a] as int, i as int));
                    assert(button_before(ids@, i as int, old_order[b - 1] as int));
                    lemma_button_before_transitive(ids@, old_order[a] as int, i as int, old_order[b - 1] as int);
                } else if a == pos {
                    assert(order@[b] == old_order[b - 1]);
                } else {
                    assert(order@[a] == old_order[a - 1] && order@[b] == old_order[b - 1]);
                }
            }
            assert forall|x: usize| x < i + 1 implies #[trigger] order@.contains(x) by {
                if x == i {
                    assert(order@[pos as int] == x);
                } else {
                    assert(old_order.contains(x));
                    let k = choose|k: int| 0 <= k < old_order.len() && #[trigger] old_order[k] == x;
                    if k < pos {
                        assert(order@[k] == x);
                    } else {
                        assert(order@[k + 1] == x);
                    }
                }
            }
        }
        i = i + 1;
    }
    order
}

} // verus!
