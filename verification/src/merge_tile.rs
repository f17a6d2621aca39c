use vstd::prelude::*;

verus! {

/// A tile position on a level's integer grid.
#[derive(Clone, Copy, Debug, PartialEq, Eq, Structural, Hash)]
pub struct GridCoords {
    pub x: i32,
    pub y: i32,
}

/// A maximal horizontal run of tiles inside one row, from `left` to `right` inclusive.
#[derive(Clone, Copy, Debug, PartialEq, Eq, Structural, Hash)]
pub struct Plate {
    pub left: i32,
    pub right: i32,
}

/// A rectangle of tiles: columns `left..=right`, rows `bottom..=top`.
#[derive(Clone, Copy, Debug, PartialEq, Eq, Structural, Hash)]
pub struct Rect {
    pub left: i32,
    pub right: i32,
    pub top: i32,
    pub bottom: i32,
}

/// The tile set holds a tile at `(x, y)`.
pub open spec fn has_tile(tiles: Seq<GridCoords>, x: int, y: int) -> bool {
    exists|i: int| 0 <= i < tiles.len() && #[trigger] tiles[i].x == x && tiles[i].y == y
}

/// `left..=right` is a maximal run of tiles in row `y` that ends before column `width`.
///
/// Columns are scanned from `0` through `width`, so a run that still continues at column
/// `width` is never closed and does not count as a plate.
pub open spec fn is_plate(tiles: Seq<GridCoords>, width: int, y: int, left: int, right: int) -> bool {
    &&& 0 <= left <= right < width
    &&& forall|x: int| left <= x <= right ==> #[trigger] has_tile(tiles, x, y)
    &&& (left == 0 || !has_tile(tiles, left - 1, y))
    &&& !has_tile(tiles, right + 1, y)
}

/// `row` lists exactly the plates of row `y`, from left to right.
pub open spec fn is_row_of_plates(tiles: Seq<GridCoords>, width: int, y: int, row: Seq<Plate>) -> bool {
    &&& forall|i: int| 0 <= i < row.len() ==> is_plate(tiles, width, y, (#[trigger] row[i]).left as int, row[i].right as int)
    &&& forall|l: int, r: int| #[trigger] is_plate(tiles, width, y, l, r) ==>
        exists|i: int| 0 <= i < row.len() && #[trigger] row[i].left == l && row[i].right == r
    &&& forall|i: int, j: int| 0 <= i < j < row.len() ==> #[trigger] row[i].right + 1 < #[trigger] row[j].left
}

/// The rectangle with columns `left..=right` and rows `bottom..=top` is a maximal vertical stack
/// of identical plates among the rows `0..height`.
pub open spec fn is_merged_rect(
    tiles: Seq<GridCoords>,
    width: int,
    height: int,
    left: int,
    right: int,
    bottom: int,
    top: int,
) -> bool {
    &&& 0 <= bottom <= top < height
    &&& forall|y: int| bottom <= y <= top ==> #[trigger] is_plate(tiles, width, y, left, right)
    &&& (bottom == 0 || !is_plate(tiles, width, bottom - 1, left, right))
    &&& (top + 1 == height || !is_plate(tiles, width, top + 1, left, right))
}

/// `a` comes before `b`: a lower top row, or the same top row and a smaller left column.
pub open spec fn rect_precedes(a: Rect, b: Rect) -> bool {
    a.top < b.top || (a.top == b.top && a.left < b.left)
}

/// Whether `tiles` holds the tile `(x, y)`.
pub fn contains_tile(tiles: &Vec<GridCoords>, x: i32, y: i32) -> (found: bool)
    ensures
        found == has_tile(tiles@, x as int, y as int),
{
    let mut i: usize = 0;
    while i < tiles.len()
        invariant
            0 <= i <= tiles.len(),
            forall|k: int| 0 <= k < i ==> !(#[trigger] tiles@[k].x == x && tiles@[k].y == y),
        decreases tiles.len() - i,
    {
        if tiles[i].x == x && tiles[i].y == y {
            return true;
        }
        i += 1;
    }
    false
}

fn contains_plate(row: &Vec<Plate>, plate: Plate) -> (found: Option<usize>)
    ensures
        match found {
            Some(k) => k < row.len() && row@[k as int] == plate,
            None => forall|k: int| 0 <= k < row.len() ==> #[trigger] row@[k] != plate,
        },
{
    let mut i: usize = 0;
    while i < row.len()
        invariant
            0 <= i <= row.len(),
            forall|k: int| 0 <= k < i ==> #[trigger] row@[k] != plate,
        decreases row.len() - i,
    {
        if row[i].left == plate.left && row[i].right == plate.right {
            return Some(i);
        }
        i += 1;
    }
    None
}

proof fn lemma_plate_start_unique(tiles: Seq<GridCoords>, y: int, s: int, l: int, end: int)
    requires
        0 <= s,
        0 <= l,
        forall|z: int| s <= z < end ==> #[trigger] has_tile(tiles, z, y),
        s == 0 || !has_tile(tiles, s - 1, y),
        forall|z: int| l <= z < end ==> #[trigger] has_tile(tiles, z, y),
        l == 0 || !has_tile(tiles, l - 1, y),
        s < end,
        l < end,
    ensures
        s == l,
{
    if l < s {
        assert(has_tile(tiles, s - 1, y));
    }
    if s < l {
        assert(has_tile(tiles, l - 1, y));
    }
}

/// The plates of row `y`: maximal runs of tiles scanned over the columns `0..=width`.
pub fn row_plates(width: i32, y: i32, tiles: &Vec<GridCoords>) -> (row: Vec<Plate>)
    requires
        width < i32::MAX,
    ensures
        is_row_of_plates(tiles@, width as int, y as int, row@),
{
    let ghost t = tiles@;
    let mut row: Vec<Plate> = Vec::new();
    let mut plate_start: Option<i32> = None;
    let mut x: i32 = 0;
    while x < width + 1
        invariant
            width < i32::MAX,
            t == tiles@,
            0 <= x,
            x == 0 || x <= width + 1,
            match plate_start {
                Some(s) => {
                    &&& 0 <= s < x
                    &&& forall|z: int| s <= z < x ==> #[trigger] has_tile(t, z, y as int)
                    &&& (s == 0 || !has_tile(t, s - 1, y as int))
                    &&& forall|i: int| 0 <= i < row.len() ==> #[trigger] row@[i].right + 1 < s
                },
                None => x == 0 || !has_tile(t, x - 1, y as int),
            },
            forall|i: int| 0 <= i < row.len() ==> is_plate(t, width as int, y as int, (#[trigger] row@[i]).left as int, row@[i].right as int),
            forall|i: int| 0 <= i < row.len() ==> #[trigger] row@[i].right + 1 < x,
            forall|l: int, r: int| #[trigger] is_plate(t, width as int, y as int, l, r) && r + 1 < x ==>
                exists|i: int| 0 <= i < row.len() && #[trigger] row@[i].left == l && row@[i].right == r,
            forall|i: int, j: int| 0 <= i < j < row.len() ==> #[trigger] row@[i].right + 1 < #[trigger] row@[j].left,
        decreases width + 1 - x,
    {
        let here = contains_tile(tiles, x, y);
        let ghost old_row = row@;
        match plate_start {
            Some(s) => {
                if !here {
                    let p = Plate { left: s, right: x - 1 };
                    row.push(p);
                    plate_start = None;
                    assert(is_plate(t, width as int, y as int, s as int, x - 1));
                    assert(row@[row@.len() - 1] == p);
                    assert forall|l: int, r: int| #[trigger] is_plate(t, width as int, y as int, l, r) && r + 1 < x + 1 implies
                        exists|i: int| 0 <= i < row.len() && #[trigger] row@[i].left == l && row@[i].right == r by {
                        if r + 1 < x {
                            let i = choose|i: int| 0 <= i < old_row.len() && #[trigger] old_row[i].left == l && old_row[i].right == r;
                            assert(row@[i] == old_row[i]);
                        } else {
                            lemma_plate_start_unique(t, y as int, s as int, l, x as int);
                            assert(row@[row@.len() - 1].left == l);
                        }
                    }
                }
            },
            None => {
                if here {
                    plate_start = Some(x);
                }
                assert forall|l: int, r: int| #[trigger] is_plate(t, width as int, y as int, l, r) && r + 1 < x + 1 implies
                    exists|i: int| 0 <= i < row.len() && #[trigger] row@[i].left == l && row@[i].right == r by {
                    if r + 1 == x {
                        assert(has_tile(t, r, y as int));
                    }
                }
            },
        }
        x += 1;
    }
    row
}

/// Merges the tiles of a `width` by `height` level into rectangles.
///
/// Each row is split into plates (maximal horizontal runs); identical plates in consecutive
/// rows are stacked into one rectangle. The rectangles come out ordered by their top row, then
/// by their left column.
pub fn build_rects_by_row(width: i32, height: i32, tiles: &Vec<GridCoords>) -> (rects: Vec<Rect>)
    requires
        width < i32::MAX,
        height < i32::MAX,
    ensures
        forall|i: int| 0 <= i < rects.len() ==> is_merged_rect(
            tiles@, width as int, height as int,
            (#[trigger] rects@[i]).left as int, rects@[i].right as int, rects@[i].bottom as int, rects@[i].top as int,
        ),
        forall|l: int, r: int, b: int, t: int|
            #[trigger] is_merged_rect(tiles@, width as int, height as int, l, r, b, t) ==>
            exists|i: int| 0 <= i < rects.len() && #[trigger] rects@[i] == (Rect { left: l as i32, right: r as i32, top: t as i32, bottom: b as i32 }),
        forall|i: int, j: int| 0 <= i < j < rects.len() ==> rect_precedes(#[trigger] rects@[i], #[trigger] rects@[j]),
        is_rect_merge(tiles@, width as int, height as int, rects@),
{
    let ghost ts = tiles@;
    let ghost w = width as int;
    let ghost h = height as int;
    let last_row: i32 = if height > 0 { height } else { 0 };
    let mut rects: Vec<Rect> = Vec::new();
    let mut prev_row: Vec<Plate> = Vec::new();
    let mut open: Vec<Rect> = Vec::new();
    let mut y: i32 = 0;
    while y <= last_row
        invariant
            width < i32::MAX,
            height < i32::MAX,
            ts == tiles@,
            w == width as int,
            h == height as int,
            last_row == (if height > 0 { height } else { 0 }),
            0 <= y <= last_row + 1,
            y == 0 ==> prev_row.len() == 0,
            y > 0 && y - 1 < height ==> is_row_of_plates(ts, w, y - 1, prev_row@),
            y > 0 && y - 1 >= height ==> prev_row.len() == 0,
            open.len() == prev_row.len(),
            forall|i: int| 0 <= i < open.len() ==> {
                &&& (#[trigger] open@[i]).left == prev_row@[i].left
                &&& open@[i].right == prev_row@[i].right
                &&& open@[i].top == y - 1
                &&& 0 <= open@[i].bottom <= y - 1
                &&& forall|yy: int| open@[i].bottom <= yy <= y - 1 ==> #[trigger] is_plate(ts, w, yy, prev_row@[i].left as int, prev_row@[i].right as int)
                &&& (open@[i].bottom == 0 || !is_plate(ts, w, open@[i].bottom - 1, prev_row@[i].left as int, prev_row@[i].right as int))
            },
            forall|i: int| 0 <= i < rects.len() ==> is_merged_rect(
                ts, w, h,
                (#[trigger] rects@[i]).left as int, rects@[i].right as int, rects@[i].bottom as int, rects@[i].top as int,
            ),
            forall|i: int| 0 <= i < rects.len() ==> #[trigger] rects@[i].top < y - 1,
            forall|l: int, r: int, b: int, t: int|
                #[trigger] is_merged_rect(ts, w, h, l, r, b, t) && t < y - 1 ==>
                exists|i: int| 0 <= i < rects.len() && #[trigger] rects@[i] == (Rect { left: l as i32, right: r as i32, top: t as i32, bottom: b as i32 }),
            forall|i: int, j: int| 0 <= i < j < rects.len() ==> rect_precedes(#[trigger] rects@[i], #[trigger] rects@[j]),
        decreases last_row + 1 - y,
    {
        // an extra empty row at the top closes the rects that touch the top edge
        let current_row: Vec<Plate> = if y < height { row_plates(width, y, tiles) } else { Vec::new() };
        let ghost rects_before = rects@;

        // close every rect whose plate does not continue into this row
        let mut i: usize = 0;
        while i < prev_row.len()
            invariant
                ts == tiles@,
                w == width as int,
                h == height as int,
                0 <= y,
                y > 0 ==> y - 1 < height,
                y == 0 ==> prev_row.len() == 0,
                y > 0 ==> is_row_of_plates(ts, w, y - 1, prev_row@),
                y < height ==> is_row_of_plates(ts, w, y as int, current_row@),
                y >= height ==> current_row.len() == 0,
                0 <= i <= prev_row.len(),
                open.len() == prev_row.len(),
                forall|k: int| 0 <= k < open.len() ==> {
                    &&& (#[trigger] open@[k]).left == prev_row@[k].left
                    &&& open@[k].right == prev_row@[k].right
                    &&& open@[k].top == y - 1
                    &&& 0 <= open@[k].bottom <= y - 1
                    &&& forall|yy: int| open@[k].bottom <= yy <= y - 1 ==> #[trigger] is_plate(ts, w, yy, prev_row@[k].left as int, prev_row@[k].right as int)
                    &&& (open@[k].bottom == 0 || !is_plate(ts, w, open@[k].bottom - 1, prev_row@[k].left as int, prev_row@[k].right as int))
                },
                rects_before.len() <= rects.len(),
                forall|k: int| 0 <= k < rects_before.len() ==> #[trigger] rects@[k] == rects_before[k],
                forall|k: int| 0 <= k < rects.len() ==> is_merged_rect(
                    ts, w, h,
                    (#[trigger] rects@[k]).left as int, rects@[k].right as int, rects@[k].bottom as int, rects@[k].top as int,
                ),
                forall|k: int| 0 <= k < rects.len() ==> #[trigger] rects@[k].top <= y - 1,
                forall|k: int| 0 <= k < rects_before.len() ==> #[trigger] rects@[k].top < y - 1,
                forall|k: int| 0 <= k < rects.len() && rects@[k].top == y - 1 && i < prev_row.len() ==> #[trigger] rects@[k].left < prev_row@[i as int].left,
                forall|l: int, r: int, b: int, t: int|
                    #[trigger] is_merged_rect(ts, w, h, l, r, b, t) && t < y - 1 ==>
                    exists|k: int| 0 <= k < rects.len() && #[trigger] rects@[k] == (Rect { left: l as i32, right: r as i32, top: t as i32, bottom: b as i32 }),
                forall|p: int, b: int|
                    0 <= p < i && #[trigger] is_merged_rect(ts, w, h, prev_row@[p].left as int, prev_row@[p].right as int, b, y - 1) ==>
                    exists|k: int| 0 <= k < rects.len() && #[trigger] rects@[k] == (Rect { left: prev_row@[p].left, right: prev_row@[p].right, top: (y - 1) as i32, bottom: b as i32 }),
                forall|k1: int, k2: int| 0 <= k1 < k2 < rects.len() ==> rect_precedes(#[trigger] rects@[k1], #[trigger] rects@[k2]),
            decreases prev_row.len() - i,
        {
            let prev_plate = prev_row[i];
            let found = contains_plate(&current_row, prev_plate);
            let ghost rects_mid = rects@;
            if found.is_none() {
                let rect = open[i];
                proof {
                    let pl = prev_row@[i as int];
                    assert(open@[i as int] == rect);
                    if y < height {
                        if is_plate(ts, w, y as int, pl.left as int, pl.right as int) {
                            let j = choose|j: int| 0 <= j < current_row@.len() && #[trigger] current_row@[j].left == pl.left as int && current_row@[j].right == pl.right as int;
                            assert(current_row@[j] == prev_plate);
                        }
                    }
                    assert(is_plate(ts, w, y - 1, pl.left as int, pl.right as int));
                    assert(is_merged_rect(ts, w, h, rect.left as int, rect.right as int, rect.bottom as int, rect.top as int));
                    if i + 1 < prev_row.len() {
                        assert(prev_row@[i as int].right + 1 < prev_row@[i + 1].left);
                    }
                }
                rects.push(rect);
                proof {
                    assert(rects@[rects@.len() - 1] == rect);
                    assert forall|l: int, r: int, b: int, t: int|
                        #[trigger] is_merged_rect(ts, w, h, l, r, b, t) && t < y - 1 implies
                        exists|k: int| 0 <= k < rects.len() && #[trigger] rects@[k] == (Rect { left: l as i32, right: r as i32, top: t as i32, bottom: b as i32 }) by {
                        let k = choose|k: int| 0 <= k < rects_mid.len() && #[trigger] rects_mid[k] == (Rect { left: l as i32, right: r as i32, top: t as i32, bottom: b as i32 });
                        assert(rects@[k] == rects_mid[k]);
                    }
                    assert forall|k1: int, k2: int| 0 <= k1 < k2 < rects.len() implies rect_precedes(#[trigger] rects@[k1], #[trigger] rects@[k2]) by {
                        if k2 == rects.len() - 1 {
                            assert(rects@[k1] == rects_mid[k1]);
                        } else {
                            assert(rects@[k1] == rects_mid[k1]);
                            assert(rects@[k2] == rects_mid[k2]);
                        }
                    }
                }
            } else {
                proof {
                    let j = found.unwrap();
                    if y >= height {
                        assert(current_row@.len() == 0);
                    }
                    if i + 1 < prev_row.len() {
                        assert(prev_row@[i as int].right + 1 < prev_row@[i + 1].left);
                    }
                }
            }
            proof {
                assert forall|k: int| 0 <= k < rects.len() && rects@[k].top == y - 1 && i + 1 < prev_row.len() implies #[trigger] rects@[k].left < prev_row@[i + 1].left by {
                    assert(prev_row@[i as int].right + 1 < prev_row@[i + 1].left);
                    assert(prev_row@[i as int].left <= prev_row@[i as int].right) by {
                        assert(is_plate(ts, w, y - 1, prev_row@[i as int].left as int, prev_row@[i as int].right as int));
                    }
                    if k < rects_mid.len() {
                        assert(rects@[k] == rects_mid[k]);
                    }
                }
                assert forall|p: int, b: int|
                    0 <= p < i + 1 && #[trigger] is_merged_rect(ts, w, h, prev_row@[p].left as int, prev_row@[p].right as int, b, y - 1) implies
                    exists|k: int| 0 <= k < rects.len() && #[trigger] rects@[k] == (Rect { left: prev_row@[p].left, right: prev_row@[p].right, top: (y - 1) as i32, bottom: b as i32 }) by {
                    let l = prev_row@[p].left as int;
                    let r = prev_row@[p].right as int;
                    if p < i {
                        let k = choose|k: int| 0 <= k < rects_mid.len() && #[trigger] rects_mid[k] == (Rect { left: prev_row@[p].left, right: prev_row@[p].right, top: (y - 1) as i32, bottom: b as i32 });
                        assert(rects@[k] == rects_mid[k]);
                    } else {
                        let o = open@[i as int];
                        // the plate continues up to row y - 1 from both bottoms, so they agree
                        if b < o.bottom {
                            assert(is_plate(ts, w, o.bottom - 1, l, r));
                        }
                        if o.bottom < b {
                            assert(is_plate(ts, w, b - 1, l, r));
                        }
                        if y < height {
                            if found.is_some() {
                                let j = found.unwrap();
                                assert(current_row@[j as int] == prev_plate);
                                assert(is_plate(ts, w, y as int, current_row@[j as int].left as int, current_row@[j as int].right as int));
                            }
                        } else {
                            assert(current_row@.len() == 0);
                        }
                        assert(rects@[rects@.len() - 1] == o);
                    }
                }
            }
            i += 1;
        }

        proof {
            assert forall|l: int, r: int, b: int, t: int|
                #[trigger] is_merged_rect(ts, w, h, l, r, b, t) && t < y implies
                exists|k: int| 0 <= k < rects.len() && #[trigger] rects@[k] == (Rect { left: l as i32, right: r as i32, top: t as i32, bottom: b as i32 }) by {
                if t == y - 1 {
                    assert(is_plate(ts, w, t, l, r));
                    let p = choose|p: int| 0 <= p < prev_row@.len() && #[trigger] prev_row@[p].left == l && prev_row@[p].right == r;
                    assert(0 <= p < i);
                    assert(is_merged_rect(ts, w, h, prev_row@[p].left as int, prev_row@[p].right as int, b, y - 1));
                }
            }
        }

        // extend the rects whose plate continues, and open new ones
        let mut new_open: Vec<Rect> = Vec::new();
        let mut j: usize = 0;
        while j < current_row.len()
            invariant
                ts == tiles@,
                w == width as int,
                h == height as int,
                0 <= y,
                y < i32::MAX,
                y == 0 ==> prev_row.len() == 0,
                y > 0 ==> is_row_of_plates(ts, w, y - 1, prev_row@),
                y < height ==> is_row_of_plates(ts, w, y as int, current_row@),
                y >= height ==> current_row.len() == 0,
                open.len() == prev_row.len(),
                forall|k: int| 0 <= k < open.len() ==> {
                    &&& (#[trigger] open@[k]).left == prev_row@[k].left
                    &&& open@[k].right == prev_row@[k].right
                    &&& open@[k].top == y - 1
                    &&& 0 <= open@[k].bottom <= y - 1
                    &&& forall|yy: int| open@[k].bottom <= yy <= y - 1 ==> #[trigger] is_plate(ts, w, yy, prev_row@[k].left as int, prev_row@[k].right as int)
                    &&& (open@[k].bottom == 0 || !is_plate(ts, w, open@[k].bottom - 1, prev_row@[k].left as int, prev_row@[k].right as int))
                },
                0 <= j <= current_row.len(),
                new_open.len() == j,
                forall|k: int| 0 <= k < new_open.len() ==> {
                    &&& (#[trigger] new_open@[k]).left == current_row@[k].left
                    &&& new_open@[k].right == current_row@[k].right
                    &&& new_open@[k].top == y
                    &&& 0 <= new_open@[k].bottom <= y
                    &&& forall|yy: int| new_open@[k].bottom <= yy <= y ==> #[trigger] is_plate(ts, w, yy, current_row@[k].left as int, current_row@[k].right as int)
                    &&& (new_open@[k].bottom == 0 || !is_plate(ts, w, new_open@[k].bottom - 1, current_row@[k].left as int, current_row@[k].right as int))
                },
            decreases current_row.len() - j,
        {
            let plate = current_row[j];
            let found = contains_plate(&prev_row, plate);
            let ghost old_new_open = new_open@;
            proof {
                assert(y < height);
                assert(is_plate(ts, w, y as int, plate.left as int, plate.right as int));
            }
            match found {
                Some(k) => {
                    let prev_rect = open[k];
                    proof {
                        assert(open@[k as int] == prev_rect);
                    }
                    new_open.push(Rect { top: y, ..prev_rect });
                },
                None => {
                    proof {
                        if y > 0 {
                            if is_plate(ts, w, y - 1, plate.left as int, plate.right as int) {
                                let p = choose|p: int| 0 <= p < prev_row@.len() && #[trigger] prev_row@[p].left == plate.left as int && prev_row@[p].right == plate.right as int;
                                assert(prev_row@[p] == plate);
                            }
                        }
                    }
                    new_open.push(Rect { left: plate.left, right: plate.right, top: y, bottom: y });
                },
            }
            proof {
                assert forall|k: int| 0 <= k < new_open.len() implies {
                    &&& (#[trigger] new_open@[k]).left == current_row@[k].left
                    &&& new_open@[k].right == current_row@[k].right
                    &&& new_open@[k].top == y
                    &&& 0 <= new_open@[k].bottom <= y
                    &&& forall|yy: int| new_open@[k].bottom <= yy <= y ==> #[trigger] is_plate(ts, w, yy, current_row@[k].left as int, current_row@[k].right as int)
                    &&& (new_open@[k].bottom == 0 || !is_plate(ts, w, new_open@[k].bottom - 1, current_row@[k].left as int, current_row@[k].right as int))
                } by {
                    if k < j {
                        assert(new_open@[k] == old_new_open[k]);
                    }
                }
            }
            j += 1;
        }

        prev_row = current_row;
        open = new_open;
        y += 1;
    }
    proof {
        assert forall|l: int, r: int, b: int, t: int|
            #[trigger] is_merged_rect(ts, w, h, l, r, b, t) implies
            exists|i: int| 0 <= i < rects.len() && #[trigger] rects@[i] == (Rect { left: l as i32, right: r as i32, top: t as i32, bottom: b as i32 }) by {
            assert(t < y - 1);
        }
    }
    rects
}

/// The size of a merged rectangle in pixels, and twice its center, for a grid of `grid` pixels
/// per cell: the rectangle's center is half of `center2_x`, `center2_y`.
#[derive(Clone, Copy, Debug, PartialEq, Eq, Structural)]
pub struct RectGeometry {
    pub width: i64,
    pub height: i64,
    pub center2_x: i64,
    pub center2_y: i64,
}

/// The absolute value of `v`.
pub open spec fn abs(v: int) -> int {
    if v < 0 { -v } else { v }
}

/// Where a merged rectangle of cells lies in pixels, for a grid of `grid` pixels per cell.
pub fn rect_geometry(r: Rect, grid: i32) -> (g: RectGeometry)
    requires
        0 <= r.left <= r.right,
        0 <= r.bottom <= r.top,
    ensures
        g.width == abs((r.right - r.left + 1) * grid),
        g.height == abs((r.top - r.bottom + 1) * grid),
        g.center2_x == (r.left + r.right + 1) * grid,
        g.center2_y == (r.bottom + r.top + 1) * grid,
{
    let cells_x: i64 = r.right as i64 - r.left as i64 + 1;
    let cells_y: i64 = r.top as i64 - r.bottom as i64 + 1;
    let sum_x: i64 = r.left as i64 + r.right as i64 + 1;
    let sum_y: i64 = r.bottom as i64 + r.top as i64 + 1;
    let gr: i64 = grid as i64;
    let ag: i64 = if gr < 0 { -gr } else { gr };
    assert(0 < cells_x <= 0x8000_0000 && 0 < cells_y <= 0x8000_0000);
    assert(0 < sum_x < 0x1_0000_0000 && 0 < sum_y < 0x1_0000_0000);
    assert(0 <= ag <= 0x8000_0000);
    assert(cells_x * ag <= 0x8000_0000 * 0x8000_0000) by (nonlinear_arith)
        requires 0 < cells_x <= 0x8000_0000, 0 <= ag <= 0x8000_0000;
    assert(cells_y * ag <= 0x8000_0000 * 0x8000_0000) by (nonlinear_arith)
        requires 0 < cells_y <= 0x8000_0000, 0 <= ag <= 0x8000_0000;
    assert(-0xFFFF_FFFF * 0x8000_0000 <= sum_x * gr <= 0xFFFF_FFFF * 0x8000_0000) by (nonlinear_arith)
        requires 0 < sum_x <= 0xFFFF_FFFF, -0x8000_0000 <= gr <= 0x8000_0000;
    assert(-0xFFFF_FFFF * 0x8000_0000 <= sum_y * gr <= 0xFFFF_FFFF * 0x8000_0000) by (nonlinear_arith)
        requires 0 < sum_y <= 0xFFFF_FFFF, -0x8000_0000 <= gr <= 0x8000_0000;
    assert(abs(cells_x * gr) == cells_x * ag) by (nonlinear_arith)
        requires cells_x > 0, ag == abs(gr as int);
    assert(abs(cells_y * gr) == cells_y * ag) by (nonlinear_arith)
        requires cells_y > 0, ag == abs(gr as int);
    RectGeometry {
        width: cells_x * ag,
        height: cells_y * ag,
        center2_x: sum_x * gr,
        center2_y: sum_y * gr,
    }
}

/// Rectangle `r` holds the cell `(x, y)`.
pub open spec fn rect_has_cell(r: Rect, x: int, y: int) -> bool {
    r.left <= x <= r.right && r.bottom <= y <= r.top
}

/// Some rectangle of `rects` holds the cell of tile `c`.
pub open spec fn covered_by(rects: Seq<Rect>, c: GridCoords) -> bool {
    exists|i: int| 0 <= i < rects.len() && #[trigger] rect_has_cell(rects[i], c.x as int, c.y as int)
}

/// `rects` is what merging `tiles` over a `width` by `height` grid gives: exactly the maximal
/// rectangles, in order.
pub open spec fn is_rect_merge(tiles: Seq<GridCoords>, width: int, height: int, rects: Seq<Rect>) -> bool {
    &&& forall|i: int| 0 <= i < rects.len() ==> is_merged_rect(
        tiles, width, height,
        (#[trigger] rects[i]).left as int, rects[i].right as int, rects[i].bottom as int, rects[i].top as int,
    )
    &&& forall|l: int, r: int, b: int, t: int|
        #[trigger] is_merged_rect(tiles, width, height, l, r, b, t) ==>
        exists|i: int| 0 <= i < rects.len() && #[trigger] rects[i] == (Rect { left: l as i32, right: r as i32, top: t as i32, bottom: b as i32 })
    &&& forall|i: int, j: int| 0 <= i < j < rects.len() ==> rect_precedes(#[trigger] rects[i], #[trigger] rects[j])
}

/// Every tile lies in the grid.
pub open spec fn tiles_in_grid(tiles: Seq<GridCoords>, width: int, height: int) -> bool {
    forall|i: int| 0 <= i < tiles.len() ==> 0 <= #[trigger] tiles[i].x < width && 0 <= tiles[i].y < height
}

proof fn lemma_run_left(tiles: Seq<GridCoords>, y: int, x: int) -> (l: int)
    requires
        0 <= x,
        has_tile(tiles, x, y),
    ensures
        0 <= l <= x,
        forall|z: int| l <= z <= x ==> #[trigger] has_tile(tiles, z, y),
        l == 0 || !has_tile(tiles, l - 1, y),
    decreases x,
{
    if x == 0 || !has_tile(tiles, x - 1, y) {
        x
    } else {
        let l = lemma_run_left(tiles, y, x - 1);
        assert forall|z: int| l <= z <= x implies #[trigger] has_tile(tiles, z, y) by {
            if z < x {
            }
        }
        l
    }
}

proof fn lemma_run_right(tiles: Seq<GridCoords>, width: int, height: int, y: int, x: int) -> (r: int)
    requires
        tiles_in_grid(tiles, width, height),
        has_tile(tiles, x, y),
    ensures
        x <= r < width,
        forall|z: int| x <= z <= r ==> #[trigger] has_tile(tiles, z, y),
        !has_tile(tiles, r + 1, y),
    decreases width - x,
{
    assert(x < width) by {
        let i = choose|i: int| 0 <= i < tiles.len() && #[trigger] tiles[i].x == x && tiles[i].y == y;
    }
    if !has_tile(tiles, x + 1, y) {
        x
    } else {
        let r = lemma_run_right(tiles, width, height, y, x + 1);
        assert forall|z: int| x <= z <= r implies #[trigger] has_tile(tiles, z, y) by {
            if z > x {
            }
        }
        r
    }
}

proof fn lemma_stack_bottom(tiles: Seq<GridCoords>, width: int, y: int, l: int, r: int) -> (b: int)
    requires
        0 <= y,
        is_plate(tiles, width, y, l, r),
    ensures
        0 <= b <= y,
        forall|z: int| b <= z <= y ==> #[trigger] is_plate(tiles, width, z, l, r),
        b == 0 || !is_plate(tiles, width, b - 1, l, r),
    decreases y,
{
    if y == 0 || !is_plate(tiles, width, y - 1, l, r) {
        y
    } else {
        let b = lemma_stack_bottom(tiles, width, y - 1, l, r);
        assert forall|z: int| b <= z <= y implies #[trigger] is_plate(tiles, width, z, l, r) by {
            if z < y {
            }
        }
        b
    }
}

proof fn lemma_stack_top(tiles: Seq<GridCoords>, width: int, height: int, y: int, l: int, r: int) -> (t: int)
    requires
        tiles_in_grid(tiles, width, height),
        0 <= y,
        is_plate(tiles, width, y, l, r),
    ensures
        y <= t < height,
        forall|z: int| y <= z <= t ==> #[trigger] is_plate(tiles, width, z, l, r),
        t + 1 == height || !is_plate(tiles, width, t + 1, l, r),
    decreases height - y,
{
    assert(y < height) by {
        assert(has_tile(tiles, l, y));
        let i = choose|i: int| 0 <= i < tiles.len() && #[trigger] tiles[i].x == l && tiles[i].y == y;
    }
    if y + 1 == height || !is_plate(tiles, width, y + 1, l, r) {
        y
    } else {
        let t = lemma_stack_top(tiles, width, height, y + 1, l, r);
        assert forall|z: int| y <= z <= t implies #[trigger] is_plate(tiles, width, z, l, r) by {
            if z > y {
            }
        }
        t
    }
}

proof fn lemma_plates_overlap_equal(tiles: Seq<GridCoords>, width: int, y: int, l1: int, r1: int, l2: int, r2: int, x: int)
    requires
        is_plate(tiles, width, y, l1, r1),
        is_plate(tiles, width, y, l2, r2),
        l1 <= x <= r1,
        l2 <= x <= r2,
    ensures
        l1 == l2,
        r1 == r2,
{
    if l1 < l2 {
        assert(has_tile(tiles, l2 - 1, y));
    }
    if l2 < l1 {
        assert(has_tile(tiles, l1 - 1, y));
    }
    if r1 < r2 {
        assert(has_tile(tiles, r1 + 1, y));
    }
    if r2 < r1 {
        assert(has_tile(tiles, r2 + 1, y));
    }
}

proof fn lemma_tile_covered(tiles: Seq<GridCoords>, width: int, height: int, rects: Seq<Rect>, k: int)
    requires
        tiles_in_grid(tiles, width, height),
        is_rect_merge(tiles, width, height, rects),
        0 <= k < tiles.len(),
    ensures
        covered_by(rects, tiles[k]),
{
    let x = tiles[k].x as int;
    let y = tiles[k].y as int;
    assert(has_tile(tiles, x, y));
    let l = lemma_run_left(tiles, y, x);
    let r = lemma_run_right(tiles, width, height, y, x);
    assert forall|z: int| l <= z <= r implies #[trigger] has_tile(tiles, z, y) by {
        if z <= x {
        } else {
        }
    }
    assert(is_plate(tiles, width, y, l, r));
    let b = lemma_stack_bottom(tiles, width, y, l, r);
    let t = lemma_stack_top(tiles, width, height, y, l, r);
    assert forall|z: int| b <= z <= t implies #[trigger] is_plate(tiles, width, z, l, r) by {
        if z <= y {
        } else {
        }
    }
    assert(is_merged_rect(tiles, width, height, l, r, b, t));
    assert(r <= i32::MAX) by {
        assert(has_tile(tiles, r, y));
        let q = choose|q: int| 0 <= q < tiles.len() && #[trigger] tiles[q].x == r && tiles[q].y == y;
    }
    assert(t <= i32::MAX) by {
        assert(is_plate(tiles, width, t, l, r));
        assert(has_tile(tiles, l, t));
        let q = choose|q: int| 0 <= q < tiles.len() && #[trigger] tiles[q].x == l && tiles[q].y == t;
    }
    assert(rects.len() > 0);
    let i = choose|i: int| 0 <= i < rects.len() && #[trigger] rects[i] == (Rect { left: l as i32, right: r as i32, top: t as i32, bottom: b as i32 });
    assert(rect_has_cell(rects[i], x, y));
}

/// Merging tiles loses and adds nothing: every cell of a merged rectangle is a tile, every tile
/// of the grid lies in a merged rectangle, and no two merged rectangles share a cell.
pub proof fn lemma_merge_partitions_tiles(tiles: Seq<GridCoords>, width: int, height: int, rects: Seq<Rect>)
    requires
        tiles_in_grid(tiles, width, height),
        is_rect_merge(tiles, width, height, rects),
    ensures
        forall|i: int, x: int, y: int|
            0 <= i < rects.len() && #[trigger] rect_has_cell(rects[i], x, y) ==> has_tile(tiles, x, y),
        forall|k: int| 0 <= k < tiles.len() ==> #[trigger] covered_by(rects, tiles[k]),
        forall|i: int, j: int, x: int, y: int|
            0 <= i < j < rects.len() && #[trigger] rect_has_cell(rects[i], x, y) ==> !#[trigger] rect_has_cell(rects[j], x, y),
{
    assert forall|i: int, x: int, y: int|
        0 <= i < rects.len() && #[trigger] rect_has_cell(rects[i], x, y) implies has_tile(tiles, x, y) by {
        let r = rects[i];
        assert(is_merged_rect(tiles, width, height, r.left as int, r.right as int, r.bottom as int, r.top as int));
        assert(is_plate(tiles, width, y, r.left as int, r.right as int));
    }
    assert forall|k: int| 0 <= k < tiles.len() implies #[trigger] covered_by(rects, tiles[k]) by {
        lemma_tile_covered(tiles, width, height, rects, k);
    }
    assert forall|i: int, j: int, x: int, y: int|
        0 <= i < j < rects.len() && #[trigger] rect_has_cell(rects[i], x, y) implies !#[trigger] rect_has_cell(rects[j], x, y) by {
        if rect_has_cell(rects[j], x, y) {
            let a = rects[i];
            let c = rects[j];
            assert(is_merged_rect(tiles, width, height, a.left as int, a.right as int, a.bottom as int, a.top as int));
            assert(is_merged_rect(tiles, width, height, c.left as int, c.right as int, c.bottom as int, c.top as int));
            assert(is_plate(tiles, width, y, a.left as int, a.right as int));
            assert(is_plate(tiles, width, y, c.left as int, c.right as int));
            lemma_plates_overlap_equal(tiles, width, y, a.left as int, a.right as int, c.left as int, c.right as int, x);
            let l = a.left as int;
            let r = a.right as int;
            if a.bottom < c.bottom {
                assert(is_plate(tiles, width, c.bottom - 1, l, r));
            }
            if c.bottom < a.bottom {
                assert(is_plate(tiles, width, a.bottom - 1, l, r));
            }
            if a.top < c.top {
                assert(is_plate(tiles, width, a.top + 1, l, r));
            }
            if c.top < a.top {
                assert(is_plate(tiles, width, c.top + 1, l, r));
            }
            assert(rect_precedes(a, c));
        }
    }
}

} // verus!
