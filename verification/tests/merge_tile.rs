use lightborne::merge_tile::{build_rects_by_row, contains_tile, rect_geometry, row_plates, GridCoords, Plate, Rect, RectGeometry};

fn coords(list: &[(i32, i32)]) -> Vec<GridCoords> {
    list.iter().map(|&(x, y)| GridCoords { x, y }).collect()
}

fn cells_of(r: &Rect) -> Vec<(i32, i32)> {
    let mut v = Vec::new();
    for y in r.bottom..=r.top {
        for x in r.left..=r.right {
            v.push((x, y));
        }
    }
    v
}

#[test]
fn contains_tile_finds_only_listed_tiles() {
    let tiles = coords(&[(0, 0), (2, 1)]);
    assert!(contains_tile(&tiles, 0, 0));
    assert!(contains_tile(&tiles, 2, 1));
    assert!(!contains_tile(&tiles, 1, 0));
    assert!(!contains_tile(&tiles, 2, 0));
}

#[test]
fn row_plates_splits_runs() {
    let tiles = coords(&[(0, 0), (1, 0), (3, 0), (1, 1)]);
    let row = row_plates(5, 0, &tiles);
    assert_eq!(row, vec![Plate { left: 0, right: 1 }, Plate { left: 3, right: 3 }]);
    let row1 = row_plates(5, 1, &tiles);
    assert_eq!(row1, vec![Plate { left: 1, right: 1 }]);
}

#[test]
fn row_plates_closes_run_at_right_edge() {
    let tiles = coords(&[(2, 0), (3, 0)]);
    assert_eq!(row_plates(4, 0, &tiles), vec![Plate { left: 2, right: 3 }]);
}

#[test]
fn square_block_merges_into_one_rect() {
    let tiles = coords(&[(0, 0), (1, 0), (0, 1), (1, 1)]);
    let rects = build_rects_by_row(2, 2, &tiles);
    assert_eq!(rects, vec![Rect { left: 0, right: 1, top: 1, bottom: 0 }]);
}

#[test]
fn l_shape_merges_into_two_rects_in_row_order() {
    let tiles = coords(&[(0, 0), (1, 0), (0, 1)]);
    let rects = build_rects_by_row(3, 2, &tiles);
    assert_eq!(
        rects,
        vec![
            Rect { left: 0, right: 1, top: 0, bottom: 0 },
            Rect { left: 0, right: 0, top: 1, bottom: 1 },
        ]
    );
}

#[test]
fn no_tiles_no_rects() {
    let rects = build_rects_by_row(4, 4, &Vec::new());
    assert!(rects.is_empty());
}

#[test]
fn merged_rects_cover_each_tile_exactly_once() {
    let tiles = coords(&[
        (0, 0), (1, 0), (2, 0), (4, 0),
        (0, 1), (1, 1), (2, 1), (4, 1),
        (1, 2), (2, 2), (3, 2), (4, 2),
        (0, 3),
    ]);
    let rects = build_rects_by_row(5, 4, &tiles);
    let mut covered: Vec<(i32, i32)> = Vec::new();
    for r in &rects {
        for c in cells_of(r) {
            assert!(tiles.contains(&GridCoords { x: c.0, y: c.1 }), "cell {:?} is no tile", c);
            assert!(!covered.contains(&c), "cell {:?} covered twice", c);
            covered.push(c);
        }
    }
    assert_eq!(covered.len(), tiles.len());
}

#[test]
fn rect_geometry_in_pixels() {
    let g = rect_geometry(Rect { left: 1, right: 2, top: 3, bottom: 1 }, 8);
    assert_eq!(g, RectGeometry { width: 16, height: 24, center2_x: 32, center2_y: 40 });
}

#[test]
fn rect_geometry_single_cell() {
    let g = rect_geometry(Rect { left: 0, right: 0, top: 0, bottom: 0 }, 16);
    assert_eq!(g, RectGeometry { width: 16, height: 16, center2_x: 16, center2_y: 16 });
}
