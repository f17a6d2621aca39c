use lightborne::color::LightColor;
use lightborne::crystal::{crystal_color, crystal_id_at, entities_of_color, is_crystal_active, Crystal, CrystalColor};
use lightborne::merge_tile::GridCoords;

#[test]
fn crystal_cells_decode() {
    assert!(is_crystal_active(3));
    assert!(!is_crystal_active(4));
    assert!(is_crystal_active(9));
    assert!(!is_crystal_active(10));
    assert_eq!(crystal_color(3), LightColor::Purple);
    assert_eq!(crystal_color(6), LightColor::Green);
    assert_eq!(crystal_color(7), LightColor::White);
    assert_eq!(crystal_color(10), LightColor::Blue);
    let c = Crystal::from_cell(8);
    assert_eq!(c.color, CrystalColor { color: LightColor::White, id: 0 });
    assert!(!c.active && !c.init_active);
}

#[test]
fn toggle_moves_texture_between_columns() {
    let mut c = Crystal::from_cell(5);
    let mut index = 12u32;
    c.toggle(&mut index);
    assert!(!c.active);
    assert_eq!(index, 17);
    c.toggle(&mut index);
    assert!(c.active);
    assert_eq!(index, 12);
}

#[test]
fn toggle_twice_restores_crystal() {
    let original = Crystal::from_cell(4);
    let mut c = original;
    let mut index = 9u32;
    c.toggle(&mut index);
    c.toggle(&mut index);
    assert_eq!(c, original);
    assert_eq!(index, 9);
}

#[test]
fn reset_returns_to_initial_state() {
    let mut c = Crystal::from_cell(7);
    let mut index = 3u32;
    c.toggle(&mut index);
    assert_eq!(index, 8);
    c.reset(&mut index);
    assert!(c.active);
    assert_eq!(index, 3);
    c.reset(&mut index);
    assert_eq!(index, 3);
}

#[test]
fn group_toggle_and_reset() {
    let mut c = Crystal::from_cell(9);
    assert_eq!(c.reset_group(), None);
    assert!(!c.toggle_group());
    assert_eq!(c.reset_group(), Some(true));
    assert!(c.active);
}

#[test]
fn crystal_ids_use_last_entry() {
    let ids = vec![
        (GridCoords { x: 1, y: 1 }, 4),
        (GridCoords { x: 2, y: 1 }, 5),
        (GridCoords { x: 1, y: 1 }, 6),
    ];
    assert_eq!(crystal_id_at(&ids, GridCoords { x: 1, y: 1 }), 6);
    assert_eq!(crystal_id_at(&ids, GridCoords { x: 2, y: 1 }), 5);
    assert_eq!(crystal_id_at(&ids, GridCoords { x: 0, y: 0 }), 0);
}

#[test]
fn entities_of_color_filters_in_order() {
    let white1 = CrystalColor { color: LightColor::White, id: 1 };
    let white2 = CrystalColor { color: LightColor::White, id: 2 };
    let blue = CrystalColor { color: LightColor::Blue, id: 0 };
    let cache = vec![(white1, 10), (blue, 11), (white1, 12), (white2, 13)];
    assert_eq!(entities_of_color(&cache, white1), vec![10, 12]);
    assert_eq!(entities_of_color(&cache, blue), vec![11]);
    assert!(entities_of_color(&cache, CrystalColor { color: LightColor::Green, id: 0 }).is_empty());
}
