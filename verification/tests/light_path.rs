use lightborne::color::LightColor;
use lightborne::light_path::{plan_segments, SegmentKey, beam_layer, beam_stops_at, Layer, beam_source_cell, may_cast_segment, segments_needed, update_hits, BeamHit, HitChange};
use lightborne::merge_tile::GridCoords;

fn hits(list: &[(u64, i32)]) -> Vec<BeamHit<i32>> {
    list.iter().map(|&(entity, data)| BeamHit { entity, data }).collect()
}

#[test]
fn segment_budget_by_color_and_mirrors() {
    assert!(may_cast_segment(LightColor::Green, 1, 0));
    assert!(!may_cast_segment(LightColor::Green, 2, 0));
    assert!(may_cast_segment(LightColor::Green, 2, 1));
    assert!(may_cast_segment(LightColor::Purple, 2, 0));
    assert!(!may_cast_segment(LightColor::Purple, 3, 0));
    assert!(may_cast_segment(LightColor::Black, 0, 0));
    assert!(!may_cast_segment(LightColor::Black, 1, 0));
    assert!(!may_cast_segment(LightColor::White, 15, 20));
    assert!(may_cast_segment(LightColor::White, 14, 20));
}

#[test]
fn identical_playbacks_change_nothing() {
    let mut prev = hits(&[(1, 10), (2, 20)]);
    let new = hits(&[(1, 11), (2, 21)]);
    assert_eq!(update_hits(&mut prev, &new, &vec![false, false]), None);
    assert_eq!(prev.iter().map(|h| h.data).collect::<Vec<_>>(), vec![11, 21]);
}

#[test]
fn new_hit_after_recorded_ones_plays_sound() {
    let mut prev = hits(&[(1, 10)]);
    let new = hits(&[(1, 10), (7, 30)]);
    let change = update_hits(&mut prev, &new, &vec![false, false]).unwrap();
    assert_eq!(
        change,
        HitChange { index: 1, removed: false, unhit: vec![], hit: Some(7), sound: true, sound_slot: 1 }
    );
    assert_eq!(prev.iter().map(|h| h.entity).collect::<Vec<_>>(), vec![1, 7]);
}

#[test]
fn closer_hit_replaces_recorded_tail() {
    let mut prev = hits(&[(1, 10), (2, 20), (3, 30)]);
    let new = hits(&[(1, 10), (9, 15)]);
    let change = update_hits(&mut prev, &new, &vec![false, true, false]).unwrap();
    assert_eq!(
        change,
        HitChange { index: 1, removed: true, unhit: vec![2, 3], hit: Some(9), sound: false, sound_slot: 1 }
    );
    assert_eq!(prev.iter().map(|h| h.entity).collect::<Vec<_>>(), vec![1, 9]);
}

#[test]
fn farther_hit_only_drops_recorded_tail() {
    let mut prev = hits(&[(4, 10), (5, 20)]);
    let new = hits(&[(6, 40)]);
    let change = update_hits(&mut prev, &new, &vec![false, false]).unwrap();
    assert_eq!(
        change,
        HitChange { index: 0, removed: true, unhit: vec![4, 5], hit: None, sound: false, sound_slot: 0 }
    );
    assert!(prev.is_empty());
}

#[test]
fn sound_slot_caps_at_third() {
    let mut prev = hits(&[(1, 1), (2, 2), (3, 3), (4, 4)]);
    let new = hits(&[(1, 1), (2, 2), (3, 3), (4, 4), (5, 5)]);
    let change = update_hits(&mut prev, &new, &vec![false; 5]).unwrap();
    assert_eq!(change.index, 4);
    assert_eq!(change.sound_slot, 2);
}

#[test]
fn segment_entities_needed() {
    assert_eq!(segments_needed(0, 4), 3);
    assert_eq!(segments_needed(2, 4), 1);
    assert_eq!(segments_needed(5, 4), 0);
    assert_eq!(segments_needed(3, 30), 7);
    assert_eq!(segments_needed(0, 1), 0);
}

#[test]
fn beam_source_cell_moves_to_bottom_row() {
    assert_eq!(beam_source_cell(GridCoords { x: 3, y: 5 }, 16), GridCoords { x: 3, y: 6 });
    assert_eq!(beam_source_cell(GridCoords { x: 3, y: 5 }, 8), GridCoords { x: 3, y: 5 });
    assert_eq!(beam_source_cell(GridCoords { x: 0, y: 5 }, -9), GridCoords { x: 0, y: 3 });
}

#[test]
fn beam_layers_and_what_stops_them() {
    assert_eq!(beam_layer(LightColor::White), Layer::WhiteRay);
    assert_eq!(beam_layer(LightColor::Blue), Layer::BlueRay);
    assert_eq!(beam_layer(LightColor::Green), Layer::LightRay);
    assert_eq!(beam_layer(LightColor::Black), Layer::LightRay);
    for c in [LightColor::Green, LightColor::Purple, LightColor::White, LightColor::Blue] {
        assert!(beam_stops_at(c, Layer::Terrain));
        assert!(beam_stops_at(c, Layer::Platform));
        assert!(!beam_stops_at(c, Layer::PlayerCollider));
        assert!(!beam_stops_at(c, Layer::LightRay));
    }
    assert!(!beam_stops_at(LightColor::White, Layer::WhiteRay));
    assert!(beam_stops_at(LightColor::Blue, Layer::WhiteRay));
    assert!(!beam_stops_at(LightColor::Blue, Layer::BlueCrystal));
    assert!(beam_stops_at(LightColor::Purple, Layer::BlueCrystal));
}

fn key(color: LightColor, index: usize) -> SegmentKey {
    SegmentKey { color, index }
}

#[test]
fn segment_cache_spawns_moves_and_despawns() {
    let cached = vec![key(LightColor::Green, 0), key(LightColor::Green, 1), key(LightColor::Green, 2)];
    let drawn = vec![
        (key(LightColor::Green, 0), false),
        (key(LightColor::Green, 1), true),
        (key(LightColor::Blue, 0), true),
        (key(LightColor::Blue, 0), true),
    ];
    let plan = plan_segments(&cached, &drawn);
    assert_eq!(plan.spawn, vec![key(LightColor::Blue, 0)]);
    assert_eq!(plan.update, vec![key(LightColor::Green, 1), key(LightColor::Blue, 0)]);
    assert_eq!(plan.despawn, vec![key(LightColor::Green, 2)]);
    let empty = plan_segments(&cached, &vec![]);
    assert!(empty.spawn.is_empty() && empty.update.is_empty());
    assert_eq!(empty.despawn, cached);
}
