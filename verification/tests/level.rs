use lightborne::color::LightColor;
use lightborne::level::{allowed_colors, bgm_for_current_level, level_box, switch_decision, BgmTrack, LevelBox, LevelSwitch};

fn strings(list: &[&str]) -> Vec<String> {
    list.iter().map(|s| s.to_string()).collect()
}

#[test]
fn switching_levels() {
    let iids = strings(&["a", "b", "c"]);
    assert_eq!(switch_decision(&"a".to_string(), &iids, &vec![false, true, true]), LevelSwitch::Animated { index: 1 });
    assert_eq!(switch_decision(&"b".to_string(), &iids, &vec![false, true, false]), LevelSwitch::Stay);
    assert_eq!(switch_decision(&String::new(), &iids, &vec![true, false, false]), LevelSwitch::Immediate { index: 0 });
    assert_eq!(switch_decision(&"a".to_string(), &iids, &vec![false, false, false]), LevelSwitch::Stay);
}

#[test]
fn allowed_colors_from_names() {
    let m = allowed_colors(&strings(&["Green", "Blue", "Green"])).unwrap();
    assert!(m.get(LightColor::Green) && m.get(LightColor::Blue));
    assert!(!m.get(LightColor::White) && !m.get(LightColor::Purple) && !m.get(LightColor::Black));
    assert!(allowed_colors(&strings(&["Green", "Red"])).is_none());
    let none = allowed_colors(&Vec::new()).unwrap();
    assert!(!none.get(LightColor::Green));
}

#[test]
fn music_by_world() {
    let iids = strings(&["x", "y", "z", "w", "v"]);
    let ids = strings(&["1-1", "2-3", "3-1", "4-2", "5-1"]);
    assert_eq!(bgm_for_current_level(&"x".to_string(), &iids, &ids), BgmTrack::MustntStop);
    assert_eq!(bgm_for_current_level(&"y".to_string(), &iids, &ids), BgmTrack::MustntStop);
    assert_eq!(bgm_for_current_level(&"z".to_string(), &iids, &ids), BgmTrack::Cutscene1Draft);
    assert_eq!(bgm_for_current_level(&"w".to_string(), &iids, &ids), BgmTrack::LightInTheDark);
    assert_eq!(bgm_for_current_level(&"v".to_string(), &iids, &ids), BgmTrack::Silent);
    assert_eq!(bgm_for_current_level(&"q".to_string(), &iids, &ids), BgmTrack::Silent);
}

#[test]
fn level_boxes_point_up() {
    assert_eq!(level_box(16, 32, 320, 180), LevelBox { min_x: 16, min_y: -212, max_x: 336, max_y: -32 });
    assert_eq!(level_box(0, 0, 0, 0), LevelBox { min_x: 0, min_y: 0, max_x: 0, max_y: 0 });
}
