use lightborne::color::{all_colors, chars_equal, ColorMap, LightColor};

#[test]
fn light_color_from_name() {
    assert_eq!(LightColor::from_name("Purple"), Some(LightColor::Purple));
    assert_eq!(LightColor::from_name("Green"), Some(LightColor::Green));
    assert_eq!(LightColor::from_name("White"), Some(LightColor::White));
    assert_eq!(LightColor::from_name("Blue"), Some(LightColor::Blue));
    assert_eq!(LightColor::from_name("Black"), Some(LightColor::Black));
    assert_eq!(LightColor::from_name("Red"), None);
    assert_eq!(LightColor::from_name("blue"), None);
}

#[test]
fn num_bounces_by_color() {
    assert_eq!(LightColor::Purple.num_bounces(), 2);
    assert_eq!(LightColor::Black.num_bounces(), 0);
    assert_eq!(LightColor::Green.num_bounces(), 1);
    assert_eq!(LightColor::White.num_bounces(), 1);
    assert_eq!(LightColor::Blue.num_bounces(), 1);
}

#[test]
fn color_map_set_and_get() {
    let mut m = ColorMap::filled(0u8);
    m.set(LightColor::White, 7);
    assert_eq!(m.get(LightColor::White), 7);
    assert_eq!(m.get(LightColor::Green), 0);
    assert_eq!(all_colors(), vec![LightColor::Green, LightColor::Purple, LightColor::White, LightColor::Blue, LightColor::Black]);
}

#[test]
fn chars_equal_compares_characters() {
    assert!(chars_equal("Start", "Start"));
    assert!(!chars_equal("Start", "start"));
    assert!(!chars_equal("Star", "Start"));
}
