use lightborne::level_select::{
    find_start_flag, level_button_order, level_preview_pixels, preview_color, sensor_color_to_rgba, str_lt, FlagEntity,
    FlagLayer, PreviewEntity,
};

#[test]
fn preview_palette() {
    assert_eq!(preview_color(0), [0, 0, 0, 255]);
    assert_eq!(preview_color(1), [41, 54, 78, 255]);
    assert_eq!(preview_color(10), [43, 85, 136, 255]);
    assert_eq!(preview_color(12), [0, 0, 0, 255]);
    assert_eq!(preview_color(15), [115, 62, 57, 255]);
}

#[test]
fn sensor_preview_colors() {
    assert_eq!(sensor_color_to_rgba("Red"), [255, 143, 212, 255]);
    assert_eq!(sensor_color_to_rgba("Green"), [157, 253, 148, 255]);
    assert_eq!(sensor_color_to_rgba("White"), [229, 229, 229, 255]);
    assert_eq!(sensor_color_to_rgba("Blue"), [143, 225, 255, 255]);
    assert_eq!(sensor_color_to_rgba("Purple"), [0, 0, 0, 255]);
}

fn entity(identifier: &str, x: i32, y: i32, color: Option<&str>) -> PreviewEntity {
    PreviewEntity { identifier: identifier.to_string(), grid_x: x, grid_y: y, color: color.map(|c| c.to_string()) }
}

#[test]
fn preview_draws_terrain_then_sensors() {
    let tiles = vec![0, 1, 2, 15, 5, 0];
    let entities = vec![
        entity("Sensor", 1, 1, Some("Green")),
        entity("Start", 0, 0, None),
        entity("Sensor", 2, 0, Some("Red")),
        entity("Sensor", 1, 1, Some("Blue")),
    ];
    let data = level_preview_pixels(3, &tiles, &entities);
    assert_eq!(data.len(), 24);
    assert_eq!(&data[0..4], &[0, 0, 0, 255]);
    assert_eq!(&data[4..8], &[41, 54, 78, 255]);
    assert_eq!(&data[8..12], &[255, 143, 212, 255]);
    assert_eq!(&data[12..16], &[115, 62, 57, 255]);
    assert_eq!(&data[16..20], &[143, 225, 255, 255]);
    assert_eq!(&data[20..24], &[0, 0, 0, 255]);
}

fn flag(identifier: &str, world: Option<(i32, i32)>) -> FlagEntity {
    FlagEntity { identifier: identifier.to_string(), world }
}

#[test]
fn start_flag_is_first_in_entity_layers() {
    let layers = vec![
        FlagLayer { is_entity_layer: false, entities: vec![flag("Start", None)] },
        FlagLayer { is_entity_layer: true, entities: vec![flag("Lyra", None), flag("Start", Some((16, 40)))] },
        FlagLayer { is_entity_layer: true, entities: vec![flag("Start", Some((1, 1)))] },
    ];
    assert_eq!(find_start_flag(&layers), Some((16, 40)));
    let none = vec![FlagLayer { is_entity_layer: true, entities: vec![flag("Sensor", None)] }];
    assert_eq!(find_start_flag(&none), None);
}

#[test]
fn string_order() {
    assert!(str_lt("1-1", "1-2"));
    assert!(str_lt("1", "1-1"));
    assert!(!str_lt("2", "10"));
    assert!(str_lt("10", "2"));
    assert!(!str_lt("a", "a"));
}

#[test]
fn level_buttons_sorted_by_id_then_position() {
    let ids: Vec<String> = ["2-1", "1-2", "1-1", "1-2", "10"].iter().map(|s| s.to_string()).collect();
    assert_eq!(level_button_order(&ids), vec![2, 1, 3, 4, 0]);
    assert!(level_button_order(&Vec::new()).is_empty());
}

#[test]
fn later_flags_need_no_position() {
    let layers = vec![FlagLayer {
        is_entity_layer: true,
        entities: vec![flag("Start", Some((3, 4))), flag("Start", None)],
    }];
    assert_eq!(find_start_flag(&layers), Some((3, 4)));
}
