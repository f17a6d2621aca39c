use lightborne::beam::{
    color_switches, scroll_step, shoot_input_actions, BeamAction, BeamEffect, LightInventorySource,
    PlayerLightInventory, PlayerLightProgress, ShootInputs,
};
use lightborne::color::{ColorMap, LightColor};

fn four_allowed() -> ColorMap<bool> {
    let mut m = ColorMap::filled(true);
    m.set(LightColor::Black, false);
    m
}

#[test]
fn new_inventory_allows_nothing() {
    let inv = PlayerLightInventory::new();
    assert!(!inv.can_shoot());
    assert!(!inv.can_shoot_color(LightColor::Green));
    assert_eq!(inv.current_color, None);
}

#[test]
fn progress_init_and_inventory() {
    let p = PlayerLightProgress::init(None, false);
    assert!(!p.unlocked.get(LightColor::Green));
    let p = PlayerLightProgress::init(None, true);
    assert!(p.unlocked.get(LightColor::White) && p.unlocked.get(LightColor::Blue));
    assert!(!p.unlocked.get(LightColor::Black));
    let mut saved = PlayerLightProgress::new();
    saved.unlocked.set(LightColor::Black, true);
    let p = PlayerLightProgress::init(Some(saved), false);
    assert!(p.unlocked.get(LightColor::Black));
    assert!(!p.unlocked.get(LightColor::Green));
    let inv = PlayerLightInventory::from(&p);
    assert!(inv.can_shoot_color(LightColor::Black));
    assert!(!inv.can_shoot_color(LightColor::Purple));
}

#[test]
fn preview_shoot_record_and_collect() {
    let mut inv = PlayerLightInventory::new();
    inv.unlock(LightColor::Green);
    assert_eq!(inv.process_action(BeamAction::SwitchColor(Some(LightColor::Green))), BeamEffect::Nothing);
    assert_eq!(inv.process_action(BeamAction::Shoot), BeamEffect::Nothing);
    assert_eq!(inv.process_action(BeamAction::Preview), BeamEffect::Nothing);
    assert!(inv.previewing && inv.should_shoot);
    assert_eq!(inv.process_action(BeamAction::Shoot), BeamEffect::Shoot(LightColor::Green));
    inv.record_shot(42);
    assert!(!inv.can_shoot_color(LightColor::Green));
    assert!(!inv.previewing && !inv.should_shoot);
    assert_eq!(inv.collectible.get(LightColor::Green), Some(LightInventorySource { in_reach: false, entity: 42 }));
    assert_eq!(inv.process_action(BeamAction::Collect), BeamEffect::Despawn(vec![]));
    inv.set_in_reach(LightColor::Green, true);
    assert_eq!(inv.process_action(BeamAction::Collect), BeamEffect::Despawn(vec![42]));
    inv.clear_source(LightColor::Green);
    assert!(inv.can_shoot_color(LightColor::Green));
}

#[test]
fn cancel_and_snap() {
    let mut inv = PlayerLightInventory::new();
    inv.unlock(LightColor::Blue);
    inv.process_action(BeamAction::SwitchColor(Some(LightColor::Blue)));
    inv.process_action(BeamAction::Preview);
    inv.process_action(BeamAction::Cancel);
    assert!(!inv.previewing && !inv.should_shoot);
    inv.process_action(BeamAction::Snap(true));
    assert!(inv.snapping);
    inv.process_action(BeamAction::Snap(false));
    assert!(!inv.snapping);
}

#[test]
fn reset_forgets_beams() {
    let mut inv = PlayerLightInventory::new();
    inv.unlock(LightColor::White);
    inv.process_action(BeamAction::SwitchColor(Some(LightColor::White)));
    inv.process_action(BeamAction::Preview);
    inv.record_shot(5);
    inv.reset();
    assert!(inv.can_shoot_color(LightColor::White));
}

#[test]
fn scroll_steps_skip_disallowed_colors() {
    let mut allowed = ColorMap::filled(false);
    allowed.set(LightColor::Green, true);
    allowed.set(LightColor::White, true);
    assert_eq!(scroll_step(0, 1, &allowed), (2, Some(LightColor::White)));
    assert_eq!(scroll_step(2, 1, &allowed), (4, Some(LightColor::Green)));
    assert_eq!(scroll_step(0, -1, &allowed), (-2, Some(LightColor::White)));
    assert_eq!(scroll_step(-1, 1, &allowed), (0, Some(LightColor::Green)));
}

#[test]
fn scroll_with_nothing_allowed_switches_nowhere() {
    let none = ColorMap::filled(false);
    assert_eq!(scroll_step(0, 1, &none), (5, None));
}

#[test]
fn scroll_round_trip_returns_to_color() {
    let mut allowed = ColorMap::filled(false);
    allowed.set(LightColor::Purple, true);
    allowed.set(LightColor::Blue, true);
    let (fwd, _) = scroll_step(1, 1, &allowed);
    let (back, c) = scroll_step(fwd, -1, &allowed);
    assert_eq!(back, 1);
    assert_eq!(c, Some(LightColor::Purple));
}

#[test]
fn color_switches_from_scroll_and_keys() {
    let allowed = four_allowed();
    assert_eq!(color_switches(Some(LightColor::Green), &allowed, &vec![1], [false; 4]), vec![LightColor::Purple]);
    assert_eq!(
        color_switches(None, &allowed, &vec![1, 1], [false, false, true, false]),
        vec![LightColor::Green, LightColor::Purple, LightColor::White]
    );
    let mut only_blue = ColorMap::filled(false);
    only_blue.set(LightColor::Blue, true);
    assert_eq!(color_switches(None, &only_blue, &vec![], [true, true, true, true]), vec![LightColor::Blue]);
}

#[test]
fn shoot_inputs_map_to_actions_in_order() {
    let inputs = ShootInputs {
        aim_pressed: true,
        cancel_pressed: false,
        aim_released: true,
        snap_pressed: false,
        snap_released: true,
        collect_pressed: true,
    };
    assert_eq!(
        shoot_input_actions(inputs),
        vec![BeamAction::Preview, BeamAction::Shoot, BeamAction::Snap(false), BeamAction::Collect]
    );
}
