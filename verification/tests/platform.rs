use lightborne::merge_tile::GridCoords;
use lightborne::platform::{ArcDirection, PlatformDirection, PlatformRoute, PlatformState, RouteError};

fn pts(list: &[(i32, i32)]) -> Vec<GridCoords> {
    list.iter().map(|&(x, y)| GridCoords { x, y }).collect()
}

fn route(points: &[(i32, i32)], flags: Vec<bool>, reverse: bool, repeat: bool, reactivate: bool) -> Result<PlatformRoute, RouteError> {
    PlatformRoute::new(pts(points), flags, GridCoords { x: 0, y: 0 }, 8, PlatformState::Play, reverse, repeat, reactivate, 7)
}

#[test]
fn state_names() {
    assert_eq!(PlatformState::from_name("Pause"), PlatformState::Pause);
    assert_eq!(PlatformState::from_name("Stop"), PlatformState::Stop);
    assert_eq!(PlatformState::from_name("Play"), PlatformState::Play);
    assert_eq!(PlatformState::from_name("Other"), PlatformState::Play);
}

#[test]
fn route_errors() {
    assert_eq!(route(&[], vec![], false, true, false).err(), Some(RouteError::EmptyPath));
    assert_eq!(route(&[(1, 0), (2, 0)], vec![false, true], true, true, false).err(), Some(RouteError::ReversingPathEndsInCurve));
    assert_eq!(route(&[(1, 0), (2, 0), (3, 0)], vec![true, true, false], false, true, false).err(), Some(RouteError::AdjacentCurves));
}

#[test]
fn route_starts_at_entity_cell() {
    let r = PlatformRoute::new(pts(&[(4, 4)]), vec![], GridCoords { x: 2, y: 3 }, 16, PlatformState::Pause, false, true, false, 1).unwrap();
    assert_eq!(r.path, pts(&[(2, 4), (4, 4)]));
    assert_eq!(r.path_curve_points, vec![false, false]);
    assert_eq!(r.curr_segment, GridCoords { x: 4, y: 4 });
    assert_eq!(r.previous_segment, GridCoords { x: 2, y: 4 });
    assert_eq!(r.curr_segment_index, 1);
    assert_eq!(r.curr_state, PlatformState::Pause);
    assert!(!r.has_activated);
}

#[test]
fn advancing_wraps_and_stops_without_repeat() {
    let mut r = route(&[(1, 0), (2, 0)], vec![], false, false, false).unwrap();
    assert!(!r.advance_goal());
    assert_eq!(r.curr_segment_index, 2);
    assert_eq!(r.curr_segment, GridCoords { x: 2, y: 0 });
    assert_eq!(r.previous_segment, GridCoords { x: 1, y: 0 });
    r.advance_goal();
    assert_eq!(r.curr_segment_index, 0);
    assert_eq!(r.curr_state, PlatformState::Stop);
    assert!(r.has_activated);
    r.on_state_event(7, PlatformState::Play);
    assert_eq!(r.curr_state, PlatformState::Stop);
}

#[test]
fn reversing_route_turns_back() {
    let mut r = route(&[(1, 0), (2, 0)], vec![], true, true, false).unwrap();
    r.advance_goal();
    r.advance_goal();
    assert_eq!(r.curr_direction, PlatformDirection::Backward);
    assert_eq!(r.curr_segment_index, 1);
    assert_eq!(r.curr_state, PlatformState::Play);
    r.advance_goal();
    assert_eq!(r.curr_segment_index, 0);
    r.advance_goal();
    assert_eq!(r.curr_direction, PlatformDirection::Forward);
    assert_eq!(r.curr_segment_index, 1);
}

#[test]
fn curve_goal_passes_to_arc_end() {
    let mut r = route(&[(1, 0), (2, 1), (3, 1)], vec![true, false, false], false, true, false).unwrap();
    assert_eq!(r.arc_end(), GridCoords { x: 2, y: 1 });
    assert_eq!(r.arc_direction(), ArcDirection { x_from_sin: true, x_sign: 1, y_sign: 1 });
    assert!(r.advance_goal());
    assert_eq!(r.curr_segment_index, 3);
    assert_eq!(r.previous_segment, GridCoords { x: 2, y: 1 });
}

#[test]
fn state_events_follow_platform_rules() {
    let mut r = route(&[(1, 0)], vec![], false, true, true).unwrap();
    r.on_state_event(3, PlatformState::Pause);
    assert_eq!(r.curr_state, PlatformState::Play);
    r.on_state_event(7, PlatformState::Pause);
    assert_eq!(r.curr_state, PlatformState::Pause);
    r.on_state_event(7, PlatformState::Stop);
    assert_eq!(r.curr_state, PlatformState::Stop);
    assert!(!r.has_activated);
    r.on_state_event(7, PlatformState::Play);
    assert_eq!(r.curr_state, PlatformState::Play);
    r.on_state_event(7, PlatformState::Stop);
    assert!(r.has_activated);
    r.on_state_event(7, PlatformState::Play);
    assert_eq!(r.curr_state, PlatformState::Play);
}

#[test]
fn reset_goes_back_to_start() {
    let mut r = route(&[(1, 0), (2, 0)], vec![], false, true, false).unwrap();
    r.advance_goal();
    r.on_state_event(7, PlatformState::Pause);
    r.reset();
    assert_eq!(r.curr_segment_index, 1);
    assert_eq!(r.curr_segment, GridCoords { x: 1, y: 0 });
    assert_eq!(r.curr_state, PlatformState::Play);
}

use lightborne::platform::{player_contact, Carry, ContactOutcome, PlayerContact};

fn contact() -> PlayerContact {
    PlayerContact {
        platform_above: false,
        anything_above: false,
        platform_below: false,
        anything_left: false,
        anything_right: false,
        grounded: false,
        moving_down: false,
        moving_up: false,
        alongside: false,
        platform_to_right: false,
    }
}

#[test]
fn arrival_target_is_arc_end_on_curves() {
    let r = route(&[(1, 0), (2, 1), (3, 1)], vec![true, false, false], false, true, false).unwrap();
    assert_eq!(r.arrival_target(), GridCoords { x: 2, y: 1 });
    let straight = route(&[(1, 0), (2, 0)], vec![], false, true, false).unwrap();
    assert_eq!(straight.arrival_target(), GridCoords { x: 1, y: 0 });
}

#[test]
fn platform_carries_and_crushes_player() {
    let on_top = PlayerContact { platform_below: true, ..contact() };
    assert_eq!(player_contact(PlatformState::Play, on_top), ContactOutcome { respawns: 0, carry: Carry::Full, push: false });
    assert_eq!(player_contact(PlatformState::Pause, on_top), ContactOutcome { respawns: 0, carry: Carry::Lift, push: false });
    let walled = PlayerContact { platform_below: true, anything_left: true, ..contact() };
    assert_eq!(player_contact(PlatformState::Play, walled).carry, Carry::VerticalOnly);
    let ceiling = PlayerContact { platform_below: true, moving_up: true, anything_above: true, ..contact() };
    assert_eq!(player_contact(PlatformState::Play, ceiling).respawns, 1);
    let squashed = PlayerContact { platform_above: true, anything_above: true, grounded: true, moving_down: true, ..contact() };
    assert_eq!(player_contact(PlatformState::Stop, squashed), ContactOutcome { respawns: 1, carry: Carry::Stay, push: false });
    let pushed = PlayerContact { alongside: true, platform_to_right: true, anything_right: true, ..contact() };
    assert_eq!(player_contact(PlatformState::Play, pushed), ContactOutcome { respawns: 1, carry: Carry::Stay, push: true });
    let pushed_free = PlayerContact { alongside: true, platform_to_right: true, anything_left: true, ..contact() };
    assert_eq!(player_contact(PlatformState::Play, pushed_free), ContactOutcome { respawns: 0, carry: Carry::Stay, push: true });
    assert_eq!(player_contact(PlatformState::Pause, pushed).push, false);
}

#[test]
fn state_from_level_string() {
    assert_eq!(PlatformState::from(&"Stop".to_string()), PlatformState::Stop);
    assert_eq!(PlatformState::from(&"Pause".to_string()), PlatformState::Pause);
    assert_eq!(PlatformState::from(&"Anything".to_string()), PlatformState::Play);
}

#[test]
fn reset_restores_direction_and_activation() {
    let mut r = route(&[(1, 0), (2, 0)], vec![], true, false, false).unwrap();
    r.advance_goal();
    r.advance_goal();
    assert_eq!(r.curr_direction, PlatformDirection::Backward);
    assert!(r.has_activated);
    assert_eq!(r.curr_state, PlatformState::Stop);
    r.reset();
    assert_eq!(r.curr_direction, PlatformDirection::Forward);
    assert!(!r.has_activated);
    assert_eq!(r.curr_state, PlatformState::Play);
    assert_eq!(r.curr_segment_index, 1);
}
