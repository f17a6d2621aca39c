use lightborne::beam::{BeamAction, PlayerLightInventory};
use lightborne::color::LightColor;
use lightborne::indicator::{
    initial_placement, InitialPlacement, indicator_icon, plan_indicators, IndicatorPlan, IndicatorState, IndicatorTarget, ShardMovementState, ShardMovingState,
    LYRA_SHARD_MOVING_DELAY_NANOS,
};

fn st(color: LightColor, was_childed: bool) -> IndicatorState {
    IndicatorState { color, was_childed, placed: true }
}

fn inventory() -> PlayerLightInventory {
    let mut inv = PlayerLightInventory::new();
    inv.unlock(LightColor::Green);
    inv.unlock(LightColor::Purple);
    inv.unlock(LightColor::White);
    inv.unlock(LightColor::Blue);
    inv
}

#[test]
fn formation_timer_flips_after_delay() {
    let mut s = ShardMovingState::new();
    assert_eq!(s.state, ShardMovementState::Stationary);
    s.tick(true, 100_000_000);
    assert_eq!((s.state, s.elapsed), (ShardMovementState::Stationary, 100_000_000));
    s.tick(true, 150_000_000);
    assert_eq!((s.state, s.elapsed), (ShardMovementState::Moving, 0));
    s.tick(true, 100_000_000);
    assert_eq!((s.state, s.elapsed), (ShardMovementState::Moving, 0));
    s.tick(false, 200_000_000);
    s.tick(true, 10);
    assert_eq!((s.state, s.elapsed), (ShardMovementState::Moving, 0));
    s.tick(false, LYRA_SHARD_MOVING_DELAY_NANOS);
    assert_eq!(s.state, ShardMovementState::Stationary);
}

#[test]
fn orbit_places_free_indicators_evenly() {
    let inv = inventory();
    let states = vec![st(LightColor::Green, false), st(LightColor::Purple, false), st(LightColor::White, false)];
    let plans = plan_indicators(&inv, &states, ShardMovementState::Stationary);
    assert_eq!(plans.len(), 3);
    for (i, p) in plans.iter().enumerate() {
        assert_eq!(p.target, IndicatorTarget::Orbit { slot: i, count: 3 });
        assert!(p.show && !p.attach && !p.detach);
    }
}

#[test]
fn chain_follows_lyra_then_each_other() {
    let inv = inventory();
    let states = vec![st(LightColor::Green, false), st(LightColor::Blue, false)];
    let plans = plan_indicators(&inv, &states, ShardMovementState::Moving);
    assert_eq!(plans[0].target, IndicatorTarget::FollowLyra);
    assert_eq!(plans[1].target, IndicatorTarget::Follow(LightColor::Green));
}

#[test]
fn selected_shooting_and_spent_indicators() {
    let mut inv = inventory();
    inv.process_action(BeamAction::SwitchColor(Some(LightColor::Purple)));
    let states = vec![st(LightColor::Green, true), st(LightColor::Purple, false), st(LightColor::White, false)];
    let plans = plan_indicators(&inv, &states, ShardMovementState::Stationary);
    assert_eq!(
        plans[0],
        IndicatorPlan { color: LightColor::Green, show: true, attach: false, detach: true, target: IndicatorTarget::Orbit { slot: 0, count: 2 } }
    );
    assert_eq!(
        plans[1],
        IndicatorPlan { color: LightColor::Purple, show: true, attach: true, detach: false, target: IndicatorTarget::Hover }
    );
    assert_eq!(plans[2].target, IndicatorTarget::Orbit { slot: 1, count: 2 });

    inv.process_action(BeamAction::Preview);
    let plans = plan_indicators(&inv, &states, ShardMovementState::Stationary);
    assert_eq!(plans[1].target, IndicatorTarget::Held);

    inv.record_shot(77);
    let states = vec![st(LightColor::Purple, true)];
    let plans = plan_indicators(&inv, &states, ShardMovementState::Moving);
    assert_eq!(
        plans[0],
        IndicatorPlan { color: LightColor::Purple, show: true, attach: false, detach: true, target: IndicatorTarget::AtSource }
    );
}

#[test]
fn locked_colors_rest_at_source_hidden() {
    let inv = PlayerLightInventory::new();
    let states = vec![st(LightColor::Blue, false)];
    let plans = plan_indicators(&inv, &states, ShardMovementState::Stationary);
    assert_eq!(
        plans[0],
        IndicatorPlan { color: LightColor::Blue, show: false, attach: false, detach: false, target: IndicatorTarget::AtSource }
    );
}

#[test]
fn unplaced_indicator_joins_formation_untouched() {
    let inv = PlayerLightInventory::new();
    let states = vec![IndicatorState { color: LightColor::Blue, was_childed: true, placed: false }];
    let plans = plan_indicators(&inv, &states, ShardMovementState::Moving);
    assert_eq!(
        plans[0],
        IndicatorPlan { color: LightColor::Blue, show: false, attach: false, detach: false, target: IndicatorTarget::FollowLyra }
    );
}

#[test]
fn indicator_icons() {
    assert_eq!(indicator_icon(LightColor::Green), Some(0));
    assert_eq!(indicator_icon(LightColor::Purple), Some(1));
    assert_eq!(indicator_icon(LightColor::White), Some(2));
    assert_eq!(indicator_icon(LightColor::Blue), Some(3));
    assert_eq!(indicator_icon(LightColor::Black), None);
}

#[test]
fn indicators_start_with_lyra_once_unlocked() {
    let inv = inventory();
    assert_eq!(initial_placement(&inv, LightColor::Green), InitialPlacement::AtLyra);
    let locked = PlayerLightInventory::new();
    assert_eq!(initial_placement(&locked, LightColor::Green), InitialPlacement::HiddenAtShard);
}
