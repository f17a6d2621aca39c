use lightborne::beam::{BeamAction, PlayerLightInventory};
use lightborne::color::LightColor;
use lightborne::restart_hint::{is_stuck, HintRestartTimer, PLAYER_STUCK_TOOLTIP_DELAY_NANOS};

#[test]
fn stuck_when_every_unlocked_beam_is_out() {
    let mut inv = PlayerLightInventory::new();
    assert!(!is_stuck(&inv));
    inv.unlock(LightColor::Green);
    assert!(!is_stuck(&inv));
    inv.process_action(BeamAction::SwitchColor(Some(LightColor::Green)));
    inv.process_action(BeamAction::Preview);
    inv.record_shot(1);
    assert!(is_stuck(&inv));
    inv.unlock(LightColor::Blue);
    assert!(!is_stuck(&inv));
}

#[test]
fn hint_shows_once_after_delay() {
    let mut t = HintRestartTimer::new();
    assert!(!t.tick(true, 5_000_000_000));
    assert!(!t.tick(false, 1));
    assert_eq!(t.elapsed, 0);
    assert!(!t.tick(true, 7_000_000_000));
    assert!(t.tick(true, 1_000_000_000));
    assert!(t.paused);
    assert_eq!(t.elapsed, PLAYER_STUCK_TOOLTIP_DELAY_NANOS);
    assert!(!t.tick(true, 20_000_000_000));
    assert!(!t.tick(false, 1));
    assert!(!t.tick(true, 20_000_000_000));
    t.restart();
    assert!(t.tick(true, 9_000_000_000));
}
