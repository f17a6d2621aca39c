use lightborne::game_state::{kill_starts_animation, toggle_pause, Cruciera, GameState, SpeedrunTimer};

#[test]
fn pause_toggles_only_play() {
    assert_eq!(toggle_pause(GameState::Playing), GameState::Paused);
    assert_eq!(toggle_pause(GameState::Paused), GameState::Playing);
    assert_eq!(toggle_pause(GameState::Ui), GameState::Ui);
    assert_eq!(toggle_pause(GameState::Animating), GameState::Animating);
}

#[test]
fn kill_only_while_playing() {
    assert!(kill_starts_animation(GameState::Playing));
    assert!(!kill_starts_animation(GameState::Animating));
    assert!(!kill_starts_animation(GameState::Paused));
}

#[test]
fn speedrun_timer_runs_while_playing() {
    let mut t = SpeedrunTimer::new();
    t.tick(GameState::Playing, 5);
    t.tick(GameState::Paused, 7);
    t.tick(GameState::Playing, 2);
    assert_eq!(t.elapsed, 7);
}

#[test]
fn cutscene_plays_once_per_visit() {
    let mut c = Cruciera::new();
    assert!(!c.check_start(GameState::Playing, false));
    assert!(!c.check_start(GameState::Animating, true));
    assert!(c.check_start(GameState::Playing, true));
    assert!(!c.check_start(GameState::Playing, true));
    c.reset();
    assert!(c.check_start(GameState::Playing, true));
}
