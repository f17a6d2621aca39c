use lightborne::config::Config;

#[test]
fn default_config() {
    let c = Config::default();
    assert_eq!(c.level_config.level_path, "levels/lightborne.ldtk");
    assert!(!c.debug_config.ui && !c.debug_config.unlock_levels);
    assert_eq!(c.controls_config.key_up, "KeyW");
    assert_eq!(c.controls_config.key_down, "KeyS");
    assert_eq!(c.controls_config.key_left, "KeyA");
    assert_eq!(c.controls_config.key_right, "KeyD");
    assert_eq!(c.controls_config.key_jump, "Space");
}
