use vstd::prelude::*;

verus! {

/// Where the game loads its levels from.
#[derive(Clone, Debug)]
pub struct LevelConfig {
    pub level_path: String,
}

/// Debug switches.
#[derive(Clone, Copy, Debug, PartialEq, Eq, Structural)]
pub struct DebugConfig {
    pub ui: bool,
    pub unlock_levels: bool,
}

/// The movement keys, by their key code names.
#[derive(Clone, Debug)]
pub struct ControlsConfig {
    pub key_up: String,
    pub key_down: String,
    pub key_right: String,
    pub key_left: String,
    pub key_jump: String,
}

/// The game's configuration file.
#[derive(Clone, Debug)]
pub struct Config {
    pub level_config: LevelConfig,
    pub debug_config: DebugConfig,
    pub controls_config: ControlsConfig,
}

impl Default for DebugConfig {
    fn default() -> (d: DebugConfig)
        ensures
            !d.ui,
            !d.unlock_levels,
    {
        DebugConfig { ui: false, unlock_levels: false }
    }
}

impl Default for Config {
    /// The configuration used when there is no configuration file: the shipped levels, no debug
    /// switch, and WASD with space to jump.
    fn default() -> (c: Config)
        ensures
            c.level_config.level_path@ == "levels/lightborne.ldtk"@,
            !c.debug_config.ui,
            !c.debug_config.unlock_levels,
            c.controls_config.key_up@ == "KeyW"@,
            c.controls_config.key_down@ == "KeyS"@,
            c.controls_config.key_left@ == "KeyA"@,
            c.controls_config.key_right@ == "KeyD"@,
            c.controls_config.key_jump@ == "Space"@,
    {
        Config {
            level_config: LevelConfig { level_path: String::from_str("levels/lightborne.ldtk") },
            debug_config: DebugConfig::default(),
            controls_config: ControlsConfig {
                key_up: String::from_str("KeyW"),
                key_down: String::from_str("KeyS"),
                key_left: String::from_str("KeyA"),
                key_right: String::from_str("KeyD"),
                key_jump: String::from_str("Space"),
            },
        }
    }
}

} // verus!
