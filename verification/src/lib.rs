//! The game logic of Lightborne, a puzzle platformer about light beams, with its contracts.
//!
//! - `color`: light colors and per-color maps.
//! - `merge_tile`: merging level tiles into maximal rectangles.
//! - `beam`, `light_path`: the player's light inventory, color switching and beam hit tracking.
//! - `crystal`, `sensor`, `platform`, `one_way`: level mechanics toggled and moved by light.
//! - `indicator`, `strand`, `animation`, `controller`: the player character.
//! - `dialogue`, `shard`, `restart_hint`, `egg`: story, pickups and hints.
//! - `level`, `level_select`, `progress`, `game_state`, `config`: levels, menus and settings.

pub mod color;
pub mod merge_tile;
pub mod beam;
pub mod light_path;
pub mod dialogue;
pub mod platform;
pub mod crystal;
pub mod indicator;
pub mod level_select;
pub mod sensor;
pub mod controller;
pub mod one_way;
pub mod restart_hint;
pub mod animation;
pub mod strand;
pub mod progress;
pub mod egg;
pub mod shard;
pub mod level;
pub mod game_state;
pub mod config;
