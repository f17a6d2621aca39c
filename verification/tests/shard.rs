use lightborne::beam::{BeamAction, PlayerLightInventory, PlayerLightProgress};
use lightborne::color::{ColorMap, LightColor};
use lightborne::shard::{shard_text, shard_animation, shard_starts_hidden, ShardAnimationRes, ShardMods};

#[test]
fn shard_sprite_rows() {
    let a = shard_animation(LightColor::Purple);
    assert_eq!((a.first_index, a.last_index, a.cur_index, a.fps, a.repeat), (14, 20, 14, 6, true));
    let b = shard_animation(LightColor::Blue);
    assert_eq!((b.first_index, b.last_index), (0, 6));
    let w = shard_animation(LightColor::White);
    assert_eq!((w.first_index, w.last_index), (21, 27));
}

#[test]
fn pickup_animation_unlocks_color() {
    let mut inv = PlayerLightInventory::new();
    let mut progress = PlayerLightProgress::new();
    assert!(!shard_starts_hidden(&inv, LightColor::Green));
    let mut res = ShardAnimationRes::new();
    assert!(res.start(9, LightColor::Green));
    assert!(!res.start(10, LightColor::Blue));
    let (shard, action) = res.finish_reading(&mut inv, &mut progress);
    assert_eq!(shard, 9);
    assert_eq!(action, BeamAction::SwitchColor(Some(LightColor::Green)));
    assert!(inv.allowed.get(LightColor::Green));
    assert!(progress.unlocked.get(LightColor::Green));
    assert!(shard_starts_hidden(&inv, LightColor::Green));
    res.finish();
    assert!(res.start(10, LightColor::Blue));
}

#[test]
fn temporary_colors_revoked_on_respawn() {
    let mut allowed = ColorMap::filled(false);
    allowed.set(LightColor::White, true);
    let mut mods = ShardMods::new();
    mods.on_pickup(LightColor::Green, &allowed);
    mods.on_pickup(LightColor::White, &allowed);
    allowed.set(LightColor::Green, true);
    mods.revoke(&mut allowed);
    assert!(!allowed.get(LightColor::Green));
    assert!(allowed.get(LightColor::White));
    mods.clear();
    allowed.set(LightColor::Green, true);
    mods.revoke(&mut allowed);
    assert!(allowed.get(LightColor::Green));
}

#[test]
fn shard_pickup_lines() {
    assert_eq!(
        shard_text(LightColor::Purple),
        Some("This one's even more powerful... the purple light beam should bounce twice instead of once.")
    );
    assert!(shard_text(LightColor::Green).unwrap().starts_with("Oh good"));
    assert_eq!(shard_text(LightColor::Black), None);
}
