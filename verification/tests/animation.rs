use lightborne::animation::{set_animation, AnimationConfig, MotionState, PlayerAnimationType};

fn motion(grounded: bool, was_grounded: bool, rising: bool, walking: bool, crouched: bool) -> MotionState {
    MotionState { grounded, was_grounded, rising, walking, crouched }
}

#[test]
fn configs_of_animations() {
    assert_eq!(PlayerAnimationType::Walk.config(), AnimationConfig::new(3, 10, 12, true));
    assert_eq!(PlayerAnimationType::Idle.config(), AnimationConfig::new(0, 2, 6, true));
    assert_eq!(PlayerAnimationType::Crouch.config(), AnimationConfig::new(11, 14, 48, false));
    assert_eq!(PlayerAnimationType::Jump.config(), AnimationConfig::new(15, 20, 24, false));
    assert_eq!(PlayerAnimationType::Fall.config(), AnimationConfig::new(21, 24, 24, false));
    assert_eq!(PlayerAnimationType::Land.config(), AnimationConfig::new(25, 28, 18, false));
}

#[test]
fn frames_advance_and_loop_or_finish() {
    let mut idle = AnimationConfig::new(0, 2, 6, true);
    idle.advance();
    idle.advance();
    assert_eq!(idle.cur_index, 2);
    idle.advance();
    assert_eq!(idle.cur_index, 0);
    assert!(!idle.finished);
    let mut land = AnimationConfig::new(25, 26, 18, false);
    land.advance();
    assert_eq!(land.cur_index, 26);
    assert!(!land.finished);
    land.advance();
    assert_eq!(land.cur_index, 26);
    assert!(land.finished);
}

#[test]
fn animation_follows_motion() {
    let mut anim = PlayerAnimationType::Idle;
    let mut config = anim.config();
    set_animation(&mut anim, &mut config, motion(false, true, true, false, false));
    assert_eq!(anim, PlayerAnimationType::Jump);
    set_animation(&mut anim, &mut config, motion(false, false, false, false, false));
    assert_eq!(anim, PlayerAnimationType::Fall);
    set_animation(&mut anim, &mut config, motion(true, false, false, true, false));
    assert_eq!(anim, PlayerAnimationType::Land);
    assert_eq!(config, PlayerAnimationType::Land.config());
    set_animation(&mut anim, &mut config, motion(true, true, false, true, false));
    assert_eq!(anim, PlayerAnimationType::Land);
    for _ in 0..4 {
        config.advance();
    }
    assert!(config.finished);
    set_animation(&mut anim, &mut config, motion(true, true, false, true, false));
    assert_eq!(anim, PlayerAnimationType::Walk);
    set_animation(&mut anim, &mut config, motion(true, true, false, false, true));
    assert_eq!(anim, PlayerAnimationType::Crouch);
    set_animation(&mut anim, &mut config, motion(true, true, false, false, false));
    assert_eq!(anim, PlayerAnimationType::Idle);
}

#[test]
fn animation_config_from_type() {
    assert_eq!(AnimationConfig::from(PlayerAnimationType::Fall), AnimationConfig::new(21, 24, 24, false));
}
