use lightborne::controller::{
    keyboard_actions, ActionOutcome, MovementAction, MovementInfo, MovementKeys, VerticalMotion, COYOTE_TIME_TICKS,
    JUMP_BOOST_TICKS, SHOULD_JUMP_TICKS,
};

#[test]
fn jump_on_ground_boosts() {
    let mut m = MovementInfo::new();
    let out = m.take_actions(true, &vec![MovementAction::Jump], false);
    assert_eq!(out, ActionOutcome { moved: false, cuts: 0 });
    assert_eq!(m.should_jump_ticks, SHOULD_JUMP_TICKS);
    assert_eq!(m.coyote_time_ticks, COYOTE_TIME_TICKS);
    assert_eq!(m.jump_boost_ticks, JUMP_BOOST_TICKS);
    assert_eq!(m.finish_step(false, false, true), VerticalMotion::JumpBoost);
    assert_eq!((m.should_jump_ticks, m.coyote_time_ticks, m.jump_boost_ticks), (7, 4, 1));
}

#[test]
fn jump_in_air_without_coyote_time_waits() {
    let mut m = MovementInfo::new();
    m.take_actions(false, &vec![MovementAction::Jump], false);
    assert_eq!(m.jump_boost_ticks, 0);
    assert_eq!(m.finish_step(false, false, false), VerticalMotion::Fall);
    m.take_actions(true, &vec![], false);
    assert_eq!(m.jump_boost_ticks, JUMP_BOOST_TICKS);
}

#[test]
fn releasing_jump_while_rising_cuts() {
    let mut m = MovementInfo::new();
    m.take_actions(true, &vec![MovementAction::Jump], false);
    let out = m.take_actions(false, &vec![MovementAction::Move, MovementAction::JumpCut, MovementAction::JumpCut], true);
    assert_eq!(out, ActionOutcome { moved: true, cuts: 2 });
    assert_eq!((m.should_jump_ticks, m.jump_boost_ticks), (0, 0));
    let out = m.take_actions(false, &vec![MovementAction::JumpCut], false);
    assert_eq!(out.cuts, 0);
}

#[test]
fn crouch_and_stand() {
    let mut m = MovementInfo::new();
    m.take_actions(true, &vec![MovementAction::Crouch], false);
    assert!(m.crouched);
    m.take_actions(true, &vec![MovementAction::Crouch, MovementAction::Stand], false);
    assert!(!m.crouched);
}

#[test]
fn vertical_motion_choices() {
    let mut m = MovementInfo::new();
    assert_eq!(m.finish_step(true, true, true), VerticalMotion::NudgeUp);
    assert_eq!(m.finish_step(false, true, true), VerticalMotion::Rest);
    assert_eq!(m.finish_step(false, false, true), VerticalMotion::Fall);
    assert_eq!(m.coyote_time_ticks, -3);
}

#[test]
fn keys_to_actions() {
    let keys = MovementKeys { left: true, right: false, jump_pressed: true, jump_released: false, crouch_pressed: false, crouch_released: true };
    assert_eq!(keyboard_actions(keys), (-1, vec![MovementAction::Move, MovementAction::Jump, MovementAction::Stand]));
    let both = MovementKeys { left: true, right: true, jump_pressed: false, jump_released: true, crouch_pressed: true, crouch_released: false };
    assert_eq!(keyboard_actions(both), (0, vec![MovementAction::JumpCut, MovementAction::Crouch]));
}
