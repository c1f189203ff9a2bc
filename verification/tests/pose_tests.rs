use tank::pose::{
    Pose, ANIM_CROUCH, ANIM_HIT, ANIM_IDLE, ANIM_JUMP, ANIM_STANDUP, ANIM_THROW_LEFT,
    ANIM_THROW_RIGHT, ANIM_WALK,
};

fn ended(a: usize) -> Vec<bool> {
    (0..8).map(|i| i == a).collect()
}

#[test]
fn a_fighter_starts_idling_to_the_right() {
    let p = Pose::new();
    assert_eq!((p.current, p.last, p.front), (Some(ANIM_IDLE), None, 1));
    assert!(p.flips[ANIM_IDLE]);
}

#[test]
fn walking_turns_the_fighter() {
    let mut p = Pose::new();
    p.walk_left();
    assert_eq!((p.current, p.last, p.front), (Some(ANIM_WALK), Some(ANIM_IDLE), 0));
    assert!(!p.flips[ANIM_WALK]);
    p.walk_right();
    assert!(p.flips[ANIM_WALK]);
}

#[test]
fn crouching_blocks_walking_and_throwing() {
    let mut p = Pose::new();
    assert_eq!(p.crouch(), Some(ANIM_CROUCH));
    p.walk_up();
    assert_eq!(p.current, Some(ANIM_CROUCH));
    assert_eq!(p.throw_left(), None);
    p.idle();
    assert_eq!(p.current, Some(ANIM_CROUCH));
    assert_eq!(p.standup(), Some(ANIM_STANDUP));
    p.after_frame(&ended(ANIM_STANDUP));
    assert_eq!(p.current, Some(ANIM_IDLE));
}

#[test]
fn a_finished_throw_goes_back() {
    let mut p = Pose::new();
    p.walk_down();
    assert_eq!(p.throw_right(), Some(ANIM_THROW_RIGHT));
    assert_eq!(p.throw_left(), None);
    p.after_frame(&ended(ANIM_IDLE));
    assert_eq!(p.current, Some(ANIM_THROW_RIGHT));
    p.after_frame(&ended(ANIM_THROW_RIGHT));
    assert_eq!((p.current, p.last), (Some(ANIM_WALK), None));
    let _ = ANIM_THROW_LEFT;
}

#[test]
fn only_an_idle_fighter_is_hit() {
    let mut p = Pose::new();
    assert_eq!(p.hit(), Some(ANIM_HIT));
    assert_eq!(p.hit(), None);
    p.after_frame(&ended(ANIM_HIT));
    assert_eq!(p.current, Some(ANIM_IDLE));
    assert_eq!(p.jump(), Some(ANIM_JUMP));
    assert_eq!(p.jump(), None);
    assert_eq!(p.crouch(), None);
    p.after_frame(&ended(ANIM_JUMP));
    assert_eq!(p.current, Some(ANIM_IDLE));
}
