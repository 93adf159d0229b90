use gait::components::{FootAnchor, FootTarget, MoveAnchorEvent, Player};
use gait::executor::anchor_move_event_system;
use gait::math::Vec3;

fn body() -> Player {
    Player {
        position: Vec3 { x: 0, y: 0, z: 0 },
        current_speed: Vec3 { x: 0, y: 0, z: 0 },
        walk_height: 500,
        walk_width: 500,
        walk_spread: Vec3 { x: 1000, y: 1000, z: 1000 },
        pole_offset: Vec3 { x: 0, y: 0, z: 0 },
        pole_spread: Vec3 { x: 1000, y: 1000, z: 1000 },
    }
}

fn leg_target(pos: Vec3) -> FootTarget {
    FootTarget { owner: 0, foot: 0, anchor: 0, pos_offset: Vec3 { x: 0, y: 0, z: 0 }, position: pos }
}

fn request(duration: u64) -> MoveAnchorEvent {
    MoveAnchorEvent { anchor: 0, target: 0, animation_duration: duration }
}

#[test]
fn alternation_lifts_every_other_step() {
    // three consecutive steps: ground height, ground + walk height, ground
    let players = vec![body()];
    let targets = vec![leg_target(Vec3 { x: 700, y: 120, z: 0 })];
    let mut anchors = vec![FootAnchor::default()];
    assert!(!anchors[0].inverted);

    let first = anchor_move_event_system(&players, &targets, &mut anchors, vec![request(100)]);
    assert_eq!(first[0].end.y, 120);
    assert!(anchors[0].inverted);

    let second = anchor_move_event_system(&players, &targets, &mut anchors, vec![request(100)]);
    assert_eq!(second[0].end.y, 620);
    assert!(!anchors[0].inverted);

    let third = anchor_move_event_system(&players, &targets, &mut anchors, vec![request(100)]);
    assert_eq!(third[0].end.y, 120);
}

#[test]
fn step_starts_from_anchor_position() {
    let players = vec![body()];
    let targets = vec![leg_target(Vec3 { x: 700, y: 0, z: -300 })];
    let start = Vec3 { x: 11, y: 22, z: 33 };
    let mut anchors = vec![FootAnchor { position: start, ..FootAnchor::default() }];
    let tweens = anchor_move_event_system(&players, &targets, &mut anchors, vec![request(64)]);
    assert_eq!(tweens.len(), 1);
    assert_eq!(tweens[0].anchor, 0);
    assert_eq!(tweens[0].start, start);
    assert_eq!(tweens[0].end, Vec3 { x: 700, y: 0, z: -300 });
    assert_eq!(tweens[0].duration_ms, 64);
}

#[test]
fn executor_marks_anchor_moving_and_rewinds_countdown() {
    // the countdown is restored to the configured full step duration, not
    // the shorter requested one
    let players = vec![body()];
    let targets = vec![leg_target(Vec3 { x: 0, y: 0, z: 0 })];
    let mut anchors = vec![FootAnchor::default()];
    anchors[0].animation_timer.tick(150);
    let tweens = anchor_move_event_system(&players, &targets, &mut anchors, vec![request(20)]);
    assert_eq!(tweens[0].duration_ms, 20);
    assert!(anchors[0].moving);
    assert_eq!(anchors[0].animation_timer.elapsed, 0);
    assert_eq!(anchors[0].animation_timer.duration, 200);
}

#[test]
fn stale_request_is_dropped() {
    let players = vec![body()];
    let targets = vec![leg_target(Vec3 { x: 0, y: 0, z: 0 })];
    let mut anchors = vec![FootAnchor::default()];
    let before = anchors.clone();
    let stale_anchor = MoveAnchorEvent { anchor: 5, target: 0, animation_duration: 50 };
    let stale_target = MoveAnchorEvent { anchor: 0, target: 9, animation_duration: 50 };
    let tweens =
        anchor_move_event_system(&players, &targets, &mut anchors, vec![stale_anchor, stale_target]);
    assert!(tweens.is_empty());
    assert_eq!(anchors, before);
}

#[test]
fn lift_without_body_stays_at_ground_height() {
    // an inverted anchor whose owner cannot be resolved still steps, but
    // without the lift offset
    let players = vec![body()];
    let mut t = leg_target(Vec3 { x: 0, y: 80, z: 0 });
    t.owner = 4;
    let targets = vec![t];
    let mut anchors = vec![FootAnchor { inverted: true, ..FootAnchor::default() }];
    let tweens = anchor_move_event_system(&players, &targets, &mut anchors, vec![request(30)]);
    assert_eq!(tweens[0].end.y, 80);
    assert!(!anchors[0].inverted);
}
