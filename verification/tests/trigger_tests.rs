use gait::components::{AnimationTimer, FootAnchor, FootTarget, MoveAnchorEvent, Player};
use gait::math::Vec3;
use gait::trigger::{anchor_move_event_trigger_system, speed_factor, step_duration};

fn body_with_speed(x: i64, z: i64) -> Player {
    Player {
        position: Vec3 { x: 0, y: 0, z: 0 },
        current_speed: Vec3 { x, y: 0, z },
        walk_height: 500,
        walk_width: 500,
        walk_spread: Vec3 { x: 1000, y: 1000, z: 1000 },
        pole_offset: Vec3 { x: 0, y: 0, z: 0 },
        pole_spread: Vec3 { x: 1000, y: 1000, z: 1000 },
    }
}

fn leg(anchor: usize, target_pos: Vec3) -> FootTarget {
    FootTarget {
        owner: 0,
        foot: 0,
        anchor,
        pos_offset: Vec3 { x: 0, y: 0, z: 0 },
        position: target_pos,
    }
}

fn idle_anchor_at(x: i64, z: i64) -> FootAnchor {
    FootAnchor { position: Vec3 { x, y: 0, z }, ..FootAnchor::default() }
}

#[test]
fn within_threshold_no_request() {
    // anchor exactly at the stance half-width: distance is not exceeded
    let players = vec![body_with_speed(0, 0)];
    let targets = vec![leg(0, Vec3 { x: 500, y: 0, z: 0 })];
    let mut anchors = vec![idle_anchor_at(0, 0)];
    let mut events: Vec<MoveAnchorEvent> = Vec::new();
    anchor_move_event_trigger_system(&players, &targets, &mut anchors, 16, &mut events);
    assert!(events.is_empty());
    assert!(!anchors[0].moving);
}

#[test]
fn drift_beyond_threshold_requests_step() {
    let players = vec![body_with_speed(0, 0)];
    let targets = vec![leg(0, Vec3 { x: 501, y: 0, z: 0 })];
    let mut anchors = vec![idle_anchor_at(0, 0)];
    let mut events: Vec<MoveAnchorEvent> = Vec::new();
    anchor_move_event_trigger_system(&players, &targets, &mut anchors, 16, &mut events);
    assert_eq!(events.len(), 1);
    assert_eq!(events[0].anchor, 0);
    assert_eq!(events[0].target, 0);
    // at rest the speed factor floors at 2.0: 200 ms / 2.0 = 100 ms
    assert_eq!(events[0].animation_duration, 100);
    assert!(anchors[0].moving);
}

#[test]
fn no_second_request_while_moving() {
    let players = vec![body_with_speed(0, 0)];
    let targets = vec![leg(0, Vec3 { x: 5_000, y: 0, z: 0 })];
    let mut anchors = vec![idle_anchor_at(0, 0)];
    let mut events: Vec<MoveAnchorEvent> = Vec::new();
    anchor_move_event_trigger_system(&players, &targets, &mut anchors, 16, &mut events);
    assert_eq!(events.len(), 1);
    // the next tick sees the anchor in flight and skips it, however far away
    anchor_move_event_trigger_system(&players, &targets, &mut anchors, 16, &mut events);
    assert_eq!(events.len(), 1);
    assert!(anchors[0].moving);
}

#[test]
fn timeout_frees_stuck_anchor_exactly_on_time() {
    let players = vec![body_with_speed(0, 0)];
    // keep the anchor within the threshold so no new step fires
    let targets = vec![leg(0, Vec3 { x: 0, y: 0, z: 0 })];
    let mut anchors = vec![FootAnchor {
        moving: true,
        animation_timer: AnimationTimer { duration: 200, elapsed: 0 },
        ..FootAnchor::default()
    }];
    let mut events: Vec<MoveAnchorEvent> = Vec::new();
    anchor_move_event_trigger_system(&players, &targets, &mut anchors, 199, &mut events);
    assert!(anchors[0].moving);
    anchor_move_event_trigger_system(&players, &targets, &mut anchors, 1, &mut events);
    assert!(!anchors[0].moving);
    assert!(events.is_empty());
}

#[test]
fn trigger_skips_leg_without_body() {
    let players = vec![body_with_speed(0, 0)];
    let mut far_leg = leg(0, Vec3 { x: 9_000, y: 0, z: 0 });
    far_leg.owner = 3;
    let targets = vec![far_leg];
    let mut anchors = vec![idle_anchor_at(0, 0)];
    let mut events: Vec<MoveAnchorEvent> = Vec::new();
    anchor_move_event_trigger_system(&players, &targets, &mut anchors, 16, &mut events);
    assert!(events.is_empty());
    assert!(!anchors[0].moving);
}

#[test]
fn speed_factor_ramp() {
    // at rest the factor floors at 2.0; at speed 1.0 it is 2 + 15 = 17
    assert_eq!(speed_factor(&Vec3 { x: 0, y: 0, z: 0 }), 2_000);
    assert_eq!(speed_factor(&Vec3 { x: 1_000, y: 0, z: 0 }), 17_000);
    assert_eq!(speed_factor(&Vec3 { x: 0, y: 0, z: 1_000 }), 17_000);
    // the vertical component never counts
    assert_eq!(speed_factor(&Vec3 { x: 0, y: 9_000, z: 0 }), 2_000);
}

#[test]
fn faster_body_means_shorter_steps() {
    let at_rest = step_duration(200, speed_factor(&Vec3 { x: 0, y: 0, z: 0 }));
    let walking = step_duration(200, speed_factor(&Vec3 { x: 1_000, y: 0, z: 0 }));
    assert_eq!(at_rest, 100);
    assert_eq!(walking, 11); // 200 * 1000 / 17000
    assert!(walking < at_rest);
}

#[test]
fn timer_caps_at_duration() {
    let mut t = AnimationTimer::new(50);
    t.tick(49);
    assert!(!t.finished());
    t.tick(500);
    assert_eq!(t.elapsed, 50);
    assert!(t.finished());
}
