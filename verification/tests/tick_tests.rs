use gait::components::{AnimationTimer, FootAnchor, FootPole, FootTarget, Player, RayHit, SNAP_STEP_MS};
use gait::math::Vec3;
use gait::pole::pole_system;
use gait::tick::{gait_tick, reset_anchors};

fn body() -> Player {
    Player {
        position: Vec3 { x: 10_000, y: 2_000, z: 0 },
        current_speed: Vec3 { x: 40, y: 0, z: 0 },
        walk_height: 500,
        walk_width: 500,
        walk_spread: Vec3 { x: 1100, y: 1000, z: 1300 },
        pole_offset: Vec3 { x: 0, y: 2_000, z: 0 },
        pole_spread: Vec3 { x: 1000, y: 1000, z: 1000 },
    }
}

fn leg(anchor: usize, offset: Vec3, anchor_pos: Vec3) -> (FootTarget, FootAnchor) {
    (
        FootTarget { owner: 0, foot: 0, anchor, pos_offset: offset, position: Vec3 { x: 0, y: 0, z: 0 } },
        FootAnchor { position: anchor_pos, ..FootAnchor::default() },
    )
}

#[test]
fn tick_walks_a_drifted_leg() {
    let players = vec![body()];
    // the resolved target sits at x = 10 + 0.6 * 1.1 = 10.66; the anchor
    // trails far behind, so the tick starts a step onto the ground plane
    let (t, a) = leg(0, Vec3 { x: 600, y: 0, z: 0 }, Vec3 { x: 8_000, y: 0, z: 0 });
    let mut targets = vec![t];
    let mut anchors = vec![a];
    let mut poles = vec![FootPole {
        owner: 0,
        pos_offset: Vec3 { x: 2_100, y: 1_000, z: -990 },
        position: Vec3 { x: 0, y: 0, z: 0 },
    }];
    let hits = vec![Some(RayHit { ground: true, height: 60 })];
    let tweens = gait_tick(&players, &mut targets, &mut anchors, &mut poles, &hits, 16);
    assert_eq!(targets[0].position, Vec3 { x: 10_660, y: 60, z: 0 });
    assert_eq!(tweens.len(), 1);
    assert_eq!(tweens[0].start, Vec3 { x: 8_000, y: 0, z: 0 });
    assert_eq!(tweens[0].end, Vec3 { x: 10_660, y: 60, z: 0 });
    assert!(anchors[0].moving);
    assert!(anchors[0].inverted);
    // the pole followed the body independently
    assert_eq!(poles[0].position, Vec3 { x: 12_100, y: 5_000, z: -990 });
}

#[test]
fn tick_raises_one_request_per_anchor() {
    // an obstacle under a leg that has also drifted: the conformer's
    // corrective snap claims the anchor and the trigger stays silent
    let players = vec![body()];
    let (t, a) = leg(0, Vec3 { x: 600, y: 0, z: 0 }, Vec3 { x: 0, y: 0, z: 0 });
    let mut targets = vec![t];
    let mut anchors = vec![a];
    let mut poles: Vec<FootPole> = Vec::new();
    let hits = vec![Some(RayHit { ground: false, height: 2_000 })];
    let tweens = gait_tick(&players, &mut targets, &mut anchors, &mut poles, &hits, 16);
    assert_eq!(targets[0].position.y, 2_200);
    assert_eq!(tweens.len(), 1);
    assert_eq!(tweens[0].duration_ms, SNAP_STEP_MS);
    assert_eq!(tweens[0].end, Vec3 { x: 10_660, y: 2_200, z: 0 });
    assert!(anchors[0].moving);
}

#[test]
fn tick_leaves_settled_legs_alone() {
    let players = vec![body()];
    // anchor already at the resolved, conformed resting point
    let (t, a) = leg(0, Vec3 { x: 600, y: 0, z: 0 }, Vec3 { x: 10_660, y: 60, z: 0 });
    let mut targets = vec![t];
    let mut anchors = vec![a];
    let mut poles: Vec<FootPole> = Vec::new();
    let hits = vec![Some(RayHit { ground: true, height: 60 })];
    let tweens = gait_tick(&players, &mut targets, &mut anchors, &mut poles, &hits, 16);
    assert!(tweens.is_empty());
    assert!(!anchors[0].moving);
    assert!(!anchors[0].inverted);
}

#[test]
fn independent_legs_step_independently() {
    let players = vec![body()];
    let (t0, a0) = leg(0, Vec3 { x: 600, y: 0, z: -330 }, Vec3 { x: 0, y: 0, z: 0 });
    let (t1, a1) = leg(1, Vec3 { x: -600, y: 0, z: 330 }, Vec3 { x: 9_340, y: 0, z: 429 });
    let mut targets = vec![t0, t1];
    let mut anchors = vec![a0, a1];
    let mut poles: Vec<FootPole> = Vec::new();
    let hits = vec![Some(RayHit { ground: true, height: 0 }), None];
    let tweens = gait_tick(&players, &mut targets, &mut anchors, &mut poles, &hits, 16);
    // leg 0 drifted and steps; leg 1 is already in place and stays idle
    assert_eq!(tweens.len(), 1);
    assert_eq!(tweens[0].anchor, 0);
    assert!(anchors[0].moving);
    assert!(!anchors[1].moving);
}

#[test]
fn external_reset_forces_all_anchors_idle() {
    let pos = Vec3 { x: 10, y: 20, z: 30 };
    let mut anchors = vec![
        FootAnchor {
            moving: true,
            animation_timer: AnimationTimer { duration: 300, elapsed: 40 },
            position: pos,
            ..FootAnchor::default()
        },
        FootAnchor::default(),
    ];
    reset_anchors(&mut anchors);
    assert!(!anchors[0].moving);
    assert_eq!(anchors[0].animation_timer.elapsed, anchors[0].animation_timer.duration);
    assert_eq!(anchors[0].position, pos);
    assert!(!anchors[1].moving);
}

#[test]
fn completion_signal_ends_step_early() {
    let mut anchor = FootAnchor {
        moving: true,
        animation_timer: AnimationTimer { duration: 200, elapsed: 10 },
        ..FootAnchor::default()
    };
    anchor.complete_step();
    assert!(!anchor.moving);
    assert!(anchor.animation_timer.finished());
}

#[test]
fn pole_follows_body_pose() {
    let players = vec![body()];
    let mut poles = vec![FootPole {
        owner: 0,
        pos_offset: Vec3 { x: -2_100, y: 1_000, z: 990 },
        position: Vec3 { x: 5, y: 5, z: 5 },
    }];
    pole_system(&players, &mut poles);
    // body + (pole offset + shared offset) * spread, per axis
    assert_eq!(poles[0].position, Vec3 { x: 7_900, y: 5_000, z: 990 });
}
