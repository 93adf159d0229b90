use gait::components::{FootTarget, Player};
use gait::math::Vec3;
use gait::resolver::target_at_side_system;

fn body_at(x: i64, y: i64, z: i64) -> Player {
    Player {
        position: Vec3 { x, y, z },
        current_speed: Vec3 { x: 0, y: 0, z: 0 },
        walk_height: 500,
        walk_width: 500,
        walk_spread: Vec3 { x: 1100, y: 1000, z: 1300 },
        pole_offset: Vec3 { x: 0, y: 0, z: 0 },
        pole_spread: Vec3 { x: 1000, y: 1000, z: 1000 },
    }
}

fn leg_target(owner: usize, offset: Vec3, position: Vec3) -> FootTarget {
    FootTarget { owner, foot: 0, anchor: 0, pos_offset: offset, position }
}

#[test]
fn target_follows_body_side() {
    let players = vec![body_at(10_000, 2_000, -4_000)];
    let mut targets = vec![leg_target(
        0,
        Vec3 { x: 600, y: 10, z: -330 },
        Vec3 { x: 0, y: 777, z: 0 },
    )];
    target_at_side_system(&players, &mut targets);
    // x: 10.0 + 0.6 * 1.1 = 10.66; z: -4.0 + -0.33 * 1.3 = -4.429
    assert_eq!(targets[0].position.x, 10_660);
    assert_eq!(targets[0].position.z, -4_429);
    // the vertical component belongs to the ground conformer and is untouched
    assert_eq!(targets[0].position.y, 777);
}

#[test]
fn resolver_is_idempotent() {
    let players = vec![body_at(-3_000, 0, 9_500)];
    let mut targets = vec![
        leg_target(0, Vec3 { x: -800, y: 0, z: 0 }, Vec3 { x: 1, y: 2, z: 3 }),
        leg_target(0, Vec3 { x: 500, y: 0, z: 600 }, Vec3 { x: 4, y: 5, z: 6 }),
    ];
    target_at_side_system(&players, &mut targets);
    let first = targets.clone();
    target_at_side_system(&players, &mut targets);
    assert_eq!(targets, first);
}

#[test]
fn resolver_skips_leg_without_body() {
    let players = vec![body_at(0, 0, 0)];
    let before = Vec3 { x: 123, y: 456, z: 789 };
    let mut targets = vec![leg_target(7, Vec3 { x: 600, y: 0, z: 600 }, before)];
    target_at_side_system(&players, &mut targets);
    assert_eq!(targets[0].position, before);
}

#[test]
fn resolver_scales_toward_zero() {
    // fixed-point products round toward zero on either sign
    let players = vec![body_at(0, 0, 0)];
    let mut targets = vec![
        leg_target(0, Vec3 { x: 1, y: 0, z: -1 }, Vec3 { x: 0, y: 0, z: 0 }),
    ];
    target_at_side_system(&players, &mut targets);
    // 1 * 1100 / 1000 -> 1; -1 * 1300 / 1000 -> -1
    assert_eq!(targets[0].position.x, 1);
    assert_eq!(targets[0].position.z, -1);
}
