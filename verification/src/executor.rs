//! Step executor: consumes each step request exactly once and starts the
//! interpolation that carries the anchor to its destination.
//!
//! The destination is the target's current, ground-conformed position; when
//! the anchor's alternation flag is set, the body's nominal step height is
//! added, so triggered steps alternate between a mid-air lift waypoint and a
//! placement at true ground height. Each consumed request flips the flag,
//! marks the anchor as in flight, and restores the anchor's countdown to its
//! full configured step duration — never the possibly shorter requested one,
//! so the countdown cannot run out before a long step completes. A request
//! whose anchor or target no longer resolves is dropped silently.

use vstd::prelude::*;

use crate::components::{
    AnimationTimer, FootAnchor, FootTarget, MoveAnchorEvent, Player, StepTween,
};
use crate::math::Vec3;

verus! {

/// Where a consumed step request sends the anchor: the target's position,
/// lifted by the body's nominal step height when the anchor's alternation
/// flag is set and the body resolves.
pub open spec fn step_destination(players: Seq<Player>, t: FootTarget, a: FootAnchor) -> Vec3 {
    if a.inverted && t.owner < players.len() {
        Vec3 {
            x: t.position.x,
            y: (t.position.y + players[t.owner as int].walk_height) as i64,
            z: t.position.z,
        }
    } else {
        t.position
    }
}

/// An anchor after it consumed a step request: alternation flag flipped, in
/// flight, countdown restored to the full configured step duration.
pub open spec fn executed_anchor(a: FootAnchor) -> FootAnchor {
    FootAnchor {
        foot: a.foot,
        target: a.target,
        animation_duration: a.animation_duration,
        animation_timer: AnimationTimer { duration: a.animation_duration, elapsed: 0 },
        pos_error_margin: a.pos_error_margin,
        max_distance: a.max_distance,
        moving: true,
        inverted: !a.inverted,
        position: a.position,
    }
}

/// The interpolation command a consumed request starts: from the anchor's
/// current position to the resolved destination, over the requested
/// duration.
pub open spec fn step_tween(
    players: Seq<Player>,
    targets: Seq<FootTarget>,
    a: FootAnchor,
    e: MoveAnchorEvent,
) -> StepTween {
    StepTween {
        anchor: e.anchor,
        start: a.position,
        end: step_destination(players, targets[e.target as int], a),
        duration_ms: e.animation_duration,
    }
}

/// Whether a step request still resolves to a live anchor and target.
pub open spec fn event_resolves(
    targets: Seq<FootTarget>,
    anchors: Seq<FootAnchor>,
    e: MoveAnchorEvent,
) -> bool {
    e.anchor < anchors.len() && e.target < targets.len()
}

/// The anchors after the executor consumed the first `n` requests.
pub open spec fn execute_anchors_upto(
    targets: Seq<FootTarget>,
    anchors: Seq<FootAnchor>,
    events: Seq<MoveAnchorEvent>,
    n: int,
) -> Seq<FootAnchor>
    decreases n,
{
    if n <= 0 {
        anchors
    } else {
        let prev = execute_anchors_upto(targets, anchors, events, n - 1);
        let e = events[n - 1];
        if event_resolves(targets, prev, e) {
            prev.update(e.anchor as int, executed_anchor(prev[e.anchor as int]))
        } else {
            prev
        }
    }
}

/// The interpolation commands started while the executor consumed the first
/// `n` requests, in request order.
pub open spec fn execute_tweens_upto(
    players: Seq<Player>,
    targets: Seq<FootTarget>,
    anchors: Seq<FootAnchor>,
    events: Seq<MoveAnchorEvent>,
    n: int,
) -> Seq<StepTween>
    decreases n,
{
    if n <= 0 {
        Seq::empty()
    } else {
        let pre = execute_tweens_upto(players, targets, anchors, events, n - 1);
        let prev = execute_anchors_upto(targets, anchors, events, n - 1);
        let e = events[n - 1];
        if event_resolves(targets, prev, e) {
            pre.push(step_tween(players, targets, prev[e.anchor as int], e))
        } else {
            pre
        }
    }
}

/// Consuming a prefix of the requests never changes how many anchors there
/// are.
pub proof fn lemma_execute_anchors_upto_len(
    targets: Seq<FootTarget>,
    anchors: Seq<FootAnchor>,
    events: Seq<MoveAnchorEvent>,
    n: int,
)
    ensures
        execute_anchors_upto(targets, anchors, events, n).len() == anchors.len(),
    decreases n,
{
    if n > 0 {
        lemma_execute_anchors_upto_len(targets, anchors, events, n - 1);
    }
}

/// Consumes every step request of this tick, in order, and returns the
/// interpolation commands to hand to the external step interpolator.
pub fn anchor_move_event_system(
    players: &Vec<Player>,
    foot_targets: &Vec<FootTarget>,
    anchors: &mut Vec<FootAnchor>,
    move_events: Vec<MoveAnchorEvent>,
) -> (tweens: Vec<StepTween>)
    requires
        forall|i: int| 0 <= i < players@.len() ==> (#[trigger] players@[i]).wf(),
        forall|i: int| 0 <= i < foot_targets@.len() ==> (#[trigger] foot_targets@[i]).wf(),
        forall|i: int| 0 <= i < old(anchors)@.len() ==> (#[trigger] old(anchors)@[i]).wf(),
    ensures
        final(anchors)@ == execute_anchors_upto(
            foot_targets@,
            old(anchors)@,
            move_events@,
            move_events@.len() as int,
        ),
        tweens@ == execute_tweens_upto(
            players@,
            foot_targets@,
            old(anchors)@,
            move_events@,
            move_events@.len() as int,
        ),
        forall|i: int| 0 <= i < final(anchors)@.len() ==> (#[trigger] final(anchors)@[i]).wf(),
        final(anchors)@.len() == old(anchors)@.len(),
{
    let n: usize = move_events.len();
    let mut tweens: Vec<StepTween> = Vec::new();
    let mut i: usize = 0;
    while i < n
        invariant
            n == move_events@.len(),
            i <= n,
            anchors@.len() == old(anchors)@.len(),
            forall|j: int| 0 <= j < players@.len() ==> (#[trigger] players@[j]).wf(),
            forall|j: int| 0 <= j < foot_targets@.len() ==> (#[trigger] foot_targets@[j]).wf(),
            anchors@ == execute_anchors_upto(foot_targets@, old(anchors)@, move_events@, i as int),
            tweens@ == execute_tweens_upto(
                players@,
                foot_targets@,
                old(anchors)@,
                move_events@,
                i as int,
            ),
            forall|j: int| 0 <= j < anchors@.len() ==> (#[trigger] anchors@[j]).wf(),
        decreases n - i,
    {
        let e = move_events[i];
        if e.anchor < anchors.len() && e.target < foot_targets.len() {
            let a = anchors[e.anchor];
            let t = foot_targets[e.target];
            let end: Vec3 = if a.inverted && t.owner < players.len() {
                Vec3 {
                    x: t.position.x,
                    y: t.position.y + players[t.owner].walk_height,
                    z: t.position.z,
                }
            } else {
                t.position
            };
            tweens.push(
                StepTween {
                    anchor: e.anchor,
                    start: a.position,
                    end,
                    duration_ms: e.animation_duration,
                },
            );
            anchors.set(
                e.anchor,
                FootAnchor {
                    foot: a.foot,
                    target: a.target,
                    animation_duration: a.animation_duration,
                    animation_timer: AnimationTimer::new(a.animation_duration),
                    pos_error_margin: a.pos_error_margin,
                    max_distance: a.max_distance,
                    moving: true,
                    inverted: !a.inverted,
                    position: a.position,
                },
            );
        }
        i = i + 1;
    }
    tweens
}

/// Alternation: a leg stepped three times in a row with its alternation
/// flag initially clear is sent first to the target's ground height, then a
/// nominal step height above it, then back to ground height.
pub proof fn lemma_alternation(players: Seq<Player>, t: FootTarget, a: FootAnchor)
    requires
        !a.inverted,
        t.owner < players.len(),
        t.wf(),
        players[t.owner as int].wf(),
    ensures
        step_destination(players, t, a).y == t.position.y,
        step_destination(players, t, executed_anchor(a)).y == t.position.y + players[
            t.owner as int
        ].walk_height,
        step_destination(players, t, executed_anchor(executed_anchor(a))).y == t.position.y,
{
}

} // verus!
