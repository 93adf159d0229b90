//! Ground conformer: pins each target's height to the terrain below it.
//!
//! The caller casts one downward ray per leg, excluding the body's own
//! collision volume, and hands in the outcomes. A miss leaves the target's
//! last known height untouched. A hit on the ground plane sets the target's
//! height to the hit point. A hit on any other surface additionally adds a
//! fixed clearance and, when the leg's anchor is idle, claims the anchor
//! and enqueues a fast corrective step request, bypassing the trigger's
//! distance threshold: obstacles are climbed promptly rather than at the
//! gait cadence. Claiming an idle anchor also restores its full countdown,
//! so the claim cannot time out before the executor starts the step.

use vstd::prelude::*;

use crate::components::{
    AnimationTimer, FootAnchor, FootTarget, MoveAnchorEvent, RayHit, OBSTACLE_CLEARANCE,
    SNAP_STEP_MS,
};
use crate::math::Vec3;

verus! {

/// One target after the conformer ran: height taken from the ray hit, with
/// the obstacle clearance added on a surface other than the ground plane;
/// unchanged on a miss.
pub open spec fn conformed_target(t: FootTarget, hit: Option<RayHit>) -> FootTarget {
    match hit {
        Option::None => t,
        Option::Some(h) => FootTarget {
            owner: t.owner,
            foot: t.foot,
            anchor: t.anchor,
            pos_offset: t.pos_offset,
            position: Vec3 {
                x: t.position.x,
                y: if h.ground {
                    h.height
                } else {
                    (h.height + OBSTACLE_CLEARANCE) as i64
                },
                z: t.position.z,
            },
        },
    }
}

/// All targets after the conformer ran, leg by leg.
pub open spec fn conformed_targets(targets: Seq<FootTarget>, hits: Seq<Option<RayHit>>) -> Seq<
    FootTarget,
> {
    Seq::new(targets.len(), |i: int| conformed_target(targets[i], hits[i]))
}

/// Whether the conformer claims this leg's anchor for a corrective step: the
/// ray hit a surface other than the ground plane, the anchor resolves, and
/// no step is already in flight.
pub open spec fn conform_claims(
    anchors: Seq<FootAnchor>,
    t: FootTarget,
    hit: Option<RayHit>,
) -> bool {
    &&& hit is Some
    &&& !hit->Some_0.ground
    &&& t.anchor < anchors.len()
    &&& !anchors[t.anchor as int].moving
}

/// An anchor just claimed for a step: in flight, with its countdown restored
/// to the full configured step duration.
pub open spec fn claimed_anchor(a: FootAnchor) -> FootAnchor {
    FootAnchor {
        foot: a.foot,
        target: a.target,
        animation_duration: a.animation_duration,
        animation_timer: AnimationTimer { duration: a.animation_duration, elapsed: 0 },
        pos_error_margin: a.pos_error_margin,
        max_distance: a.max_distance,
        moving: true,
        inverted: a.inverted,
        position: a.position,
    }
}

/// The anchors after the conformer processed the first `n` legs.
pub open spec fn conform_anchors_upto(
    targets: Seq<FootTarget>,
    hits: Seq<Option<RayHit>>,
    anchors: Seq<FootAnchor>,
    n: int,
) -> Seq<FootAnchor>
    decreases n,
{
    if n <= 0 {
        anchors
    } else {
        let prev = conform_anchors_upto(targets, hits, anchors, n - 1);
        if conform_claims(prev, targets[n - 1], hits[n - 1]) {
            prev.update(targets[n - 1].anchor as int, claimed_anchor(prev[targets[n - 1].anchor as int]))
        } else {
            prev
        }
    }
}

/// The corrective step requests raised while the conformer processed the
/// first `n` legs, in leg order.
pub open spec fn conform_events_upto(
    targets: Seq<FootTarget>,
    hits: Seq<Option<RayHit>>,
    anchors: Seq<FootAnchor>,
    n: int,
) -> Seq<MoveAnchorEvent>
    decreases n,
{
    if n <= 0 {
        Seq::empty()
    } else {
        let pre = conform_events_upto(targets, hits, anchors, n - 1);
        let prev = conform_anchors_upto(targets, hits, anchors, n - 1);
        if conform_claims(prev, targets[n - 1], hits[n - 1]) {
            pre.push(
                MoveAnchorEvent {
                    anchor: targets[n - 1].anchor,
                    target: (n - 1) as usize,
                    animation_duration: SNAP_STEP_MS,
                },
            )
        } else {
            pre
        }
    }
}

/// Processing a prefix of the legs never changes how many anchors there are.
pub proof fn lemma_conform_anchors_upto_len(
    targets: Seq<FootTarget>,
    hits: Seq<Option<RayHit>>,
    anchors: Seq<FootAnchor>,
    n: int,
)
    ensures
        conform_anchors_upto(targets, hits, anchors, n).len() == anchors.len(),
    decreases n,
{
    if n > 0 {
        lemma_conform_anchors_upto_len(targets, hits, anchors, n - 1);
    }
}

/// Adjusts every target's height from its ray-cast outcome and raises a
/// fast corrective step request for each leg whose target sits on an
/// obstacle while its anchor is idle.
pub fn target_height_system(
    foot_targets: &mut Vec<FootTarget>,
    anchors: &mut Vec<FootAnchor>,
    hits: &Vec<Option<RayHit>>,
    move_events: &mut Vec<MoveAnchorEvent>,
)
    requires
        hits@.len() == old(foot_targets)@.len(),
        forall|i: int|
            0 <= i < old(foot_targets)@.len() ==> (#[trigger] old(foot_targets)@[i]).wf(),
        forall|i: int| 0 <= i < old(anchors)@.len() ==> (#[trigger] old(anchors)@[i]).wf(),
        forall|i: int|
            0 <= i < hits@.len() && hits@[i] is Some ==> (#[trigger] hits@[i])->Some_0.wf(),
    ensures
        final(foot_targets)@ == conformed_targets(old(foot_targets)@, hits@),
        final(anchors)@ == conform_anchors_upto(
            old(foot_targets)@,
            hits@,
            old(anchors)@,
            old(foot_targets)@.len() as int,
        ),
        final(move_events)@ == old(move_events)@ + conform_events_upto(
            old(foot_targets)@,
            hits@,
            old(anchors)@,
            old(foot_targets)@.len() as int,
        ),
        forall|i: int|
            0 <= i < final(foot_targets)@.len() ==> (#[trigger] final(foot_targets)@[i]).wf(),
        forall|i: int| 0 <= i < final(anchors)@.len() ==> (#[trigger] final(anchors)@[i]).wf(),
        final(anchors)@.len() == old(anchors)@.len(),
{
    let n: usize = foot_targets.len();
    let mut i: usize = 0;
    while i < n
        invariant
            n == foot_targets@.len() == old(foot_targets)@.len() == hits@.len(),
            i <= n,
            anchors@.len() == old(anchors)@.len(),
            forall|j: int| 0 <= j < n ==> (#[trigger] old(foot_targets)@[j]).wf(),
            forall|j: int|
                0 <= j < n && hits@[j] is Some ==> (#[trigger] hits@[j])->Some_0.wf(),
            forall|j: int|
                0 <= j < i ==> foot_targets@[j] == conformed_target(
                    #[trigger] old(foot_targets)@[j],
                    hits@[j],
                ),
            forall|j: int| i <= j < n ==> #[trigger] foot_targets@[j] == old(foot_targets)@[j],
            forall|j: int| 0 <= j < n ==> (#[trigger] foot_targets@[j]).wf(),
            anchors@ == conform_anchors_upto(old(foot_targets)@, hits@, old(anchors)@, i as int),
            forall|j: int| 0 <= j < anchors@.len() ==> (#[trigger] anchors@[j]).wf(),
            move_events@ == old(move_events)@ + conform_events_upto(
                old(foot_targets)@,
                hits@,
                old(anchors)@,
                i as int,
            ),
        decreases n - i,
    {
        let t = foot_targets[i];
        match hits[i] {
            Option::None => {},
            Option::Some(h) => {
                let ny: i64 = if h.ground {
                    h.height
                } else {
                    h.height + OBSTACLE_CLEARANCE
                };
                foot_targets.set(
                    i,
                    FootTarget {
                        owner: t.owner,
                        foot: t.foot,
                        anchor: t.anchor,
                        pos_offset: t.pos_offset,
                        position: Vec3 { x: t.position.x, y: ny, z: t.position.z },
                    },
                );
                if !h.ground && t.anchor < anchors.len() {
                    let a = anchors[t.anchor];
                    if !a.moving {
                        anchors.set(
                            t.anchor,
                            FootAnchor {
                                foot: a.foot,
                                target: a.target,
                                animation_duration: a.animation_duration,
                                animation_timer: AnimationTimer::new(a.animation_duration),
                                pos_error_margin: a.pos_error_margin,
                                max_distance: a.max_distance,
                                moving: true,
                                inverted: a.inverted,
                                position: a.position,
                            },
                        );
                        move_events.push(
                            MoveAnchorEvent {
                                anchor: t.anchor,
                                target: i,
                                animation_duration: SNAP_STEP_MS,
                            },
                        );
                    }
                }
            },
        }
        i = i + 1;
    }
    assert(foot_targets@ =~= conformed_targets(old(foot_targets)@, hits@));
}

/// The conformer claims atomically: every corrective request's anchor
/// resolves and ends the pass in flight with a freshly wound countdown, no
/// anchor is requested twice, and no anchor's configured step duration ever
/// changes.
pub proof fn lemma_conform_claims(
    targets: Seq<FootTarget>,
    hits: Seq<Option<RayHit>>,
    anchors: Seq<FootAnchor>,
    n: int,
)
    requires
        0 <= n <= targets.len(),
    ensures
        forall|p: int|
            0 <= p < conform_events_upto(targets, hits, anchors, n).len() ==> (
            #[trigger] conform_events_upto(targets, hits, anchors, n)[p]).anchor < anchors.len(),
        forall|p: int|
            0 <= p < conform_events_upto(targets, hits, anchors, n).len()
                ==> conform_anchors_upto(targets, hits, anchors, n)[(
            #[trigger] conform_events_upto(targets, hits, anchors, n)[p]).anchor as int].moving,
        forall|p: int|
            0 <= p < conform_events_upto(targets, hits, anchors, n).len()
                ==> conform_anchors_upto(targets, hits, anchors, n)[(
            #[trigger] conform_events_upto(
                targets,
                hits,
                anchors,
                n,
            )[p]).anchor as int].animation_timer.elapsed == 0,
        forall|p: int|
            0 <= p < conform_events_upto(targets, hits, anchors, n).len()
                ==> conform_anchors_upto(targets, hits, anchors, n)[(
            #[trigger] conform_events_upto(
                targets,
                hits,
                anchors,
                n,
            )[p]).anchor as int].animation_timer.duration == conform_anchors_upto(
                targets,
                hits,
                anchors,
                n,
            )[(conform_events_upto(targets, hits, anchors, n)[p]).anchor as int].animation_duration,
        forall|p: int, q: int|
            0 <= p < q < conform_events_upto(targets, hits, anchors, n).len() ==> (
            #[trigger] conform_events_upto(targets, hits, anchors, n)[p]).anchor != (
            #[trigger] conform_events_upto(targets, hits, anchors, n)[q]).anchor,
        forall|k: int|
            0 <= k < anchors.len() ==> (#[trigger] conform_anchors_upto(
                targets,
                hits,
                anchors,
                n,
            )[k]).animation_duration == anchors[k].animation_duration,
    decreases n,
{
    if n > 0 {
        lemma_conform_claims(targets, hits, anchors, n - 1);
        lemma_conform_anchors_upto_len(targets, hits, anchors, n - 1);
        let pre = conform_events_upto(targets, hits, anchors, n - 1);
        let now = conform_events_upto(targets, hits, anchors, n);
        let prev = conform_anchors_upto(targets, hits, anchors, n - 1);
        let cur = conform_anchors_upto(targets, hits, anchors, n);
        let t = targets[n - 1];
        if conform_claims(prev, t, hits[n - 1]) {
            let k = t.anchor as int;
            let e = MoveAnchorEvent {
                anchor: t.anchor,
                target: (n - 1) as usize,
                animation_duration: SNAP_STEP_MS,
            };
            assert(now == pre.push(e));
            assert(cur == prev.update(k, claimed_anchor(prev[k])));
            assert(!prev[k].moving);
            assert forall|p: int| 0 <= p < pre.len() implies (#[trigger] pre[p]).anchor
                != t.anchor by {
                assert(prev[pre[p].anchor as int].moving);
            }
            assert forall|p: int| 0 <= p < now.len() implies (#[trigger] now[p]).anchor
                < anchors.len() && cur[now[p].anchor as int].moving && cur[now[
                p
            ].anchor as int].animation_timer.elapsed == 0 && cur[now[
                p
            ].anchor as int].animation_timer.duration == cur[now[
                p
            ].anchor as int].animation_duration by {
                if p < pre.len() {
                    assert(now[p] == pre[p]);
                    assert(cur[now[p].anchor as int] == prev[now[p].anchor as int]);
                } else {
                    assert(now[p] == e);
                    assert(cur[k] == claimed_anchor(prev[k]));
                }
            }
        } else {
            assert(now == pre);
            assert(cur == prev);
        }
    }
}

} // verus!
