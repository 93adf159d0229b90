//! One simulation tick of the whole gait controller, in the required
//! order: target resolver, ground conformer, step trigger, step executor,
//! with the pole resolver alongside.
//!
//! The caller supplies the bodies' poses for the tick, one downward
//! ray-cast outcome per leg, and the milliseconds since the last tick; it
//! receives the interpolation commands to hand to the external step
//! interpolator. The conformer and trigger run before the executor, so
//! every step request raised in a tick is consumed in that same tick.

use vstd::prelude::*;

use crate::components::{
    AnimationTimer, FootAnchor, FootPole, FootTarget, MoveAnchorEvent, Player, RayHit, StepTween,
};
use crate::conformer::{
    conform_anchors_upto, conform_events_upto, conformed_targets, lemma_conform_anchors_upto_len,
    lemma_conform_claims, target_height_system,
};
use crate::executor::{anchor_move_event_system, execute_anchors_upto, execute_tweens_upto};
use crate::pole::{pole_system, resolved_poles};
use crate::resolver::{resolved_targets, target_at_side_system};
use crate::trigger::{
    anchor_move_event_trigger_system, distinct_anchor_indices, lemma_no_double_trigger,
    lemma_no_retrigger_while_moving, trigger_anchors_upto, trigger_events_upto,
};

verus! {

/// The targets at the end of a tick: resolved beside the body, then
/// conformed to terrain height.
pub open spec fn tick_targets(
    players: Seq<Player>,
    targets: Seq<FootTarget>,
    hits: Seq<Option<RayHit>>,
) -> Seq<FootTarget> {
    conformed_targets(resolved_targets(players, targets), hits)
}

/// The anchors after the conformer's pass of a tick.
pub open spec fn tick_conform_anchors(
    players: Seq<Player>,
    targets: Seq<FootTarget>,
    anchors: Seq<FootAnchor>,
    hits: Seq<Option<RayHit>>,
) -> Seq<FootAnchor> {
    conform_anchors_upto(
        resolved_targets(players, targets),
        hits,
        anchors,
        targets.len() as int,
    )
}

/// Every step request raised in a tick: the conformer's corrective
/// requests, then the trigger's, in leg order.
pub open spec fn tick_requests(
    players: Seq<Player>,
    targets: Seq<FootTarget>,
    anchors: Seq<FootAnchor>,
    hits: Seq<Option<RayHit>>,
    delta: u64,
) -> Seq<MoveAnchorEvent> {
    conform_events_upto(resolved_targets(players, targets), hits, anchors, targets.len() as int)
        + trigger_events_upto(
        players,
        tick_targets(players, targets, hits),
        tick_conform_anchors(players, targets, anchors, hits),
        delta,
        targets.len() as int,
    )
}

/// The anchors after the trigger's pass of a tick, before the executor
/// consumes the requests.
pub open spec fn tick_trigger_anchors(
    players: Seq<Player>,
    targets: Seq<FootTarget>,
    anchors: Seq<FootAnchor>,
    hits: Seq<Option<RayHit>>,
    delta: u64,
) -> Seq<FootAnchor> {
    trigger_anchors_upto(
        players,
        tick_targets(players, targets, hits),
        tick_conform_anchors(players, targets, anchors, hits),
        delta,
        targets.len() as int,
    )
}

/// The anchors at the end of a tick, every request consumed.
pub open spec fn tick_anchors(
    players: Seq<Player>,
    targets: Seq<FootTarget>,
    anchors: Seq<FootAnchor>,
    hits: Seq<Option<RayHit>>,
    delta: u64,
) -> Seq<FootAnchor> {
    execute_anchors_upto(
        tick_targets(players, targets, hits),
        tick_trigger_anchors(players, targets, anchors, hits, delta),
        tick_requests(players, targets, anchors, hits, delta),
        tick_requests(players, targets, anchors, hits, delta).len() as int,
    )
}

/// The interpolation commands a tick hands to the external interpolator.
pub open spec fn tick_tweens(
    players: Seq<Player>,
    targets: Seq<FootTarget>,
    anchors: Seq<FootAnchor>,
    hits: Seq<Option<RayHit>>,
    delta: u64,
) -> Seq<StepTween> {
    execute_tweens_upto(
        players,
        tick_targets(players, targets, hits),
        tick_trigger_anchors(players, targets, anchors, hits, delta),
        tick_requests(players, targets, anchors, hits, delta),
        tick_requests(players, targets, anchors, hits, delta).len() as int,
    )
}

/// Runs one full gait tick over every leg and returns the interpolation
/// commands for the steps started this tick.
pub fn gait_tick(
    players: &Vec<Player>,
    foot_targets: &mut Vec<FootTarget>,
    anchors: &mut Vec<FootAnchor>,
    foot_poles: &mut Vec<FootPole>,
    hits: &Vec<Option<RayHit>>,
    delta_ms: u64,
) -> (tweens: Vec<StepTween>)
    requires
        hits@.len() == old(foot_targets)@.len(),
        forall|i: int| 0 <= i < players@.len() ==> (#[trigger] players@[i]).wf(),
        forall|i: int|
            0 <= i < old(foot_targets)@.len() ==> (#[trigger] old(foot_targets)@[i]).wf(),
        forall|i: int| 0 <= i < old(anchors)@.len() ==> (#[trigger] old(anchors)@[i]).wf(),
        forall|i: int| 0 <= i < old(foot_poles)@.len() ==> (#[trigger] old(foot_poles)@[i]).wf(),
        forall|i: int|
            0 <= i < hits@.len() && hits@[i] is Some ==> (#[trigger] hits@[i])->Some_0.wf(),
    ensures
        final(foot_targets)@ == tick_targets(players@, old(foot_targets)@, hits@),
        final(anchors)@ == tick_anchors(
            players@,
            old(foot_targets)@,
            old(anchors)@,
            hits@,
            delta_ms,
        ),
        tweens@ == tick_tweens(players@, old(foot_targets)@, old(anchors)@, hits@, delta_ms),
        final(foot_poles)@ == resolved_poles(players@, old(foot_poles)@),
        forall|i: int|
            0 <= i < final(foot_targets)@.len() ==> (#[trigger] final(foot_targets)@[i]).wf(),
        forall|i: int| 0 <= i < final(anchors)@.len() ==> (#[trigger] final(anchors)@[i]).wf(),
        final(anchors)@.len() == old(anchors)@.len(),
        forall|i: int|
            0 <= i < final(foot_poles)@.len() ==> (#[trigger] final(foot_poles)@[i]).wf(),
{
    target_at_side_system(players, foot_targets);
    let mut move_events: Vec<MoveAnchorEvent> = Vec::new();
    target_height_system(foot_targets, anchors, hits, &mut move_events);
    assert(move_events@ =~= conform_events_upto(
        resolved_targets(players@, old(foot_targets)@),
        hits@,
        old(anchors)@,
        old(foot_targets)@.len() as int,
    ));
    anchor_move_event_trigger_system(players, foot_targets, anchors, delta_ms, &mut move_events);
    pole_system(players, foot_poles);
    let tweens = anchor_move_event_system(players, foot_targets, anchors, move_events);
    tweens
}

/// One anchor after an external reset: idle, with no countdown
/// outstanding; everything else, its position included, is kept.
pub open spec fn reset_anchor(a: FootAnchor) -> FootAnchor {
    FootAnchor {
        foot: a.foot,
        target: a.target,
        animation_duration: a.animation_duration,
        animation_timer: AnimationTimer {
            duration: a.animation_timer.duration,
            elapsed: a.animation_timer.duration,
        },
        pos_error_margin: a.pos_error_margin,
        max_distance: a.max_distance,
        moving: false,
        inverted: a.inverted,
        position: a.position,
    }
}

/// Forces every anchor back to idle and clears its countdown: the external
/// reset for a teleported or respawned body, without which stale
/// long-duration steps would keep animating against the new pose.
pub fn reset_anchors(anchors: &mut Vec<FootAnchor>)
    ensures
        final(anchors)@ == old(anchors)@.map_values(|a: FootAnchor| reset_anchor(a)),
        forall|i: int|
            0 <= i < old(anchors)@.len() && (#[trigger] old(anchors)@[i]).wf()
                ==> final(anchors)@[i].wf(),
{
    let n: usize = anchors.len();
    let mut i: usize = 0;
    while i < n
        invariant
            n == anchors@.len() == old(anchors)@.len(),
            i <= n,
            forall|j: int| 0 <= j < i ==> anchors@[j] == reset_anchor(#[trigger] old(anchors)@[j]),
            forall|j: int| i <= j < n ==> #[trigger] anchors@[j] == old(anchors)@[j],
        decreases n - i,
    {
        let a = anchors[i];
        anchors.set(
            i,
            FootAnchor {
                foot: a.foot,
                target: a.target,
                animation_duration: a.animation_duration,
                animation_timer: AnimationTimer {
                    duration: a.animation_timer.duration,
                    elapsed: a.animation_timer.duration,
                },
                pos_error_margin: a.pos_error_margin,
                max_distance: a.max_distance,
                moving: false,
                inverted: a.inverted,
                position: a.position,
            },
        );
        i = i + 1;
    }
    assert(anchors@ =~= old(anchors)@.map_values(|a: FootAnchor| reset_anchor(a)));
}

/// No double request: within one tick over legs that each own their
/// anchor, and with every anchor's configured step duration longer than
/// the tick itself, no two step requests of the tick name the same anchor
/// — once a request is raised, its anchor is in flight and raises nothing
/// further until it returns to idle.
pub proof fn lemma_single_request_per_anchor(
    players: Seq<Player>,
    targets: Seq<FootTarget>,
    anchors: Seq<FootAnchor>,
    hits: Seq<Option<RayHit>>,
    delta: u64,
)
    requires
        distinct_anchor_indices(targets),
        forall|k: int|
            0 <= k < anchors.len() ==> delta < (#[trigger] anchors[k]).animation_duration,
    ensures
        forall|p: int, q: int|
            0 <= p < q < tick_requests(players, targets, anchors, hits, delta).len() ==> (
            #[trigger] tick_requests(players, targets, anchors, hits, delta)[p]).anchor != (
            #[trigger] tick_requests(players, targets, anchors, hits, delta)[q]).anchor,
{
    let n = targets.len() as int;
    let rt = resolved_targets(players, targets);
    let ct = conformed_targets(rt, hits);
    let ca = conform_anchors_upto(rt, hits, anchors, n);
    assert forall|i: int| 0 <= i < n implies (#[trigger] rt[i]).anchor == targets[i].anchor
        && ct[i].anchor == targets[i].anchor by {}
    assert(distinct_anchor_indices(ct));
    lemma_conform_claims(rt, hits, anchors, n);
    lemma_conform_anchors_upto_len(rt, hits, anchors, n);
    lemma_no_double_trigger(players, ct, ca, delta, n);
    let cev = conform_events_upto(rt, hits, anchors, n);
    let tev = trigger_events_upto(players, ct, ca, delta, n);
    assert forall|p: int, q: int|
        0 <= p < cev.len() && 0 <= q < tev.len() implies (#[trigger] cev[p]).anchor != (
    #[trigger] tev[q]).anchor by {
        let k = cev[p].anchor as int;
        lemma_no_retrigger_while_moving(players, ct, ca, delta, k, n);
    }
    let req = tick_requests(players, targets, anchors, hits, delta);
    assert(req == cev + tev);
    assert forall|p: int, q: int| 0 <= p < q < req.len() implies (#[trigger] req[p]).anchor != (
    #[trigger] req[q]).anchor by {
        if q < cev.len() {
            assert(req[p] == cev[p] && req[q] == cev[q]);
        } else if p < cev.len() {
            assert(req[p] == cev[p] && req[q] == tev[q - cev.len()]);
        } else {
            assert(req[p] == tev[p - cev.len()] && req[q] == tev[q - cev.len()]);
        }
    }
}

} // verus!
