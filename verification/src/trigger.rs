//! Step trigger: decides, leg by leg, when an anchor has drifted far enough
//! from its target to warrant a step.
//!
//! Every tick each leg's anchor first advances its countdown; a countdown
//! that has run out forces the anchor back to idle, bounding how long a step
//! may stay in flight. An idle anchor whose ground-plane distance to its
//! target exceeds the body's stance half-width raises a step request with a
//! duration of the base step duration divided by a speed factor, and claims
//! the in-flight state in the same breath so no second request can follow
//! before the anchor returns to idle. A moving anchor is skipped no matter
//! how far it has drifted.

use vstd::prelude::*;

use crate::components::{FootAnchor, FootTarget, MoveAnchorEvent, Player};
use crate::math::{hdist_sq, horizontal_dist_sq, Vec3, MAX_STEP_MS, SPEED_LIMIT};

verus! {

/// The speed factor dividing the base step duration, in thousandths:
/// `2 + 15 * s^4` for horizontal body speed `s`, so stepping quickens
/// steeply with locomotion speed and never stalls at rest.
pub open spec fn speed_factor_milli(speed: Vec3) -> int {
    let q = speed.x * speed.x + speed.z * speed.z;
    2000 + 15 * ((q * q) / 1_000_000_000)
}

/// The duration of a triggered step, in milliseconds: the base duration
/// divided by the speed factor, which is given in thousandths.
pub open spec fn spec_step_duration(base: u64, factor: int) -> u64 {
    ((base * 1000) / factor) as u64
}

/// Computes the speed factor of a body's current horizontal speed.
pub fn speed_factor(speed: &Vec3) -> (f: i64)
    requires
        speed.bounded(SPEED_LIMIT as int),
    ensures
        f == speed_factor_milli(*speed),
        2000 <= f <= 700_000_000,
{
    proof {
        assert(0 <= speed.x * speed.x <= 100_000_000 && 0 <= speed.z * speed.z
            <= 100_000_000) by (nonlinear_arith)
            requires
                -SPEED_LIMIT <= speed.x <= SPEED_LIMIT,
                -SPEED_LIMIT <= speed.z <= SPEED_LIMIT,
        ;
    }
    let q: i64 = speed.x * speed.x + speed.z * speed.z;
    proof {
        assert(0 <= q * q <= 40_000_000_000_000_000) by (nonlinear_arith)
            requires
                0 <= q <= 200_000_000,
        ;
        vstd::arithmetic::div_mod::lemma_div_is_ordered(
            (q * q) as int,
            40_000_000_000_000_000,
            1_000_000_000,
        );
        vstd::arithmetic::div_mod::lemma_div_pos_is_pos((q * q) as int, 1_000_000_000);
    }
    let qq: i64 = q * q;
    let d: i64 = ((qq as u64) / 1_000_000_000) as i64;
    2000 + 15 * d
}

/// Computes a triggered step's duration from the base duration and the
/// speed factor.
pub fn step_duration(base: u64, factor: i64) -> (d: u64)
    requires
        base <= MAX_STEP_MS,
        2000 <= factor,
    ensures
        d == spec_step_duration(base, factor as int),
{
    let d: u64 = (base * 1000) / (factor as u64);
    d
}

/// An anchor after one tick of its state machine: the countdown advances,
/// and an elapsed countdown forces the anchor back to idle.
pub open spec fn ticked_anchor(a: FootAnchor, delta: u64) -> FootAnchor {
    let t = a.animation_timer.spec_ticked(delta);
    FootAnchor {
        foot: a.foot,
        target: a.target,
        animation_duration: a.animation_duration,
        animation_timer: t,
        pos_error_margin: a.pos_error_margin,
        max_distance: a.max_distance,
        moving: if t.spec_finished() {
            false
        } else {
            a.moving
        },
        inverted: a.inverted,
        position: a.position,
    }
}

/// Whether a leg fires a step this tick: its body resolves, its anchor is
/// idle after the countdown advanced, and the ground-plane distance between
/// anchor and target exceeds the body's stance half-width.
pub open spec fn trigger_fires(players: Seq<Player>, t: FootTarget, a: FootAnchor) -> bool {
    &&& t.owner < players.len()
    &&& !a.moving
    &&& hdist_sq(a.position, t.position) > players[t.owner as int].walk_width * players[
        t.owner as int
    ].walk_width
}

/// An anchor that just claimed the in-flight state of the step it fired.
pub open spec fn fired_anchor(a: FootAnchor) -> FootAnchor {
    FootAnchor {
        foot: a.foot,
        target: a.target,
        animation_duration: a.animation_duration,
        animation_timer: a.animation_timer,
        pos_error_margin: a.pos_error_margin,
        max_distance: a.max_distance,
        moving: true,
        inverted: a.inverted,
        position: a.position,
    }
}

/// One leg's anchor after the trigger ran: ticked, and in flight when the
/// leg fired.
pub open spec fn trigger_leg(
    players: Seq<Player>,
    t: FootTarget,
    a: FootAnchor,
    delta: u64,
) -> FootAnchor {
    let ticked = ticked_anchor(a, delta);
    if trigger_fires(players, t, ticked) {
        fired_anchor(ticked)
    } else {
        ticked
    }
}

/// The step request a firing leg raises.
pub open spec fn trigger_event(
    players: Seq<Player>,
    i: int,
    t: FootTarget,
    a: FootAnchor,
) -> MoveAnchorEvent {
    MoveAnchorEvent {
        anchor: t.anchor,
        target: i as usize,
        animation_duration: spec_step_duration(
            a.animation_duration,
            speed_factor_milli(players[t.owner as int].current_speed),
        ),
    }
}

/// The anchors after the trigger processed the first `n` legs.
pub open spec fn trigger_anchors_upto(
    players: Seq<Player>,
    targets: Seq<FootTarget>,
    anchors: Seq<FootAnchor>,
    delta: u64,
    n: int,
) -> Seq<FootAnchor>
    decreases n,
{
    if n <= 0 {
        anchors
    } else {
        let prev = trigger_anchors_upto(players, targets, anchors, delta, n - 1);
        let t = targets[n - 1];
        if t.anchor < prev.len() {
            prev.update(t.anchor as int, trigger_leg(players, t, prev[t.anchor as int], delta))
        } else {
            prev
        }
    }
}

/// The step requests raised while the trigger processed the first `n` legs,
/// in leg order.
pub open spec fn trigger_events_upto(
    players: Seq<Player>,
    targets: Seq<FootTarget>,
    anchors: Seq<FootAnchor>,
    delta: u64,
    n: int,
) -> Seq<MoveAnchorEvent>
    decreases n,
{
    if n <= 0 {
        Seq::empty()
    } else {
        let pre = trigger_events_upto(players, targets, anchors, delta, n - 1);
        let prev = trigger_anchors_upto(players, targets, anchors, delta, n - 1);
        let t = targets[n - 1];
        if t.anchor < prev.len() && trigger_fires(
            players,
            t,
            ticked_anchor(prev[t.anchor as int], delta),
        ) {
            pre.push(trigger_event(players, n - 1, t, ticked_anchor(prev[t.anchor as int], delta)))
        } else {
            pre
        }
    }
}

/// Processing a prefix of the legs never changes how many anchors there are.
pub proof fn lemma_trigger_anchors_upto_len(
    players: Seq<Player>,
    targets: Seq<FootTarget>,
    anchors: Seq<FootAnchor>,
    delta: u64,
    n: int,
)
    ensures
        trigger_anchors_upto(players, targets, anchors, delta, n).len() == anchors.len(),
    decreases n,
{
    if n > 0 {
        lemma_trigger_anchors_upto_len(players, targets, anchors, delta, n - 1);
    }
}

/// Advances every resolvable anchor's state machine and raises a step
/// request for each leg whose idle anchor drifted beyond the threshold.
pub fn anchor_move_event_trigger_system(
    players: &Vec<Player>,
    foot_targets: &Vec<FootTarget>,
    anchors: &mut Vec<FootAnchor>,
    delta_ms: u64,
    move_events: &mut Vec<MoveAnchorEvent>,
)
    requires
        forall|i: int| 0 <= i < players@.len() ==> (#[trigger] players@[i]).wf(),
        forall|i: int| 0 <= i < foot_targets@.len() ==> (#[trigger] foot_targets@[i]).wf(),
        forall|i: int| 0 <= i < old(anchors)@.len() ==> (#[trigger] old(anchors)@[i]).wf(),
    ensures
        final(anchors)@ == trigger_anchors_upto(
            players@,
            foot_targets@,
            old(anchors)@,
            delta_ms,
            foot_targets@.len() as int,
        ),
        final(move_events)@ == old(move_events)@ + trigger_events_upto(
            players@,
            foot_targets@,
            old(anchors)@,
            delta_ms,
            foot_targets@.len() as int,
        ),
        forall|i: int| 0 <= i < final(anchors)@.len() ==> (#[trigger] final(anchors)@[i]).wf(),
        final(anchors)@.len() == old(anchors)@.len(),
{
    let n: usize = foot_targets.len();
    let mut i: usize = 0;
    while i < n
        invariant
            n == foot_targets@.len(),
            i <= n,
            anchors@.len() == old(anchors)@.len(),
            forall|j: int| 0 <= j < players@.len() ==> (#[trigger] players@[j]).wf(),
            forall|j: int| 0 <= j < n ==> (#[trigger] foot_targets@[j]).wf(),
            anchors@ == trigger_anchors_upto(
                players@,
                foot_targets@,
                old(anchors)@,
                delta_ms,
                i as int,
            ),
            forall|j: int| 0 <= j < anchors@.len() ==> (#[trigger] anchors@[j]).wf(),
            move_events@ == old(move_events)@ + trigger_events_upto(
                players@,
                foot_targets@,
                old(anchors)@,
                delta_ms,
                i as int,
            ),
        decreases n - i,
    {
        let t = foot_targets[i];
        if t.anchor < anchors.len() {
            let mut a = anchors[t.anchor];
            a.animation_timer.tick(delta_ms);
            if a.animation_timer.finished() {
                a.moving = false;
            }
            assert(a == ticked_anchor(anchors@[t.anchor as int], delta_ms));
            if !a.moving && t.owner < players.len() {
                let p = &players[t.owner];
                let d: i64 = horizontal_dist_sq(&a.position, &t.position);
                proof {
                    assert(0 <= p.walk_width * p.walk_width
                        <= 10_000_000_000) by (nonlinear_arith)
                        requires
                            0 <= p.walk_width <= 100_000,
                    ;
                }
                if d > p.walk_width * p.walk_width {
                    let f = speed_factor(&p.current_speed);
                    let dur = step_duration(a.animation_duration, f);
                    move_events.push(
                        MoveAnchorEvent { anchor: t.anchor, target: i, animation_duration: dur },
                    );
                    a.moving = true;
                }
            }
            anchors.set(t.anchor, a);
        }
        i = i + 1;
    }
}

/// Each anchor belongs to exactly one leg: no two targets name the same
/// anchor index.
pub open spec fn distinct_anchor_indices(targets: Seq<FootTarget>) -> bool {
    forall|i: int, j: int|
        0 <= i < j < targets.len() ==> (#[trigger] targets[i]).anchor != (
        #[trigger] targets[j]).anchor
}

/// The milliseconds of a run of ticks.
pub open spec fn total_ms(deltas: Seq<u64>) -> int
    decreases deltas.len(),
{
    if deltas.len() == 0 {
        0
    } else {
        deltas[0] + total_ms(deltas.drop_first())
    }
}

/// An anchor after a run of state-machine ticks with no step fired in
/// between.
pub open spec fn anchor_after_ticks(a: FootAnchor, deltas: Seq<u64>) -> FootAnchor
    decreases deltas.len(),
{
    if deltas.len() == 0 {
        a
    } else {
        anchor_after_ticks(ticked_anchor(a, deltas[0]), deltas.drop_first())
    }
}

proof fn lemma_total_ms_nonneg(deltas: Seq<u64>)
    ensures
        total_ms(deltas) >= 0,
    decreases deltas.len(),
{
    if deltas.len() > 0 {
        lemma_total_ms_nonneg(deltas.drop_first());
    }
}

/// Over a run of ticks the in-flight flag survives exactly as long as the
/// ticked time stays under the countdown's duration.
proof fn lemma_ticked_run(a: FootAnchor, deltas: Seq<u64>)
    requires
        a.animation_timer.elapsed <= a.animation_timer.duration,
        deltas.len() > 0,
    ensures
        anchor_after_ticks(a, deltas).moving == (a.moving && a.animation_timer.elapsed + total_ms(
            deltas,
        ) < a.animation_timer.duration),
    decreases deltas.len(),
{
    let a1 = ticked_anchor(a, deltas[0]);
    let rest = deltas.drop_first();
    lemma_total_ms_nonneg(rest);
    assert(anchor_after_ticks(a, deltas) == anchor_after_ticks(a1, rest));
    assert(total_ms(deltas) == deltas[0] + total_ms(rest));
    assert(a1.animation_timer.elapsed <= a1.animation_timer.duration);
    if rest.len() > 0 {
        lemma_ticked_run(a1, rest);
        assert(anchor_after_ticks(a1, rest).moving == (a1.moving && a1.animation_timer.elapsed
            + total_ms(rest) < a1.animation_timer.duration));
    } else {
        assert(anchor_after_ticks(a1, rest) == a1);
    }
    if a.animation_timer.elapsed + deltas[0] >= a.animation_timer.duration {
        assert(!a1.moving);
    } else {
        assert(a1.animation_timer.elapsed == a.animation_timer.elapsed + deltas[0]);
        assert(a1.moving == a.moving);
    }
}

/// Timeout bound: an anchor sent in flight with a freshly restored
/// countdown, and given no completion signal, stays in flight while the
/// ticked time is under its configured full step duration and is back to
/// idle the moment the ticked time reaches it — never later.
pub proof fn lemma_timeout_bound(a: FootAnchor, deltas: Seq<u64>)
    requires
        a.moving,
        a.animation_timer.elapsed == 0,
        0 < a.animation_timer.duration,
    ensures
        anchor_after_ticks(a, deltas).moving <==> total_ms(deltas) < a.animation_timer.duration,
{
    lemma_total_ms_nonneg(deltas);
    if deltas.len() > 0 {
        lemma_ticked_run(a, deltas);
    }
}

/// An anchor named by none of the first `n` legs keeps its state across the
/// trigger pass.
proof fn lemma_trigger_untouched(
    players: Seq<Player>,
    targets: Seq<FootTarget>,
    anchors: Seq<FootAnchor>,
    delta: u64,
    k: int,
    n: int,
)
    requires
        0 <= n <= targets.len(),
        0 <= k < anchors.len(),
        forall|j: int| 0 <= j < n ==> (#[trigger] targets[j]).anchor != k,
    ensures
        trigger_anchors_upto(players, targets, anchors, delta, n)[k] == anchors[k],
    decreases n,
{
    if n > 0 {
        lemma_trigger_untouched(players, targets, anchors, delta, k, n - 1);
        lemma_trigger_anchors_upto_len(players, targets, anchors, delta, n - 1);
    }
}

/// No re-trigger while a step is in flight: an anchor that is moving, and
/// whose countdown does not run out this tick, gets no step request from
/// the trigger and is still moving afterwards.
pub proof fn lemma_no_retrigger_while_moving(
    players: Seq<Player>,
    targets: Seq<FootTarget>,
    anchors: Seq<FootAnchor>,
    delta: u64,
    k: int,
    n: int,
)
    requires
        distinct_anchor_indices(targets),
        0 <= k < anchors.len(),
        anchors[k].moving,
        anchors[k].animation_timer.elapsed + delta < anchors[k].animation_timer.duration,
        0 <= n <= targets.len(),
    ensures
        forall|p: int|
            0 <= p < trigger_events_upto(players, targets, anchors, delta, n).len() ==> (
            #[trigger] trigger_events_upto(players, targets, anchors, delta, n)[p]).anchor != k,
        trigger_anchors_upto(players, targets, anchors, delta, n)[k].moving,
    decreases n,
{
    if n > 0 {
        lemma_no_retrigger_while_moving(players, targets, anchors, delta, k, n - 1);
        lemma_trigger_anchors_upto_len(players, targets, anchors, delta, n - 1);
        let t = targets[n - 1];
        let pre = trigger_events_upto(players, targets, anchors, delta, n - 1);
        let now = trigger_events_upto(players, targets, anchors, delta, n);
        let prev = trigger_anchors_upto(players, targets, anchors, delta, n - 1);
        if t.anchor == k {
            assert forall|j: int| 0 <= j < n - 1 implies (#[trigger] targets[j]).anchor != k by {
                assert(targets[j].anchor != targets[n - 1].anchor);
            }
            lemma_trigger_untouched(players, targets, anchors, delta, k, n - 1);
            assert(!ticked_anchor(prev[k], delta).animation_timer.spec_finished());
            assert(now == pre);
        } else {
            if t.anchor < prev.len() && trigger_fires(
                players,
                t,
                ticked_anchor(prev[t.anchor as int], delta),
            ) {
                let e = trigger_event(
                    players,
                    n - 1,
                    t,
                    ticked_anchor(prev[t.anchor as int], delta),
                );
                assert(now == pre.push(e));
                assert forall|p: int| 0 <= p < now.len() implies (#[trigger] now[p]).anchor
                    != k by {
                    if p < pre.len() {
                        assert(now[p] == pre[p]);
                    } else {
                        assert(now[p] == e);
                    }
                }
            } else {
                assert(now == pre);
            }
        }
    }
}

/// The step trigger claims atomically: within one pass over legs that each
/// own their anchor, every request's anchor comes from one of those legs,
/// no two requests name the same anchor, and each requested anchor is in
/// flight when the pass ends.
pub proof fn lemma_no_double_trigger(
    players: Seq<Player>,
    targets: Seq<FootTarget>,
    anchors: Seq<FootAnchor>,
    delta: u64,
    n: int,
)
    requires
        distinct_anchor_indices(targets),
        0 <= n <= targets.len(),
    ensures
        forall|p: int|
            0 <= p < trigger_events_upto(players, targets, anchors, delta, n).len()
                ==> exists|j: int|
                0 <= j < n && (#[trigger] trigger_events_upto(players, targets, anchors, delta, n)[
                    p
                ]).anchor == (#[trigger] targets[j]).anchor,
        forall|p: int, q: int|
            0 <= p < q < trigger_events_upto(players, targets, anchors, delta, n).len() ==> (
            #[trigger] trigger_events_upto(players, targets, anchors, delta, n)[p]).anchor != (
            #[trigger] trigger_events_upto(players, targets, anchors, delta, n)[q]).anchor,
        forall|p: int|
            0 <= p < trigger_events_upto(players, targets, anchors, delta, n).len() ==> (
            #[trigger] trigger_events_upto(players, targets, anchors, delta, n)[p]).anchor
                < anchors.len(),
        forall|p: int|
            0 <= p < trigger_events_upto(players, targets, anchors, delta, n).len()
                ==> trigger_anchors_upto(players, targets, anchors, delta, n)[(
            #[trigger] trigger_events_upto(players, targets, anchors, delta, n)[p]).anchor as int].moving,
    decreases n,
{
    if n > 0 {
        lemma_no_double_trigger(players, targets, anchors, delta, n - 1);
        lemma_trigger_anchors_upto_len(players, targets, anchors, delta, n - 1);
        let pre = trigger_events_upto(players, targets, anchors, delta, n - 1);
        let now = trigger_events_upto(players, targets, anchors, delta, n);
        let prev = trigger_anchors_upto(players, targets, anchors, delta, n - 1);
        let t = targets[n - 1];
        assert forall|p: int| 0 <= p < pre.len() implies (#[trigger] pre[p]).anchor
            != t.anchor by {
            let j = choose|j: int| 0 <= j < n - 1 && pre[p].anchor == targets[j].anchor;
            assert(targets[j].anchor != targets[n - 1].anchor);
        }
        assert forall|p: int| 0 <= p < now.len() implies exists|j: int|
            0 <= j < n && (#[trigger] now[p]).anchor == (#[trigger] targets[j]).anchor by {
            if p < pre.len() {
                let j = choose|j: int| 0 <= j < n - 1 && pre[p].anchor == targets[j].anchor;
                assert(0 <= j < n && now[p].anchor == targets[j].anchor);
            } else {
                assert(now[p].anchor == targets[n - 1].anchor);
            }
        }
    }
}

/// Threshold invariant: a leg with a resolvable body whose anchor sits
/// within the stance half-width of its target gets no step request from the
/// trigger this tick.
pub proof fn lemma_threshold_invariant(
    players: Seq<Player>,
    targets: Seq<FootTarget>,
    anchors: Seq<FootAnchor>,
    delta: u64,
    i: int,
    n: int,
)
    requires
        distinct_anchor_indices(targets),
        0 <= i < targets.len(),
        targets[i].anchor < anchors.len(),
        hdist_sq(anchors[targets[i].anchor as int].position, targets[i].position) <= players[
            targets[i].owner as int
        ].walk_width * players[targets[i].owner as int].walk_width,
        0 <= n <= targets.len(),
    ensures
        forall|p: int|
            0 <= p < trigger_events_upto(players, targets, anchors, delta, n).len() ==> (
            #[trigger] trigger_events_upto(players, targets, anchors, delta, n)[p]).anchor
                != targets[i].anchor,
    decreases n,
{
    if n > 0 {
        lemma_threshold_invariant(players, targets, anchors, delta, i, n - 1);
        lemma_trigger_anchors_upto_len(players, targets, anchors, delta, n - 1);
        let t = targets[n - 1];
        let pre = trigger_events_upto(players, targets, anchors, delta, n - 1);
        let now = trigger_events_upto(players, targets, anchors, delta, n);
        let prev = trigger_anchors_upto(players, targets, anchors, delta, n - 1);
        if n - 1 == i {
            assert forall|j: int| 0 <= j < n - 1 implies (#[trigger] targets[j]).anchor
                != targets[i].anchor by {
                assert(targets[j].anchor != targets[n - 1].anchor);
            }
            lemma_trigger_untouched(players, targets, anchors, delta, t.anchor as int, n - 1);
            assert(ticked_anchor(prev[t.anchor as int], delta).position == anchors[
                t.anchor as int
            ].position);
            assert(!trigger_fires(players, t, ticked_anchor(prev[t.anchor as int], delta)));
            assert(now == pre);
        } else {
            if t.anchor < prev.len() && trigger_fires(
                players,
                t,
                ticked_anchor(prev[t.anchor as int], delta),
            ) {
                let e = trigger_event(
                    players,
                    n - 1,
                    t,
                    ticked_anchor(prev[t.anchor as int], delta),
                );
                assert(now == pre.push(e));
                assert(e.anchor == targets[n - 1].anchor);
                if i < n - 1 {
                    assert(targets[i].anchor != targets[n - 1].anchor);
                } else {
                    assert(targets[n - 1].anchor != targets[i].anchor);
                }
                assert forall|p: int| 0 <= p < now.len() implies (#[trigger] now[p]).anchor
                    != targets[i].anchor by {
                    if p < pre.len() {
                        assert(now[p] == pre[p]);
                    } else {
                        assert(now[p] == e);
                    }
                }
            } else {
                assert(now == pre);
            }
        }
    }
}

} // verus!
