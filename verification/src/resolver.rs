//! Target resolver: keeps each leg's desired resting point at the body's
//! side.
//!
//! Every tick the horizontal position of each target is overwritten with
//! `body position + leg offset * walk spread` per ground-plane axis; the
//! vertical component is owned by the ground conformer and left alone. A
//! target whose owning body cannot be resolved is skipped silently.

use vstd::prelude::*;

use crate::components::{FootTarget, Player};
use crate::math::{scaled, scaled_mul, Vec3};

verus! {

/// One target after the resolver ran: horizontal position recomputed from
/// the owning body, height and identity untouched; unchanged when the owner
/// index resolves to no body.
pub open spec fn resolved_target(players: Seq<Player>, t: FootTarget) -> FootTarget {
    if t.owner < players.len() {
        let p = players[t.owner as int];
        FootTarget {
            owner: t.owner,
            foot: t.foot,
            anchor: t.anchor,
            pos_offset: t.pos_offset,
            position: Vec3 {
                x: (p.position.x + scaled(t.pos_offset.x as int, p.walk_spread.x as int)) as i64,
                y: t.position.y,
                z: (p.position.z + scaled(t.pos_offset.z as int, p.walk_spread.z as int)) as i64,
            },
        }
    } else {
        t
    }
}

/// All targets after the resolver ran, leg by leg.
pub open spec fn resolved_targets(players: Seq<Player>, targets: Seq<FootTarget>) -> Seq<
    FootTarget,
> {
    Seq::new(targets.len(), |i: int| resolved_target(players, targets[i]))
}

/// Overwrites every target's horizontal position with its resting point
/// beside the owning body.
pub fn target_at_side_system(players: &Vec<Player>, foot_targets: &mut Vec<FootTarget>)
    requires
        forall|i: int| 0 <= i < players@.len() ==> (#[trigger] players@[i]).wf(),
        forall|i: int|
            0 <= i < old(foot_targets)@.len() ==> (#[trigger] old(foot_targets)@[i]).wf(),
    ensures
        final(foot_targets)@ == resolved_targets(players@, old(foot_targets)@),
        forall|i: int|
            0 <= i < final(foot_targets)@.len() ==> (#[trigger] final(foot_targets)@[i]).wf(),
{
    let n: usize = foot_targets.len();
    let mut i: usize = 0;
    while i < n
        invariant
            n == foot_targets@.len() == old(foot_targets)@.len(),
            i <= n,
            forall|j: int| 0 <= j < players@.len() ==> (#[trigger] players@[j]).wf(),
            forall|j: int|
                0 <= j < n ==> (#[trigger] old(foot_targets)@[j]).wf(),
            forall|j: int|
                0 <= j < i ==> foot_targets@[j] == resolved_target(
                    players@,
                    #[trigger] old(foot_targets)@[j],
                ),
            forall|j: int| i <= j < n ==> #[trigger] foot_targets@[j] == old(foot_targets)@[j],
            forall|j: int| 0 <= j < n ==> (#[trigger] foot_targets@[j]).wf(),
        decreases n - i,
    {
        let t = foot_targets[i];
        if t.owner < players.len() {
            let p = &players[t.owner];
            let nx: i64 = p.position.x + scaled_mul(t.pos_offset.x, p.walk_spread.x);
            let nz: i64 = p.position.z + scaled_mul(t.pos_offset.z, p.walk_spread.z);
            foot_targets.set(
                i,
                FootTarget {
                    owner: t.owner,
                    foot: t.foot,
                    anchor: t.anchor,
                    pos_offset: t.pos_offset,
                    position: Vec3 { x: nx, y: t.position.y, z: nz },
                },
            );
        }
        i = i + 1;
    }
    assert(foot_targets@ =~= resolved_targets(players@, old(foot_targets)@));
}

/// Running the target resolver twice in the same tick, with the body poses
/// unchanged, yields the same target positions as running it once.
pub proof fn lemma_target_resolver_idempotent(players: Seq<Player>, targets: Seq<FootTarget>)
    ensures
        resolved_targets(players, resolved_targets(players, targets)) == resolved_targets(
            players,
            targets,
        ),
{
    let once = resolved_targets(players, targets);
    assert forall|i: int| 0 <= i < once.len() implies resolved_target(players, once[i])
        == once[i] by {
        assert(once[i] == resolved_target(players, targets[i]));
    }
    assert(resolved_targets(players, once) =~= once);
}

} // verus!
