//! Pole resolver: keeps each leg's aiming hint beside the body.
//!
//! A pole's position is a pure function of the body pose: the body position
//! plus the leg's pole offset and the body's shared pole offset, scaled per
//! axis by the body's pole spread. It carries no state and may run in any
//! order relative to the other gait components.

use vstd::prelude::*;

use crate::components::{FootPole, Player};
use crate::math::{scaled, scaled_mul, Vec3};

verus! {

/// One pole after the resolver ran; unchanged when the owner index resolves
/// to no body.
pub open spec fn resolved_pole(players: Seq<Player>, pl: FootPole) -> FootPole {
    if pl.owner < players.len() {
        let p = players[pl.owner as int];
        FootPole {
            owner: pl.owner,
            pos_offset: pl.pos_offset,
            position: Vec3 {
                x: (p.position.x + scaled(
                    pl.pos_offset.x + p.pole_offset.x,
                    p.pole_spread.x as int,
                )) as i64,
                y: (p.position.y + scaled(
                    pl.pos_offset.y + p.pole_offset.y,
                    p.pole_spread.y as int,
                )) as i64,
                z: (p.position.z + scaled(
                    pl.pos_offset.z + p.pole_offset.z,
                    p.pole_spread.z as int,
                )) as i64,
            },
        }
    } else {
        pl
    }
}

/// All poles after the resolver ran, leg by leg.
pub open spec fn resolved_poles(players: Seq<Player>, poles: Seq<FootPole>) -> Seq<FootPole> {
    Seq::new(poles.len(), |i: int| resolved_pole(players, poles[i]))
}

/// Moves every pole to its place beside the owning body.
pub fn pole_system(players: &Vec<Player>, foot_poles: &mut Vec<FootPole>)
    requires
        forall|i: int| 0 <= i < players@.len() ==> (#[trigger] players@[i]).wf(),
        forall|i: int| 0 <= i < old(foot_poles)@.len() ==> (#[trigger] old(foot_poles)@[i]).wf(),
    ensures
        final(foot_poles)@ == resolved_poles(players@, old(foot_poles)@),
        forall|i: int|
            0 <= i < final(foot_poles)@.len() ==> (#[trigger] final(foot_poles)@[i]).wf(),
{
    let n: usize = foot_poles.len();
    let mut i: usize = 0;
    while i < n
        invariant
            n == foot_poles@.len() == old(foot_poles)@.len(),
            i <= n,
            forall|j: int| 0 <= j < players@.len() ==> (#[trigger] players@[j]).wf(),
            forall|j: int| 0 <= j < n ==> (#[trigger] old(foot_poles)@[j]).wf(),
            forall|j: int|
                0 <= j < i ==> foot_poles@[j] == resolved_pole(
                    players@,
                    #[trigger] old(foot_poles)@[j],
                ),
            forall|j: int| i <= j < n ==> #[trigger] foot_poles@[j] == old(foot_poles)@[j],
            forall|j: int| 0 <= j < n ==> (#[trigger] foot_poles@[j]).wf(),
        decreases n - i,
    {
        let pl = foot_poles[i];
        if pl.owner < players.len() {
            let p = &players[pl.owner];
            let nx: i64 = p.position.x + scaled_mul(pl.pos_offset.x + p.pole_offset.x, p.pole_spread.x);
            let ny: i64 = p.position.y + scaled_mul(pl.pos_offset.y + p.pole_offset.y, p.pole_spread.y);
            let nz: i64 = p.position.z + scaled_mul(pl.pos_offset.z + p.pole_offset.z, p.pole_spread.z);
            foot_poles.set(
                i,
                FootPole {
                    owner: pl.owner,
                    pos_offset: pl.pos_offset,
                    position: Vec3 { x: nx, y: ny, z: nz },
                },
            );
        }
        i = i + 1;
    }
    assert(foot_poles@ =~= resolved_poles(players@, old(foot_poles)@));
}

} // verus!
