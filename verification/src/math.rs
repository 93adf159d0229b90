//! Fixed-point scalar and vector arithmetic.
//!
//! A length is an `i64` counting thousandths of a world unit, a duration a
//! `u64` counting milliseconds. The bounds below keep every product and sum
//! of the gait formulas inside `i64`/`u64` range.

use vstd::prelude::*;

verus! {

/// Fixed-point parts per world unit.
pub const SCALE: i64 = 1000;

/// Largest magnitude of a body position coordinate or a ray-hit height.
pub const POS_LIMIT: i64 = 100_000_000;

/// Largest magnitude of a stored target, anchor or pole coordinate.
pub const POS_BOUND: i64 = 200_000_000;

/// Largest magnitude of a stance parameter or per-leg offset coordinate.
pub const PARAM_LIMIT: i64 = 100_000;

/// Largest magnitude of a body speed component.
pub const SPEED_LIMIT: i64 = 10_000;

/// Largest step duration, in milliseconds.
pub const MAX_STEP_MS: u64 = 1_000_000_000;

/// A point or offset in world space, in thousandths of a unit per axis.
#[derive(Clone, Copy, Debug, PartialEq, Eq, Structural)]
pub struct Vec3 {
    pub x: i64,
    pub y: i64,
    pub z: i64,
}

impl Vec3 {
    /// Every coordinate within `bound` of zero.
    pub open spec fn bounded(self, bound: int) -> bool {
        &&& -bound <= self.x <= bound
        &&& -bound <= self.y <= bound
        &&& -bound <= self.z <= bound
    }

    pub fn new(x: i64, y: i64, z: i64) -> (v: Vec3)
        ensures
            v == (Vec3 { x, y, z }),
    {
        Vec3 { x, y, z }
    }
}

/// A fixed-point product: `a * b` scaled back down by `SCALE`, rounding
/// toward zero as Rust's integer division does.
pub open spec fn scaled(a: int, b: int) -> int {
    if a * b >= 0 {
        (a * b) / (SCALE as int)
    } else {
        -((-(a * b)) / (SCALE as int))
    }
}

/// The squared distance of two points in the ground plane (x and z only).
pub open spec fn hdist_sq(a: Vec3, b: Vec3) -> int {
    (a.x - b.x) * (a.x - b.x) + (a.z - b.z) * (a.z - b.z)
}

/// A magnitude bound on the inputs of `scaled` bounds its result.
pub proof fn lemma_scaled_bound(a: int, b: int, m: int)
    requires
        -m <= a * b <= m,
        0 <= m,
    ensures
        -(m / (SCALE as int)) <= scaled(a, b) <= m / (SCALE as int),
{
    if a * b >= 0 {
        vstd::arithmetic::div_mod::lemma_div_is_ordered(a * b, m, SCALE as int);
        vstd::arithmetic::div_mod::lemma_div_pos_is_pos(a * b, SCALE as int);
    } else {
        vstd::arithmetic::div_mod::lemma_div_is_ordered(-(a * b), m, SCALE as int);
        vstd::arithmetic::div_mod::lemma_div_pos_is_pos(-(a * b), SCALE as int);
    }
}

/// Multiplies two fixed-point values and scales the product back down.
pub fn scaled_mul(a: i64, b: i64) -> (r: i64)
    requires
        -2 * PARAM_LIMIT <= a <= 2 * PARAM_LIMIT,
        -PARAM_LIMIT <= b <= PARAM_LIMIT,
    ensures
        r == scaled(a as int, b as int),
        -20_000_000 <= r <= 20_000_000,
{
    proof {
        assert(-20_000_000_000 <= (a as int) * (b as int) <= 20_000_000_000) by (nonlinear_arith)
            requires
                -2 * PARAM_LIMIT <= a <= 2 * PARAM_LIMIT,
                -PARAM_LIMIT <= b <= PARAM_LIMIT,
        ;
        lemma_scaled_bound(a as int, b as int, 20_000_000_000);
    }
    let p: i64 = a * b;
    if p >= 0 {
        ((p as u64) / 1000) as i64
    } else {
        let m: u64 = (-p) as u64;
        -((m / 1000) as i64)
    }
}

/// The squared ground-plane distance between two bounded points.
pub fn horizontal_dist_sq(a: &Vec3, b: &Vec3) -> (d: i64)
    requires
        a.bounded(POS_BOUND as int),
        b.bounded(POS_BOUND as int),
    ensures
        d == hdist_sq(*a, *b),
        0 <= d,
{
    proof {
        assert(0 <= (a.x - b.x) * (a.x - b.x) <= 160_000_000_000_000_000
            && 0 <= (a.z - b.z) * (a.z - b.z) <= 160_000_000_000_000_000) by (nonlinear_arith)
            requires
                -400_000_000 <= a.x - b.x <= 400_000_000,
                -400_000_000 <= a.z - b.z <= 400_000_000,
        ;
    }
    let dx: i64 = a.x - b.x;
    let dz: i64 = a.z - b.z;
    dx * dx + dz * dz
}

} // verus!
