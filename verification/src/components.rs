//! The per-creature and per-leg records of the gait controller.
//!
//! A creature is one `Player` owning any number of legs. Each leg is a
//! `FootTarget` (desired resting point), a `FootAnchor` (authoritative
//! resting point with the step state machine), and a `FootPole` (aiming hint
//! for the external joint solver). Legs refer to each other and to their
//! owner by index into the caller's arrays.

use vstd::prelude::*;

use crate::math::{Vec3, MAX_STEP_MS, PARAM_LIMIT, POS_BOUND, POS_LIMIT, SPEED_LIMIT};

verus! {

/// Height added to a target that must climb onto a surface other than the
/// ground plane, in thousandths of a unit.
pub const OBSTACLE_CLEARANCE: i64 = 200;

/// Duration of the fast corrective step forced by an obstacle, in
/// milliseconds.
pub const SNAP_STEP_MS: u64 = 20;

/// Default base duration of a step, in milliseconds.
pub const DEFAULT_STEP_MS: u64 = 200;

/// Default positional error margin of an anchor.
pub const DEFAULT_POS_ERROR_MARGIN: i64 = 160;

/// Default drift distance of an anchor.
pub const DEFAULT_MAX_DISTANCE: i64 = 550;

/// The simulated body: pose, speed and gait tuning, refreshed once per tick
/// by the external locomotion controller and read-only to every gait
/// component.
#[derive(Clone, Copy, Debug, PartialEq, Eq)]
pub struct Player {
    /// World position of the body.
    pub position: Vec3,
    /// Horizontal velocity from the last movement command.
    pub current_speed: Vec3,
    /// Nominal step height added to a lift-phase destination.
    pub walk_height: i64,
    /// Nominal stance half-width: the drift threshold of the step trigger.
    pub walk_width: i64,
    /// Per-axis scaling of each leg's base offset.
    pub walk_spread: Vec3,
    /// Shared offset of every leg's pole.
    pub pole_offset: Vec3,
    /// Per-axis scaling of pole placement.
    pub pole_spread: Vec3,
}

impl Player {
    /// Pose and tuning within the fixed-point bounds of the arithmetic.
    pub open spec fn wf(self) -> bool {
        &&& self.position.bounded(POS_LIMIT as int)
        &&& self.current_speed.bounded(SPEED_LIMIT as int)
        &&& 0 <= self.walk_height <= PARAM_LIMIT
        &&& 0 <= self.walk_width <= PARAM_LIMIT
        &&& self.walk_spread.bounded(PARAM_LIMIT as int)
        &&& self.pole_offset.bounded(PARAM_LIMIT as int)
        &&& self.pole_spread.bounded(PARAM_LIMIT as int)
    }
}

/// Marker for the designated ground-plane surface of the ray query.
pub struct Ground {}

/// Marker for a leg's end effector, driven by the external joint solver.
pub struct Foot {}

/// The desired resting position of one leg, kept at the body's side by the
/// target resolver and pinned to terrain height by the ground conformer.
#[derive(Clone, Copy, Debug, PartialEq, Eq)]
pub struct FootTarget {
    /// Index of the owning body.
    pub owner: usize,
    /// Index of the leg's foot.
    pub foot: usize,
    /// Index of the leg's anchor.
    pub anchor: usize,
    /// Base offset from the body, scaled per axis by the body's walk spread.
    pub pos_offset: Vec3,
    /// Current world position.
    pub position: Vec3,
}

impl FootTarget {
    pub open spec fn wf(self) -> bool {
        &&& self.pos_offset.bounded(PARAM_LIMIT as int)
        &&& self.position.bounded(POS_BOUND as int)
    }
}

/// The aiming hint consumed by the external joint solver to bias the bend
/// direction of a leg; a pure function of body pose.
#[derive(Clone, Copy, Debug, PartialEq, Eq)]
pub struct FootPole {
    /// Index of the owning body.
    pub owner: usize,
    /// Fixed per-leg offset of the pole.
    pub pos_offset: Vec3,
    /// Current world position.
    pub position: Vec3,
}

impl FootPole {
    pub open spec fn wf(self) -> bool {
        &&& self.pos_offset.bounded(PARAM_LIMIT as int)
        &&& self.position.bounded(POS_BOUND as int)
    }
}

/// A once-off countdown bounding how long a step may stay in flight.
///
/// The timer advances monotonically up to its duration and reports finished
/// from then on; resetting it restores the full duration.
#[derive(Clone, Copy, Debug, PartialEq, Eq, Structural)]
pub struct AnimationTimer {
    /// Full duration of the countdown, in milliseconds.
    pub duration: u64,
    /// Time accumulated so far, in milliseconds; never exceeds the duration.
    pub elapsed: u64,
}

impl AnimationTimer {
    pub open spec fn wf(self) -> bool {
        &&& self.elapsed <= self.duration
        &&& self.duration <= MAX_STEP_MS
    }

    /// Whether the countdown has run out.
    pub open spec fn spec_finished(self) -> bool {
        self.elapsed >= self.duration
    }

    /// The timer after `delta` more milliseconds, capped at the duration.
    pub open spec fn spec_ticked(self, delta: u64) -> AnimationTimer {
        AnimationTimer {
            duration: self.duration,
            elapsed: if self.elapsed + delta >= self.duration {
                self.duration
            } else {
                (self.elapsed + delta) as u64
            },
        }
    }

    pub fn new(duration: u64) -> (t: AnimationTimer)
        ensures
            t == (AnimationTimer { duration, elapsed: 0 }),
    {
        AnimationTimer { duration, elapsed: 0 }
    }

    /// Advances the timer by `delta` milliseconds.
    pub fn tick(&mut self, delta: u64)
        requires
            old(self).elapsed <= old(self).duration,
        ensures
            *final(self) == old(self).spec_ticked(delta),
    {
        if delta >= self.duration - self.elapsed {
            self.elapsed = self.duration;
        } else {
            self.elapsed = self.elapsed + delta;
        }
    }

    /// Whether the countdown has run out.
    pub fn finished(&self) -> (r: bool)
        ensures
            r == self.spec_finished(),
    {
        self.elapsed >= self.duration
    }
}

/// The authoritative resting point of one leg and its step state machine.
///
/// `moving` is the motion flag: while it is set an interpolation is expected
/// to be driving `position`, and the trigger will not start another step.
/// The timer bounds how long that state may last; when it runs out the
/// anchor is forced back to idle even without a completion signal.
#[derive(Clone, Copy, Debug, PartialEq, Eq)]
pub struct FootAnchor {
    /// Index of the leg's foot, when bound.
    pub foot: Option<usize>,
    /// Index of the leg's target, when bound.
    pub target: Option<usize>,
    /// Base duration of a step started from this anchor, in milliseconds.
    pub animation_duration: u64,
    /// Countdown bounding the in-flight state of the current step.
    pub animation_timer: AnimationTimer,
    /// Positional error margin kept for inspection.
    pub pos_error_margin: i64,
    /// Drift distance kept for inspection.
    pub max_distance: i64,
    /// Whether a step interpolation is in flight.
    pub moving: bool,
    /// Alternation flag: whether the next triggered step is a lift phase.
    pub inverted: bool,
    /// Current world position, read by the joint solver every tick.
    pub position: Vec3,
}

impl FootAnchor {
    pub open spec fn wf(self) -> bool {
        &&& self.animation_timer.wf()
        &&& self.animation_duration <= MAX_STEP_MS
        &&& 0 <= self.pos_error_margin <= PARAM_LIMIT
        &&& 0 <= self.max_distance <= PARAM_LIMIT
        &&& self.position.bounded(POS_BOUND as int)
    }

    /// Records the external interpolator's completion signal: the step is
    /// no longer in flight, and no countdown is left outstanding. Whichever
    /// of this signal and the countdown arrives first ends the step.
    pub fn complete_step(&mut self)
        ensures
            *final(self) == (FootAnchor {
                moving: false,
                animation_timer: AnimationTimer {
                    duration: old(self).animation_timer.duration,
                    elapsed: old(self).animation_timer.duration,
                },
                ..*old(self)
            }),
    {
        self.moving = false;
        self.animation_timer.elapsed = self.animation_timer.duration;
    }
}

impl Default for FootAnchor {
    /// An unbound idle anchor at the origin with the default step timing.
    fn default() -> (a: FootAnchor)
        ensures
            a == (FootAnchor {
                foot: None,
                target: None,
                animation_duration: DEFAULT_STEP_MS,
                animation_timer: AnimationTimer { duration: DEFAULT_STEP_MS, elapsed: 0 },
                pos_error_margin: DEFAULT_POS_ERROR_MARGIN,
                max_distance: DEFAULT_MAX_DISTANCE,
                moving: false,
                inverted: false,
                position: Vec3 { x: 0, y: 0, z: 0 },
            }),
            a.wf(),
    {
        FootAnchor {
            foot: None,
            target: None,
            animation_duration: DEFAULT_STEP_MS,
            animation_timer: AnimationTimer::new(DEFAULT_STEP_MS),
            pos_error_margin: DEFAULT_POS_ERROR_MARGIN,
            max_distance: DEFAULT_MAX_DISTANCE,
            moving: false,
            inverted: false,
            position: Vec3 { x: 0, y: 0, z: 0 },
        }
    }
}

/// A step request: raised by the trigger or the conformer, consumed exactly
/// once by the executor within the same tick.
#[derive(Clone, Copy, Debug, PartialEq, Eq, Structural)]
pub struct MoveAnchorEvent {
    /// Index of the anchor that should step.
    pub anchor: usize,
    /// Index of the target holding the destination.
    pub target: usize,
    /// Requested duration of the interpolation, in milliseconds.
    pub animation_duration: u64,
}

/// The outcome of one downward ray cast of the external collision engine,
/// handed in by the caller for each leg every tick.
#[derive(Clone, Copy, Debug, PartialEq, Eq, Structural)]
pub struct RayHit {
    /// Whether the surface hit is the designated ground plane.
    pub ground: bool,
    /// Height of the hit point.
    pub height: i64,
}

impl RayHit {
    pub open spec fn wf(self) -> bool {
        -POS_LIMIT <= self.height <= POS_LIMIT
    }
}

/// An instruction to the external step interpolator: ease the anchor's
/// position from `start` to `end` over `duration_ms` milliseconds.
#[derive(Clone, Copy, Debug, PartialEq, Eq, Structural)]
pub struct StepTween {
    /// Index of the anchor to animate.
    pub anchor: usize,
    /// Position the interpolation starts from.
    pub start: Vec3,
    /// Position the interpolation ends at.
    pub end: Vec3,
    /// Duration of the interpolation, in milliseconds.
    pub duration_ms: u64,
}

} // verus!
