//! Procedural foot-placement (gait) control for a multi-legged body.
//!
//! Each leg's resting point (its anchor) is driven by a small per-leg state
//! machine: a resolver keeps the leg's desired target at the body's side, a
//! ground conformer pins the target's height to the terrain, a trigger decides
//! when the anchor has drifted far enough to step, and an executor turns step
//! requests into interpolation commands for an external animation primitive.
//!
//! Lengths are fixed-point integers in thousandths of a world unit and
//! durations are integer milliseconds, so every rule is stated and proved
//! exactly.

pub mod components;
pub mod conformer;
pub mod executor;
pub mod math;
pub mod pole;
pub mod resolver;
pub mod tick;
pub mod trigger;
