//! The fixed-point scales and the thresholds of the flocking rules.

use vstd::prelude::*;

verus! {

/// Position steps in one world unit.
pub const UNIT: i32 = 1000;

/// Heading steps in a full turn.
pub const TURN: i32 = 3_600_000;

/// Heading steps in half a turn.
pub const HALF_TURN: i32 = 1_800_000;

/// The value that stands for a sine or a cosine of one.
pub const TRIG_ONE: i32 = 1_000_000;

/// Clock ticks in one second.
pub const TICKS_PER_SECOND: i32 = 1000;

/// What a product of a sine or cosine, a speed and a number of ticks is
/// divided by to give position steps: `TRIG_ONE` times `TICKS_PER_SECOND`.
pub const MOTION_SCALE: i64 = 1_000_000_000;

/// How far a boid sees, in position steps.
pub const PERCEPTION_RADIUS: u32 = 50_000;

/// The most neighbors a boid takes into account.
pub const LOCAL_FLOCK_SIZE: usize = 128;

/// At or beyond this distance to the nearest neighbor the flock is sparse
/// and cohesion steers.
pub const SPARSE_RANGE: u32 = 30_000;

/// At or within this distance to the nearest neighbor the flock is crowded
/// and separation steers.
pub const CROWDED_RANGE: u32 = 10_000;

/// At or within this distance separation turns the boid away from its
/// nearest neighbor.
pub const FLEE_RANGE: u32 = 5_000;

} // verus!
