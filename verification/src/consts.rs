//! The unit of the fixed-point arithmetic, the limits of what it can
//! represent, and the parameters of the standard colony.

use vstd::prelude::*;

verus! {

/// One whole unit. Every length, angle and strength of this crate is an
/// integer count of millionths: a length of 2.5 world units is `2_500_000`,
/// an angle of one radian is `1_000_000`.
pub const SCALE: i64 = 1_000_000;

/// Half a turn, in millionths of a radian. It is even, so that a quarter turn
/// is exactly half of it.
pub const PI: i64 = 3_141_592;

/// A quarter turn.
pub const HALF_PI: i64 = 1_570_796;

/// A full turn.
pub const TWO_PI: i64 = 6_283_184;

/// The largest magnitude a coordinate can take. Positions that a step would
/// carry beyond it stay at the limit.
pub const MAX_COORD: i64 = 1_000_000_000_000;

/// The largest magnitude of a stored marker direction.
pub const MAX_ANGLE: i64 = 1_000_000_000_000;

/// The largest magnitude of the movement parameters (wander coefficient,
/// walk speed, homing strength) and the largest decay rate.
pub const MAX_PARAM: i64 = 1_000_000_000;

/// The largest number of cells along one side of the grid.
pub const MAX_GRID_SIDE: usize = 32_768;

/// The number of distinct uniform fractions that a draw can give: two to
/// the power 24.
pub const DRAW_RANGE: i64 = 16_777_216;

/// The strength of a freshly deposited marker.
pub const FULL_STRENGTH: i64 = 1_000_000;

/// The strength, and both coordinates, of a free slot.
pub const FREE_SLOT: i64 = -1_000_000;

/// The number of agents of the standard colony.
pub const ANT_COUNT: usize = 10_000;

/// The standard wander coefficient: a tenth of a radian.
pub const WANDER_COEFFICIENT: i64 = 100_000;

/// The standard walk speed: two world units in a tick.
pub const WALK_SPEED: i64 = 2_000_000;

/// The standard homing strength: a twentieth of the way to the nest bearing
/// in a tick.
pub const NEST_HONING_STRENGTH: i64 = 50_000;

/// The standard deposit interval, in ticks.
pub const ANT_PHEROMONE_TIMER: usize = 60;

/// The standard sensor radius: twenty world units.
pub const ANT_VIEW_RADIUS: i64 = 20_000_000;

/// The standard cell size: ten world units.
pub const GRID_SIZE: i64 = 10_000_000;

/// The standard decay rate: three thousandths of a whole strength in a tick.
pub const PHEROMONE_DECAY: i64 = 3_000;

} // verus!
