//! The parameters of a simulation and the test that they, the world and
//! the number of agents make one.

use vstd::prelude::*;
use crate::consts::{
    ANT_PHEROMONE_TIMER, ANT_COUNT, ANT_VIEW_RADIUS, GRID_SIZE, MAX_COORD, MAX_GRID_SIDE, MAX_PARAM,
    NEST_HONING_STRENGTH, PHEROMONE_DECAY, WALK_SPEED, WANDER_COEFFICIENT,
};
use crate::grid::valid_dimensions;

verus! {

/// The parameters of a simulation.
#[derive(Clone, Copy, Debug, PartialEq, Eq, Structural)]
pub struct Config {
    /// The magnitude of the random turn added to a heading in every update.
    pub wander_coefficient: i64,
    /// The length of one step.
    pub walk_speed: i64,
    /// The share of the way to the nest bearing that a carrying agent turns
    /// in one update.
    pub homing_strength: i64,
    /// Carrying agents deposit markers in every tick whose number is a
    /// multiple of this.
    pub pheromone_deposit_interval: usize,
    /// What a marker loses in strength in one tick.
    pub pheromone_decay_rate: i64,
    /// How far a foraging agent senses markers.
    pub pheromone_sensor_radius: i64,
    /// The side of a grid cell.
    pub cell_size: i64,
    /// The number of slots of the marker pool.
    pub pool_capacity: usize,
}

impl Config {
    /// The parameters are within the ranges that the arithmetic can take:
    /// the movement parameters at most `MAX_PARAM` in magnitude, the decay
    /// rate between zero and `MAX_PARAM`, a deposit interval of at least
    /// one, and a positive cell size.
    pub open spec fn valid(self) -> bool {
        &&& -MAX_PARAM <= self.wander_coefficient <= MAX_PARAM
        &&& -MAX_PARAM <= self.walk_speed <= MAX_PARAM
        &&& -MAX_PARAM <= self.homing_strength <= MAX_PARAM
        &&& 1 <= self.pheromone_deposit_interval
        &&& 0 <= self.pheromone_decay_rate <= MAX_PARAM
        &&& 0 < self.cell_size
    }
}

impl Config {
    /// Tests whether the parameters are within their ranges.
    pub fn is_valid(&self) -> (ok: bool)
        ensures
            ok == self.valid(),
    {
        -MAX_PARAM <= self.wander_coefficient && self.wander_coefficient <= MAX_PARAM && -MAX_PARAM
            <= self.walk_speed && self.walk_speed <= MAX_PARAM && -MAX_PARAM
            <= self.homing_strength && self.homing_strength <= MAX_PARAM && 1
            <= self.pheromone_deposit_interval && 0 <= self.pheromone_decay_rate
            && self.pheromone_decay_rate <= MAX_PARAM && 0 < self.cell_size
    }
}

impl Default for Config {
    /// The parameters of the standard colony, with one slot for each of
    /// `ANT_COUNT` agents.
    fn default() -> (config: Config)
        ensures
            config == (Config {
                wander_coefficient: WANDER_COEFFICIENT,
                walk_speed: WALK_SPEED,
                homing_strength: NEST_HONING_STRENGTH,
                pheromone_deposit_interval: ANT_PHEROMONE_TIMER,
                pheromone_decay_rate: PHEROMONE_DECAY,
                pheromone_sensor_radius: ANT_VIEW_RADIUS,
                cell_size: GRID_SIZE,
                pool_capacity: ANT_COUNT,
            }),
            config.valid(),
    {
        Config {
            wander_coefficient: WANDER_COEFFICIENT,
            walk_speed: WALK_SPEED,
            homing_strength: NEST_HONING_STRENGTH,
            pheromone_deposit_interval: ANT_PHEROMONE_TIMER,
            pheromone_decay_rate: PHEROMONE_DECAY,
            pheromone_sensor_radius: ANT_VIEW_RADIUS,
            cell_size: GRID_SIZE,
            pool_capacity: ANT_COUNT,
        }
    }
}

/// Why a simulation cannot be set up.
#[derive(Clone, Copy, Debug, PartialEq, Eq, Structural)]
pub enum ConfigError {
    /// The world or the cell size is not positive, the world is larger than
    /// the representable range, or the grid would have no cell or more than
    /// `MAX_GRID_SIDE` cells along a side.
    Dimensions,
    /// There is no agent.
    AgentCount,
    /// A parameter is outside its range.
    Parameter,
    /// The number of slots of the marker pool is no multiple of the number
    /// of agents.
    PoolCapacity,
}

/// The error that setting up a simulation with these values gives, if any.
/// The dimensions are looked at first, then the number of agents, then the
/// parameters, then the pool capacity.
pub open spec fn config_error(
    width: i64,
    height: i64,
    agent_count: usize,
    config: Config,
) -> Option<ConfigError> {
    if !valid_dimensions(width, height, config.cell_size) {
        Some(ConfigError::Dimensions)
    } else if agent_count == 0 {
        Some(ConfigError::AgentCount)
    } else if !config.valid() {
        Some(ConfigError::Parameter)
    } else if config.pool_capacity as int % agent_count as int != 0 {
        Some(ConfigError::PoolCapacity)
    } else {
        None
    }
}

/// Tests whether the dimensions make a grid.
pub fn dimensions_ok(width: i64, height: i64, cell_size: i64) -> (ok: bool)
    ensures
        ok == valid_dimensions(width, height, cell_size),
{
    if cell_size <= 0 || width <= 0 || height <= 0 || width > MAX_COORD || height > MAX_COORD {
        return false;
    }
    let cols: i64 = width / cell_size;
    let rows: i64 = height / cell_size;
    1 <= cols && cols <= MAX_GRID_SIDE as i64 && 1 <= rows && rows <= MAX_GRID_SIDE as i64
}

/// Looks for what is wrong with the values a simulation is to be set up
/// with.
pub fn check_config(width: i64, height: i64, agent_count: usize, config: &Config) -> (found: Option<
    ConfigError,
>)
    ensures
        found == config_error(width, height, agent_count, *config),
{
    if !dimensions_ok(width, height, config.cell_size) {
        Some(ConfigError::Dimensions)
    } else if agent_count == 0 {
        Some(ConfigError::AgentCount)
    } else if !config.is_valid() {
        Some(ConfigError::Parameter)
    } else if config.pool_capacity % agent_count != 0 {
        Some(ConfigError::PoolCapacity)
    } else {
        None
    }
}

} // verus!
