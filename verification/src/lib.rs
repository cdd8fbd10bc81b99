//! A colony of foraging agents on a grid of resources.
//!
//! Agents wander from the nest, pick up food, carry it home and leave scent
//! markers that other agents follow. The simulation is deterministic: all
//! quantities are integers in millionths of their unit, and the only source
//! of randomness is a seeded generator.

pub mod angles;
pub mod ants;
pub mod config;
pub mod consts;
pub mod functions;
pub mod grid;
pub mod pheromones;
pub mod random;
pub mod simulation;
