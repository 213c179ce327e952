//! Default values and machine limits, in fixed-point where they are quantities.

use vstd::prelude::*;

verus! {

/// Total number of particles, over all simulations.
pub const DEFAULT_PARTICLE_COUNT: usize = 1600;

/// Number of particle types.
pub const DEFAULT_PARTICLE_TYPES: usize = 6;

/// Number of simulations that run side by side.
pub const DEFAULT_SIMULATION_COUNT: usize = 8;

/// Length of an epoch: 60 seconds.
pub const DEFAULT_EPOCH_DURATION: i64 = 60_000_000;

/// The fixed physics time step: a sixtieth of a second.
pub const PHYSICS_TIMESTEP: i64 = 16_667;

/// Side of the cube that a simulation lives in: 50.
pub const DEFAULT_WORLD_SIZE: i64 = 50_000_000;

/// Number of food items, over all simulations.
pub const DEFAULT_FOOD_COUNT: usize = 200;

/// Time a consumed food item stays hidden: 5 seconds.
pub const DEFAULT_FOOD_RESPAWN_TIME: i64 = 5_000_000;

/// Score that one food item is worth: 1.
pub const DEFAULT_FOOD_VALUE: i64 = 1_000_000;

/// Distance under which a particle consumes a food item: 1.
pub const FOOD_RADIUS: i64 = 1_000_000;

/// Displayed radius of a particle: 0.3.
pub const DEFAULT_PARTICLE_SIZE: i64 = 300_000;

/// Largest speed of a particle: 200 per second.
pub const MAX_VELOCITY: i64 = 200_000_000;

/// Share of its speed that a particle keeps when it bounces off a wall: 0.5.
pub const COLLISION_DAMPING: i64 = 500_000;

/// Distance beyond which two particles do not interact: 100.
pub const DEFAULT_MAX_FORCE_RANGE: i64 = 100_000_000;

/// Factor from a force coefficient to a force: 80.
pub const FORCE_SCALE_FACTOR: i64 = 80_000_000;

/// Distance under which two particles count as this far apart: 0.001.
pub const MIN_DISTANCE: i64 = 1_000;

/// Time in which friction halves a speed: 0.043 seconds.
pub const VELOCITY_HALF_LIFE: i64 = 43_000;

/// Share of genomes kept from one epoch to the next: 0.1.
pub const DEFAULT_ELITE_RATIO: i64 = 100_000;

/// Chance of a mutation: 0.1.
pub const DEFAULT_MUTATION_RATE: i64 = 100_000;

/// Chance of a crossover: 0.7.
pub const DEFAULT_CROSSOVER_RATE: i64 = 700_000;

/// Largest magnitude of a coordinate, a speed component, a range or half a
/// world's side: a million.
pub const MAX_EXTENT: i64 = 1_000_000_000_000;

/// Largest magnitude of a force coefficient: a thousand.
pub const MAX_COEFFICIENT: i64 = 1_000_000_000;

/// Largest force scale factor: a thousand.
pub const MAX_FORCE_SCALE: i64 = 1_000_000_000;

/// Shortest time from one tick to the next: a thousandth of a second.
pub const MIN_TICK_INTERVAL: i64 = 1_000;

/// Longest time from one tick to the next: one second.
pub const MAX_TICK_INTERVAL: i64 = 1_000_000;

/// Longest time step: one second.
pub const MAX_TIMESTEP: i64 = 1_000_000;

/// Largest number of particles in one simulation.
pub const MAX_PARTICLES_PER_SIMULATION: usize = 1_000_000;

/// Largest number of simulations.
pub const MAX_SIMULATION_COUNT: usize = 1024;

/// Largest number of particle types.
pub const MAX_PARTICLE_TYPES: usize = 1024;

/// Largest number of food items, over all simulations.
pub const MAX_FOOD_COUNT: usize = 1_000_000;

} // verus!
