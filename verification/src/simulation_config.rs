//! The configuration of a run: how many simulations, particles and food
//! items, and the tunables of the physics.

use vstd::prelude::*;

use crate::error::ConfigError;
use crate::fixed::UNIT;
use crate::globals::{
    COLLISION_DAMPING, DEFAULT_CROSSOVER_RATE, DEFAULT_ELITE_RATIO, DEFAULT_FOOD_COUNT,
    DEFAULT_FOOD_RESPAWN_TIME, DEFAULT_FOOD_VALUE, DEFAULT_MAX_FORCE_RANGE, DEFAULT_MUTATION_RATE,
    DEFAULT_PARTICLE_COUNT, DEFAULT_PARTICLE_TYPES, DEFAULT_SIMULATION_COUNT, DEFAULT_WORLD_SIZE,
    FORCE_SCALE_FACTOR, MAX_EXTENT, MAX_FOOD_COUNT, MAX_FORCE_SCALE, MAX_PARTICLES_PER_SIMULATION,
    MAX_PARTICLE_TYPES, MAX_SIMULATION_COUNT, MAX_VELOCITY, MIN_DISTANCE, VELOCITY_HALF_LIFE,
};

verus! {

/// The configuration of a run.
#[derive(Clone, Copy, Debug)]
pub struct SimulationConfig {
    /// Side of the cube that each simulation lives in.
    pub world_size: i64,
    pub simulation_count: usize,
    /// Total number of particles, over all simulations.
    pub particle_count: usize,
    pub particle_types: usize,
    /// The share of each simulation, rounded down.
    pub particles_per_simulation: usize,
    /// Distance beyond which two particles do not interact.
    pub max_force_range: i64,
    /// Factor from a force coefficient to a force.
    pub force_scale: i64,
    /// Distance under which two particles count as this far apart.
    pub min_distance: i64,
    /// Time in which friction halves a speed.
    pub velocity_half_life: i64,
    /// Largest speed of a particle.
    pub max_velocity: i64,
    /// Share of its speed that a particle keeps when it bounces off a wall.
    pub collision_damping: i64,
    /// Total number of food items, over all simulations.
    pub food_count: usize,
    pub food_respawn_enabled: bool,
    /// Time a consumed food item stays hidden.
    pub food_respawn_time: i64,
    /// Score that one food item is worth.
    pub food_value: i64,
    pub elite_ratio: i64,
    pub mutation_rate: i64,
    pub crossover_rate: i64,
    pub viewport_rows: u32,
    pub viewport_cols: u32,
}

impl SimulationConfig {
    /// Half the side of the world: the largest coordinate inside it.
    pub open spec fn half_extent(&self) -> int {
        self.world_size / 2
    }

    /// The tunables of the physics are in their ranges.
    pub open spec fn physics_valid(&self) -> bool {
        &&& 0 < self.world_size <= 2 * MAX_EXTENT
        &&& 0 < self.max_force_range <= MAX_EXTENT
        &&& 0 <= self.force_scale <= MAX_FORCE_SCALE
        &&& 0 < self.min_distance <= MAX_EXTENT
        &&& 0 < self.velocity_half_life <= MAX_EXTENT
        &&& 0 <= self.max_velocity <= MAX_EXTENT
        &&& 0 <= self.collision_damping <= UNIT
    }

    /// What is wrong with the configuration, the first of the faults in the
    /// order of `ConfigError`; `None` if it can be run.
    pub open spec fn violation(&self) -> Option<ConfigError> {
        if self.simulation_count == 0 {
            Some(ConfigError::NoSimulations)
        } else if self.particle_count < self.simulation_count {
            Some(ConfigError::TooFewParticles)
        } else if self.particle_types == 0 {
            Some(ConfigError::NoParticleTypes)
        } else if self.simulation_count > MAX_SIMULATION_COUNT || self.particle_count / self.simulation_count
            >= MAX_PARTICLES_PER_SIMULATION {
            Some(ConfigError::TooManyParticles)
        } else if self.particle_types > MAX_PARTICLE_TYPES {
            Some(ConfigError::TooManyTypes)
        } else if self.food_count > MAX_FOOD_COUNT {
            Some(ConfigError::TooMuchFood)
        } else if !self.physics_valid() || self.food_respawn_time < 0 || self.food_value < 0
            || self.food_value > MAX_EXTENT {
            Some(ConfigError::InvalidTunable)
        } else {
            None
        }
    }

    /// The configuration can be run.
    pub open spec fn valid(&self) -> bool {
        self.violation() is None
    }

    /// Half the side of the world.
    pub fn half_world(&self) -> (half: i64)
        requires
            self.physics_valid(),
        ensures
            half == self.half_extent(),
            0 <= half <= MAX_EXTENT,
    {
        self.world_size / 2
    }

    /// Whether the tunables of the physics are in their ranges.
    pub fn check_physics(&self) -> (ok: bool)
        ensures
            ok == self.physics_valid(),
    {
        0 < self.world_size && self.world_size <= 2 * MAX_EXTENT && 0 < self.max_force_range
            && self.max_force_range <= MAX_EXTENT && 0 <= self.force_scale && self.force_scale
            <= MAX_FORCE_SCALE && 0 < self.min_distance && self.min_distance <= MAX_EXTENT && 0
            < self.velocity_half_life && self.velocity_half_life <= MAX_EXTENT && 0
            <= self.max_velocity && self.max_velocity <= MAX_EXTENT && 0 <= self.collision_damping
            && self.collision_damping <= UNIT
    }

    /// Checks the configuration: `Ok` if it can be run, else its first fault.
    pub fn validate(&self) -> (result: Result<(), ConfigError>)
        ensures
            result == match self.violation() {
                Some(fault) => Err::<(), ConfigError>(fault),
                None => Ok::<(), ConfigError>(()),
            },
    {
        if self.simulation_count == 0 {
            Err(ConfigError::NoSimulations)
        } else if self.particle_count < self.simulation_count {
            Err(ConfigError::TooFewParticles)
        } else if self.particle_types == 0 {
            Err(ConfigError::NoParticleTypes)
        } else if self.simulation_count > MAX_SIMULATION_COUNT || self.particle_count
            / self.simulation_count >= MAX_PARTICLES_PER_SIMULATION {
            Err(ConfigError::TooManyParticles)
        } else if self.particle_types > MAX_PARTICLE_TYPES {
            Err(ConfigError::TooManyTypes)
        } else if self.food_count > MAX_FOOD_COUNT {
            Err(ConfigError::TooMuchFood)
        } else if !self.check_physics() || self.food_respawn_time < 0 || self.food_value < 0
            || self.food_value > MAX_EXTENT {
            Err(ConfigError::InvalidTunable)
        } else {
            Ok(())
        }
    }
}

impl Default for SimulationConfig {
    /// Eight simulations that share 1600 particles of six types and 200 food
    /// items, in worlds of side 50.
    fn default() -> (config: SimulationConfig)
        ensures
            config.valid(),
            config.world_size == DEFAULT_WORLD_SIZE,
            config.simulation_count == DEFAULT_SIMULATION_COUNT,
            config.particle_count == DEFAULT_PARTICLE_COUNT,
            config.particle_types == DEFAULT_PARTICLE_TYPES,
            config.particles_per_simulation == DEFAULT_PARTICLE_COUNT / DEFAULT_SIMULATION_COUNT,
            config.max_force_range == DEFAULT_MAX_FORCE_RANGE,
            config.force_scale == FORCE_SCALE_FACTOR,
            config.min_distance == MIN_DISTANCE,
            config.velocity_half_life == VELOCITY_HALF_LIFE,
            config.max_velocity == MAX_VELOCITY,
            config.collision_damping == COLLISION_DAMPING,
            config.food_count == DEFAULT_FOOD_COUNT,
            config.food_respawn_enabled,
            config.food_respawn_time == DEFAULT_FOOD_RESPAWN_TIME,
            config.food_value == DEFAULT_FOOD_VALUE,
            config.elite_ratio == DEFAULT_ELITE_RATIO,
            config.mutation_rate == DEFAULT_MUTATION_RATE,
            config.crossover_rate == DEFAULT_CROSSOVER_RATE,
            config.viewport_rows == 2,
            config.viewport_cols == 4,
    {
        SimulationConfig {
            world_size: DEFAULT_WORLD_SIZE,
            simulation_count: DEFAULT_SIMULATION_COUNT,
            particle_count: DEFAULT_PARTICLE_COUNT,
            particle_types: DEFAULT_PARTICLE_TYPES,
            particles_per_simulation: DEFAULT_PARTICLE_COUNT / DEFAULT_SIMULATION_COUNT,
            max_force_range: DEFAULT_MAX_FORCE_RANGE,
            force_scale: FORCE_SCALE_FACTOR,
            min_distance: MIN_DISTANCE,
            velocity_half_life: VELOCITY_HALF_LIFE,
            max_velocity: MAX_VELOCITY,
            collision_damping: COLLISION_DAMPING,
            food_count: DEFAULT_FOOD_COUNT,
            food_respawn_enabled: true,
            food_respawn_time: DEFAULT_FOOD_RESPAWN_TIME,
            food_value: DEFAULT_FOOD_VALUE,
            elite_ratio: DEFAULT_ELITE_RATIO,
            mutation_rate: DEFAULT_MUTATION_RATE,
            crossover_rate: DEFAULT_CROSSOVER_RATE,
            viewport_rows: 2,
            viewport_cols: 4,
        }
    }
}

} // verus!
