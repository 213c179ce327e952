//! What the user chooses before a run, and the configuration that it gives.

use vstd::prelude::*;

use crate::globals::{
    COLLISION_DAMPING, DEFAULT_CROSSOVER_RATE, DEFAULT_ELITE_RATIO, DEFAULT_FOOD_COUNT,
    DEFAULT_FOOD_RESPAWN_TIME, DEFAULT_FOOD_VALUE, DEFAULT_MAX_FORCE_RANGE, DEFAULT_MUTATION_RATE,
    DEFAULT_PARTICLE_COUNT, DEFAULT_PARTICLE_TYPES, DEFAULT_SIMULATION_COUNT, DEFAULT_WORLD_SIZE,
    FORCE_SCALE_FACTOR, MAX_VELOCITY, MIN_DISTANCE, VELOCITY_HALF_LIFE,
};
use crate::simulation_config::SimulationConfig;

verus! {

/// What the menu lets the user choose.
#[derive(Clone, Copy, Debug)]
pub struct MenuConfig {
    pub world_size: i64,
    pub simulation_count: usize,
    pub particle_count: usize,
    pub particle_types: usize,
    pub max_force_range: i64,
    pub food_count: usize,
    pub food_respawn_enabled: bool,
    pub food_respawn_time: i64,
    pub food_value: i64,
    pub elite_ratio: i64,
    pub mutation_rate: i64,
    pub crossover_rate: i64,
}

/// In how many columns the views of `count` simulations are laid out: side
/// by side up to four, and in four columns beyond.
pub open spec fn viewport_columns(count: usize) -> u32 {
    if count <= 4 {
        count as u32
    } else {
        4
    }
}

/// In how many rows the views of `count` simulations are laid out: as many
/// as four columns need.
pub open spec fn viewport_rows(count: usize) -> u32 {
    if count <= 4 {
        1
    } else {
        (count / 4 + if count % 4 == 0 {
            0int
        } else {
            1int
        }) as u32
    }
}

/// The configuration that the choices of the menu give. What the menu does
/// not offer has its default value.
pub open spec fn configuration_of(menu: MenuConfig) -> SimulationConfig {
    SimulationConfig {
        world_size: menu.world_size,
        simulation_count: menu.simulation_count,
        particle_count: menu.particle_count,
        particle_types: menu.particle_types,
        particles_per_simulation: if menu.simulation_count == 0 {
            0
        } else {
            menu.particle_count / menu.simulation_count
        },
        max_force_range: menu.max_force_range,
        force_scale: FORCE_SCALE_FACTOR,
        min_distance: MIN_DISTANCE,
        velocity_half_life: VELOCITY_HALF_LIFE,
        max_velocity: MAX_VELOCITY,
        collision_damping: COLLISION_DAMPING,
        food_count: menu.food_count,
        food_respawn_enabled: menu.food_respawn_enabled,
        food_respawn_time: menu.food_respawn_time,
        food_value: menu.food_value,
        elite_ratio: menu.elite_ratio,
        mutation_rate: menu.mutation_rate,
        crossover_rate: menu.crossover_rate,
        viewport_rows: viewport_rows(menu.simulation_count),
        viewport_cols: viewport_columns(menu.simulation_count),
    }
}

/// The configuration that the choices of the menu give.
pub fn apply_configuration(menu: &MenuConfig) -> (config: SimulationConfig)
    ensures
        config == configuration_of(*menu),
{
    let count: usize = menu.simulation_count;
    let rows: usize = if count % 4 == 0 {
        count / 4
    } else {
        count / 4 + 1
    };
    SimulationConfig {
        world_size: menu.world_size,
        simulation_count: count,
        particle_count: menu.particle_count,
        particle_types: menu.particle_types,
        particles_per_simulation: if count == 0 {
            0
        } else {
            menu.particle_count / count
        },
        max_force_range: menu.max_force_range,
        force_scale: FORCE_SCALE_FACTOR,
        min_distance: MIN_DISTANCE,
        velocity_half_life: VELOCITY_HALF_LIFE,
        max_velocity: MAX_VELOCITY,
        collision_damping: COLLISION_DAMPING,
        food_count: menu.food_count,
        food_respawn_enabled: menu.food_respawn_enabled,
        food_respawn_time: menu.food_respawn_time,
        food_value: menu.food_value,
        elite_ratio: menu.elite_ratio,
        mutation_rate: menu.mutation_rate,
        crossover_rate: menu.crossover_rate,
        viewport_rows: if count <= 4 {
            1
        } else {
            rows as u32
        },
        viewport_cols: if count <= 4 {
            count as u32
        } else {
            4
        },
    }
}

impl Default for MenuConfig {
    fn default() -> (menu: MenuConfig)
        ensures
            menu.world_size == DEFAULT_WORLD_SIZE,
            menu.simulation_count == DEFAULT_SIMULATION_COUNT,
            menu.particle_count == DEFAULT_PARTICLE_COUNT,
            menu.particle_types == DEFAULT_PARTICLE_TYPES,
            menu.max_force_range == DEFAULT_MAX_FORCE_RANGE,
            menu.food_count == DEFAULT_FOOD_COUNT,
            menu.food_respawn_enabled,
            menu.food_respawn_time == DEFAULT_FOOD_RESPAWN_TIME,
            menu.food_value == DEFAULT_FOOD_VALUE,
            menu.elite_ratio == DEFAULT_ELITE_RATIO,
            menu.mutation_rate == DEFAULT_MUTATION_RATE,
            menu.crossover_rate == DEFAULT_CROSSOVER_RATE,
            configuration_of(menu).valid(),
    {
        MenuConfig {
            world_size: DEFAULT_WORLD_SIZE,
            simulation_count: DEFAULT_SIMULATION_COUNT,
            particle_count: DEFAULT_PARTICLE_COUNT,
            particle_types: DEFAULT_PARTICLE_TYPES,
            max_force_range: DEFAULT_MAX_FORCE_RANGE,
            food_count: DEFAULT_FOOD_COUNT,
            food_respawn_enabled: true,
            food_respawn_time: DEFAULT_FOOD_RESPAWN_TIME,
            food_value: DEFAULT_FOOD_VALUE,
            elite_ratio: DEFAULT_ELITE_RATIO,
            mutation_rate: DEFAULT_MUTATION_RATE,
            crossover_rate: DEFAULT_CROSSOVER_RATE,
        }
    }
}

} // verus!
