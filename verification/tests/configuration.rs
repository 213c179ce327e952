use particle_life::error::ConfigError;
use particle_life::game_state::GameState;
use particle_life::menu_config::{apply_configuration, MenuConfig};
use particle_life::particle::LifeParticle;
use particle_life::random::{coordinate, initial_speed, random_position, random_unit, random_velocity};
use particle_life::simulation::Simulation;
use particle_life::simulation_config::SimulationConfig;
use particle_life::vec3::Vec3;

const ONE: i64 = 1_000_000;

#[test]
fn default_configuration_has_the_default_values() {
    let config = SimulationConfig::default();
    assert_eq!(config.world_size, 50 * ONE);
    assert_eq!(config.simulation_count, 8);
    assert_eq!(config.particle_count, 1600);
    assert_eq!(config.particle_types, 6);
    assert_eq!(config.particles_per_simulation, 200);
    assert_eq!(config.max_force_range, 100 * ONE);
    assert_eq!(config.force_scale, 80 * ONE);
    assert_eq!(config.min_distance, 1_000);
    assert_eq!(config.velocity_half_life, 43_000);
    assert_eq!(config.max_velocity, 200 * ONE);
    assert_eq!(config.collision_damping, 500_000);
    assert_eq!(config.food_count, 200);
    assert!(config.food_respawn_enabled);
    assert_eq!(config.food_respawn_time, 5 * ONE);
    assert_eq!(config.food_value, ONE);
    assert_eq!(config.elite_ratio, 100_000);
    assert_eq!(config.mutation_rate, 100_000);
    assert_eq!(config.crossover_rate, 700_000);
    assert_eq!(config.viewport_rows, 2);
    assert_eq!(config.viewport_cols, 4);
    assert_eq!(config.validate(), Ok(()));
    assert_eq!(config.half_world(), 25 * ONE);
}

#[test]
fn a_configuration_needs_a_simulation() {
    let mut config = SimulationConfig::default();
    config.simulation_count = 0;
    assert_eq!(config.validate(), Err(ConfigError::NoSimulations));
}

#[test]
fn a_configuration_needs_a_particle_for_each_simulation() {
    let mut config = SimulationConfig::default();
    config.particle_count = 7;
    assert_eq!(config.validate(), Err(ConfigError::TooFewParticles));
    config.particle_count = 8;
    assert_eq!(config.validate(), Ok(()));
}

#[test]
fn a_configuration_needs_a_particle_type() {
    let mut config = SimulationConfig::default();
    config.particle_types = 0;
    assert_eq!(config.validate(), Err(ConfigError::NoParticleTypes));
}

#[test]
fn a_configuration_has_limits() {
    let mut config = SimulationConfig::default();
    config.particle_count = 8_000_000;
    assert_eq!(config.validate(), Err(ConfigError::TooManyParticles));
    config.particle_count = 7_999_999;
    assert_eq!(config.validate(), Ok(()));
    let mut config = SimulationConfig::default();
    config.simulation_count = 1025;
    config.particle_count = 2000;
    assert_eq!(config.validate(), Err(ConfigError::TooManyParticles));
    let mut config = SimulationConfig::default();
    config.particle_types = 1025;
    assert_eq!(config.validate(), Err(ConfigError::TooManyTypes));
    let mut config = SimulationConfig::default();
    config.food_count = 1_000_001;
    assert_eq!(config.validate(), Err(ConfigError::TooMuchFood));
}

#[test]
fn tunables_have_ranges() {
    let mut config = SimulationConfig::default();
    config.world_size = 0;
    assert_eq!(config.validate(), Err(ConfigError::InvalidTunable));
    assert!(!config.check_physics());
    let mut config = SimulationConfig::default();
    config.max_force_range = -1;
    assert_eq!(config.validate(), Err(ConfigError::InvalidTunable));
    let mut config = SimulationConfig::default();
    config.force_scale = 1_000_000_001;
    assert_eq!(config.validate(), Err(ConfigError::InvalidTunable));
    let mut config = SimulationConfig::default();
    config.max_velocity = -1;
    assert_eq!(config.validate(), Err(ConfigError::InvalidTunable));
    let mut config = SimulationConfig::default();
    config.food_value = -1;
    assert_eq!(config.validate(), Err(ConfigError::InvalidTunable));
    assert!(config.check_physics());
    let mut config = SimulationConfig::default();
    config.food_respawn_time = -1;
    assert_eq!(config.validate(), Err(ConfigError::InvalidTunable));
}

#[test]
fn the_first_fault_is_reported() {
    let mut config = SimulationConfig::default();
    config.simulation_count = 0;
    config.particle_types = 0;
    config.world_size = 0;
    assert_eq!(config.validate(), Err(ConfigError::NoSimulations));
    config.simulation_count = 2;
    assert_eq!(config.validate(), Err(ConfigError::NoParticleTypes));
}

#[test]
fn the_menu_starts_with_the_defaults() {
    let menu = MenuConfig::default();
    assert_eq!(menu.world_size, 50 * ONE);
    assert_eq!(menu.simulation_count, 8);
    assert_eq!(menu.particle_count, 1600);
    assert_eq!(menu.particle_types, 6);
    assert_eq!(menu.max_force_range, 100 * ONE);
    assert_eq!(menu.food_count, 200);
    assert!(menu.food_respawn_enabled);
    assert_eq!(menu.food_respawn_time, 5 * ONE);
    assert_eq!(menu.food_value, ONE);
}

#[test]
fn the_menu_gives_a_configuration() {
    let mut menu = MenuConfig::default();
    menu.world_size = 80 * ONE;
    menu.simulation_count = 6;
    menu.particle_count = 1000;
    menu.particle_types = 3;
    menu.max_force_range = 20 * ONE;
    menu.food_count = 60;
    menu.food_respawn_enabled = false;
    menu.food_respawn_time = 9 * ONE;
    menu.food_value = 2 * ONE;
    let config = apply_configuration(&menu);
    assert_eq!(config.world_size, 80 * ONE);
    assert_eq!(config.simulation_count, 6);
    assert_eq!(config.particle_count, 1000);
    assert_eq!(config.particle_types, 3);
    assert_eq!(config.particles_per_simulation, 166);
    assert_eq!(config.max_force_range, 20 * ONE);
    assert_eq!(config.velocity_half_life, 43_000);
    assert_eq!(config.force_scale, 80 * ONE);
    assert_eq!(config.food_count, 60);
    assert!(!config.food_respawn_enabled);
    assert_eq!(config.food_respawn_time, 9 * ONE);
    assert_eq!(config.food_value, 2 * ONE);
    assert_eq!(config.viewport_cols, 4);
    assert_eq!(config.viewport_rows, 2);
    assert_eq!(config.validate(), Ok(()));
}

#[test]
fn the_views_are_laid_out_in_four_columns() {
    let expected: [(usize, u32, u32); 10] = [
        (1, 1, 1),
        (2, 2, 1),
        (3, 3, 1),
        (4, 4, 1),
        (5, 4, 2),
        (8, 4, 2),
        (9, 4, 3),
        (12, 4, 3),
        (13, 4, 4),
        (16, 4, 4),
    ];
    for (count, cols, rows) in expected {
        let mut menu = MenuConfig::default();
        menu.simulation_count = count;
        let config = apply_configuration(&menu);
        assert_eq!((config.viewport_cols, config.viewport_rows), (cols, rows));
    }
}

#[test]
fn a_menu_without_simulations_gives_a_configuration_that_is_refused() {
    let mut menu = MenuConfig::default();
    menu.simulation_count = 0;
    let config = apply_configuration(&menu);
    assert_eq!(config.particles_per_simulation, 0);
    assert_eq!(config.validate(), Err(ConfigError::NoSimulations));
}

#[test]
fn a_simulation_starts_without_score() {
    let simulation = Simulation::new(4);
    assert_eq!(simulation, Simulation { id: 4, score: 0 });
}

#[test]
fn points_add_up() {
    let mut simulation = Simulation::new(1);
    simulation.add_score(ONE);
    simulation.add_score(2_500_000);
    assert_eq!(simulation.score, 3_500_000);
    simulation.add_score(-500_000);
    assert_eq!(simulation.score, 3 * ONE);
    assert_eq!(simulation.id, 1);
}

#[test]
fn a_score_stops_at_what_it_can_hold() {
    let mut simulation = Simulation { id: 0, score: i64::MAX - 5 };
    simulation.add_score(10);
    assert_eq!(simulation.score, i64::MAX);
    let mut simulation = Simulation { id: 0, score: i64::MIN + 5 };
    simulation.add_score(-10);
    assert_eq!(simulation.score, i64::MIN);
}

#[test]
fn a_particle_has_a_type_and_an_index() {
    let particle = LifeParticle::new(3, 17);
    assert_eq!(particle, LifeParticle { particle_type: 3, index: 17 });
}

#[test]
fn loading_ends_in_a_run() {
    assert_eq!(GameState::Loading.finish_loading(), GameState::Running);
    assert_eq!(GameState::Running.finish_loading(), GameState::Running);
    assert_eq!(GameState::Paused.finish_loading(), GameState::Paused);
}

#[test]
fn the_pause_key_holds_and_resumes() {
    assert_eq!(GameState::Running.toggle_pause(), GameState::Paused);
    assert_eq!(GameState::Paused.toggle_pause(), GameState::Running);
    assert_eq!(GameState::Loading.toggle_pause(), GameState::Loading);
}

#[test]
fn time_passes_in_a_run_only() {
    assert!(GameState::Running.is_running());
    assert!(!GameState::Paused.is_running());
    assert!(!GameState::Loading.is_running());
}

#[test]
fn coordinates_span_the_world() {
    assert_eq!(coordinate(0, 50 * ONE), -25 * ONE);
    assert_eq!(coordinate(500_000, 50 * ONE), 0);
    assert_eq!(coordinate(999_999, 50 * ONE), 24_999_950);
    assert_eq!(coordinate(250_000, 50 * ONE), -12_500_000);
    assert_eq!(coordinate(999_999, 3), -1 + 2);
    assert_eq!(coordinate(0, 3), -1);
}

#[test]
fn initial_speeds_are_small() {
    assert_eq!(initial_speed(0), -ONE);
    assert_eq!(initial_speed(500_000), 0);
    assert_eq!(initial_speed(999_999), 999_998);
}

#[test]
fn random_draws_are_fractions() {
    let mut generator = rand::rng();
    let mut seen_low = false;
    let mut seen_high = false;
    for _ in 0..2000 {
        let draw = random_unit(&mut generator);
        assert!(0 <= draw && draw < ONE);
        seen_low |= draw < 500_000;
        seen_high |= draw >= 500_000;
    }
    assert!(seen_low && seen_high);
}

#[test]
fn random_positions_lie_in_the_world() {
    let mut generator = rand::rng();
    let mut last = Vec3::zero();
    let mut changes = 0;
    for _ in 0..500 {
        let position = random_position(&mut generator, 50 * ONE);
        assert!(position.is_within(25 * ONE));
        if position != last {
            changes += 1;
        }
        last = position;
    }
    assert!(changes > 400);
}

#[test]
fn random_velocities_are_small() {
    let mut generator = rand::rng();
    for _ in 0..500 {
        let velocity = random_velocity(&mut generator);
        assert!(velocity.is_within(ONE));
    }
}

#[test]
fn vectors_know_their_bounds() {
    assert!(Vec3::new(5, -5, 0).is_within(5));
    assert!(!Vec3::new(6, 0, 0).is_within(5));
    assert!(!Vec3::new(0, -6, 0).is_within(5));
    assert!(!Vec3::new(0, 0, 6).is_within(5));
    assert!(Vec3::zero().is_within(0));
    assert_eq!(Vec3::zero(), Vec3::new(0, 0, 0));
}

#[test]
fn random_positions_are_coordinates_of_draws() {
    let mut generator = rand::rng();
    for _ in 0..500 {
        let position = random_position(&mut generator, 50 * ONE);
        for c in [position.x, position.y, position.z] {
            // A draw d of [0, 1) gives 50 d - 25, rounded down to a millionth.
            assert!(-25 * ONE <= c && c < 25 * ONE);
            assert_eq!((c + 25 * ONE) % 50, 0);
            let draw = (c + 25 * ONE) / 50;
            assert_eq!(coordinate(draw, 50 * ONE), c);
        }
    }
}

#[test]
fn random_velocities_are_speeds_of_draws() {
    let mut generator = rand::rng();
    let mut last = Vec3::zero();
    let mut changes = 0;
    for _ in 0..500 {
        let velocity = random_velocity(&mut generator);
        for v in [velocity.x, velocity.y, velocity.z] {
            assert!(-ONE <= v && v < ONE);
            assert_eq!((v + ONE) % 2, 0);
            assert_eq!(initial_speed((v + ONE) / 2), v);
        }
        if velocity != last {
            changes += 1;
        }
        last = velocity;
    }
    assert!(changes > 400);
}
