use particle_life::error::ConfigError;
use particle_life::food::FoodItem;
use particle_life::game_state::GameState;
use particle_life::kernel::step;
use particle_life::orchestrator::{first_index_of, setup_simulations, share_of, Orchestrator};
use particle_life::simulation_config::SimulationConfig;
use particle_life::vec3::Vec3;
use particle_life::world::World;

const ONE: i64 = 1_000_000;

fn small(simulations: usize, particles: usize, types: usize, food: usize) -> SimulationConfig {
    let mut config = SimulationConfig::default();
    config.simulation_count = simulations;
    config.particle_count = particles;
    config.particle_types = types;
    config.food_count = food;
    config
}

fn running(config: &SimulationConfig) -> Orchestrator {
    let mut set = setup_simulations(config).unwrap();
    set.finished_loading();
    set
}

fn all_positions(set: &Orchestrator) -> Vec<Vec<Vec3>> {
    set.worlds.iter().map(|world| world.state.positions.clone()).collect()
}

fn all_velocities(set: &Orchestrator) -> Vec<Vec<Vec3>> {
    set.worlds.iter().map(|world| world.state.velocities.clone()).collect()
}

#[test]
fn sixteen_hundred_particles_make_eight_worlds_of_two_hundred() {
    let mut config = SimulationConfig::default();
    config.simulation_count = 8;
    config.particle_count = 1600;
    let set = setup_simulations(&config).unwrap();
    assert_eq!(set.config.particles_per_simulation, 200);
    assert_eq!(set.worlds.len(), 8);
    let mut owner = vec![usize::MAX; 1600];
    for (w, world) in set.worlds.iter().enumerate() {
        assert_eq!(world.types.len(), 200);
        assert_eq!(world.first_index as usize, 200 * w);
        assert_eq!(world.state.positions.len(), 200);
        assert_eq!(world.state.velocities.len(), 200);
        for slot in 0..200 {
            let particle = world.particle(slot);
            assert_eq!(owner[particle.index as usize], usize::MAX);
            owner[particle.index as usize] = w;
        }
    }
    assert!(owner.iter().all(|w| *w != usize::MAX));
}

#[test]
fn the_remainder_goes_to_the_first_worlds() {
    assert_eq!(share_of(10, 3, 0), 4);
    assert_eq!(share_of(10, 3, 1), 3);
    assert_eq!(share_of(10, 3, 2), 3);
    assert_eq!(first_index_of(10, 3, 0), 0);
    assert_eq!(first_index_of(10, 3, 1), 4);
    assert_eq!(first_index_of(10, 3, 2), 7);
    assert_eq!(share_of(11, 3, 1), 4);
    assert_eq!(share_of(11, 3, 2), 3);
    assert_eq!(first_index_of(11, 3, 2), 8);
    assert_eq!(share_of(0, 4, 3), 0);
    assert_eq!(first_index_of(0, 4, 3), 0);
}

#[test]
fn shares_cover_everything_once() {
    for total in 0..60usize {
        for parts in 1..9usize {
            let mut next = 0;
            for w in 0..parts {
                assert_eq!(first_index_of(total, parts, w), next);
                let count = share_of(total, parts, w);
                assert!(count == total / parts || count == total / parts + 1);
                next += count;
            }
            assert_eq!(next, total);
        }
    }
}

#[test]
fn worlds_get_their_share_of_particles_and_food() {
    let set = setup_simulations(&small(3, 10, 4, 7)).unwrap();
    let counts: Vec<usize> = set.worlds.iter().map(|world| world.types.len()).collect();
    assert_eq!(counts, vec![4, 3, 3]);
    let firsts: Vec<u32> = set.worlds.iter().map(|world| world.first_index).collect();
    assert_eq!(firsts, vec![0, 4, 7]);
    let food: Vec<usize> = set.worlds.iter().map(|world| world.food.len()).collect();
    assert_eq!(food, vec![3, 2, 2]);
    assert_eq!(set.config.particles_per_simulation, 3);
}

#[test]
fn types_are_dealt_out_in_turn() {
    let set = setup_simulations(&small(3, 10, 4, 0)).unwrap();
    assert_eq!(set.worlds[0].types, vec![0, 1, 2, 3]);
    assert_eq!(set.worlds[1].types, vec![0, 1, 2]);
    assert_eq!(set.worlds[2].types, vec![3, 0, 1]);
    for world in &set.worlds {
        for slot in 0..world.types.len() {
            let particle = world.particle(slot);
            assert_eq!(particle.particle_type, particle.index % 4);
            assert_eq!(particle.index, world.first_index + slot as u32);
        }
    }
}

#[test]
fn a_new_set_is_loading_and_in_order() {
    let config = SimulationConfig::default();
    let set = setup_simulations(&config).unwrap();
    assert_eq!(set.state, GameState::Loading);
    assert_eq!(set.update_timer, 0);
    for (w, world) in set.worlds.iter().enumerate() {
        assert_eq!(world.simulation.id as usize, w);
        assert_eq!(world.simulation.score, 0);
        assert_eq!(world.food.len(), 25);
        assert_eq!(world.particle_config.num_types, 6);
        assert_eq!(world.particle_config.force_matrix.len(), 36);
        assert_eq!(world.particle_config.num_particles, 200);
        assert_eq!(world.particle_config.world_size, 50 * ONE);
        assert!(world.particle_config.is_wf());
        assert_eq!(world.state.next_positions, world.state.positions);
        for position in &world.state.positions {
            assert!(position.is_within(25 * ONE));
        }
        for velocity in &world.state.velocities {
            assert!(velocity.is_within(ONE));
        }
        for item in &world.food {
            assert!(item.visible);
            assert!(item.position.is_within(25 * ONE));
            assert_eq!(item.food.value, ONE);
            assert_eq!(item.food.simulation_id as usize, w);
            assert_eq!(item.respawn_timer.elapsed, 0);
            assert_eq!(item.respawn_timer.duration, 5 * ONE);
        }
    }
}

#[test]
fn worlds_have_their_own_force_matrices() {
    let set = setup_simulations(&SimulationConfig::default()).unwrap();
    assert_ne!(
        set.worlds[0].particle_config.force_matrix,
        set.worlds[1].particle_config.force_matrix
    );
    for a in 0..6 {
        assert!(set.get_force(0, a, a).unwrap() <= 0);
    }
}

#[test]
fn a_bad_configuration_builds_nothing() {
    let mut config = SimulationConfig::default();
    config.simulation_count = 0;
    assert!(matches!(setup_simulations(&config), Err(ConfigError::NoSimulations)));
    let mut config = SimulationConfig::default();
    config.particle_count = 3;
    assert!(matches!(setup_simulations(&config), Err(ConfigError::TooFewParticles)));
    let mut config = SimulationConfig::default();
    config.particle_types = 0;
    assert!(matches!(setup_simulations(&config), Err(ConfigError::NoParticleTypes)));
    let mut config = SimulationConfig::default();
    config.particle_count = 100_000_000;
    assert!(matches!(setup_simulations(&config), Err(ConfigError::TooManyParticles)));
    let mut config = SimulationConfig::default();
    config.particle_types = 5000;
    assert!(matches!(setup_simulations(&config), Err(ConfigError::TooManyTypes)));
    let mut config = SimulationConfig::default();
    config.food_count = 2_000_000;
    assert!(matches!(setup_simulations(&config), Err(ConfigError::TooMuchFood)));
    let mut config = SimulationConfig::default();
    config.velocity_half_life = 0;
    assert!(matches!(setup_simulations(&config), Err(ConfigError::InvalidTunable)));
}

#[test]
fn no_tick_no_change() {
    let mut set = running(&small(2, 20, 3, 4));
    let positions = all_positions(&set);
    let velocities = all_velocities(&set);
    set.run(0, 16_667);
    assert_eq!(all_positions(&set), positions);
    assert_eq!(all_velocities(&set), velocities);
    assert_eq!(set.score(0), Some(0));
    assert_eq!(set.state, GameState::Running);
}

#[test]
fn a_set_that_is_loading_does_not_tick() {
    let mut set = setup_simulations(&small(2, 20, 3, 4)).unwrap();
    let positions = all_positions(&set);
    set.tick(16_667);
    set.run(3, 16_667);
    assert!(!set.update_particle_simulation(ONE, true));
    assert_eq!(all_positions(&set), positions);
    assert_eq!(set.update_timer, 0);
}

#[test]
fn a_held_run_does_not_tick() {
    let mut set = running(&small(2, 20, 3, 4));
    set.handle_input();
    assert_eq!(set.state, GameState::Paused);
    let positions = all_positions(&set);
    set.tick(16_667);
    assert!(!set.update_particle_simulation(ONE, true));
    assert_eq!(all_positions(&set), positions);
    set.handle_input();
    assert_eq!(set.state, GameState::Running);
    set.tick(16_667);
    assert_ne!(all_positions(&set), positions);
}

#[test]
fn a_tick_is_one_step_of_the_kernel_for_each_world() {
    let mut set = running(&small(3, 30, 3, 0));
    let mut expected_positions = Vec::new();
    let mut expected_velocities = Vec::new();
    for world in &set.worlds {
        let mut next_positions = world.state.positions.clone();
        let mut next_velocities = world.state.velocities.clone();
        let result = step(
            &world.state.positions,
            &world.state.velocities,
            &world.types,
            &world.particle_config,
            &set.config,
            16_667,
            &mut next_positions,
            &mut next_velocities,
        );
        assert_eq!(result, Ok(()));
        expected_positions.push(next_positions);
        expected_velocities.push(next_velocities);
    }
    let before = all_positions(&set);
    set.tick(16_667);
    assert_eq!(all_positions(&set), expected_positions);
    assert_eq!(all_velocities(&set), expected_velocities);
    for (w, world) in set.worlds.iter().enumerate() {
        assert_eq!(world.state.next_positions, before[w]);
    }
}

#[test]
fn ticks_keep_the_worlds_in_order() {
    let mut set = running(&small(2, 40, 6, 10));
    set.run(50, 16_667);
    let limit = set.config.max_velocity as i128;
    for world in &set.worlds {
        assert_eq!(world.state.positions.len(), 20);
        assert_eq!(world.state.velocities.len(), 20);
        assert_eq!(world.food.len(), 5);
        for position in &world.state.positions {
            assert!(position.is_within(25 * ONE));
        }
        for v in &world.state.velocities {
            let (x, y, z) = (v.x as i128, v.y as i128, v.z as i128);
            assert!(x * x + y * y + z * z <= limit * limit);
        }
        assert!(world.simulation.score >= 0);
    }
}

#[test]
fn worlds_do_not_touch_each_other() {
    let config = small(2, 24, 3, 0);
    let mut set = running(&config);
    let mut next_positions = set.worlds[1].state.positions.clone();
    let mut next_velocities = set.worlds[1].state.velocities.clone();
    let result = step(
        &set.worlds[1].state.positions,
        &set.worlds[1].state.velocities,
        &set.worlds[1].types,
        &set.worlds[1].particle_config,
        &set.config,
        16_667,
        &mut next_positions,
        &mut next_velocities,
    );
    assert_eq!(result, Ok(()));
    let matrix = set.worlds[1].particle_config.force_matrix.clone();
    assert_eq!(set.regenerate_forces(0), Ok(()));
    assert_eq!(set.set_predefined_forces(0), Ok(()));
    assert_eq!(set.reset_positions(0), Ok(()));
    assert_eq!(set.worlds[1].particle_config.force_matrix, matrix);
    set.tick(16_667);
    assert_eq!(set.worlds[1].state.positions, next_positions);
    assert_eq!(set.worlds[1].state.velocities, next_velocities);
    assert_eq!(set.worlds[1].simulation.score, 0);
}

#[test]
fn commands_change_one_world_only() {
    let mut set = running(&small(3, 30, 3, 6));
    let before_positions = all_positions(&set);
    let matrix_of_two = set.worlds[2].particle_config.force_matrix.clone();
    assert_eq!(set.set_predefined_forces(1), Ok(()));
    assert_eq!(set.get_force(1, 0, 1), Some(ONE));
    assert_eq!(set.get_force(1, 1, 0), Some(-500_000));
    assert_eq!(set.get_force(1, 2, 2), Some(-300_000));
    assert_eq!(set.worlds[2].particle_config.force_matrix, matrix_of_two);
    assert_eq!(all_positions(&set), before_positions);
    assert_eq!(set.worlds[1].particle_config.force_matrix.len(), 9);
}

#[test]
fn regenerating_keeps_the_size_of_the_matrix() {
    let mut set = running(&small(2, 20, 5, 0));
    let before = set.worlds[0].particle_config.force_matrix.clone();
    assert_eq!(set.regenerate_forces(0), Ok(()));
    let after = &set.worlds[0].particle_config.force_matrix;
    assert_eq!(after.len(), 25);
    assert_ne!(*after, before);
    assert_eq!(set.worlds[0].particle_config.num_types, 5);
}

#[test]
fn reset_puts_particles_at_rest_somewhere_else() {
    let mut set = running(&small(2, 20, 3, 4));
    set.run(5, 16_667);
    let types = set.worlds[1].types.clone();
    let matrix = set.worlds[1].particle_config.force_matrix.clone();
    let positions = set.worlds[1].state.positions.clone();
    let food: Vec<FoodItem> = set.worlds[1].food.clone();
    assert_eq!(set.reset_positions(1), Ok(()));
    let world = &set.worlds[1];
    assert_eq!(world.state.velocities, vec![Vec3::zero(); 10]);
    assert_ne!(world.state.positions, positions);
    assert!(world.state.positions.iter().all(|p| p.is_within(25 * ONE)));
    assert_eq!(world.types, types);
    assert_eq!(world.particle_config.force_matrix, matrix);
    assert_eq!(world.food, food);
    assert_eq!(world.simulation.id, 1);
}

#[test]
fn commands_for_unknown_worlds_are_refused() {
    let mut set = running(&small(2, 20, 3, 4));
    let positions = all_positions(&set);
    assert_eq!(set.regenerate_forces(2), Err(ConfigError::NoSuchSimulation));
    assert_eq!(set.set_predefined_forces(7), Err(ConfigError::NoSuchSimulation));
    assert_eq!(set.reset_positions(usize::MAX), Err(ConfigError::NoSuchSimulation));
    assert_eq!(all_positions(&set), positions);
    assert_eq!(set.score(2), None);
    assert_eq!(set.get_force(2, 0, 0), None);
    assert_eq!(set.get_force(0, 3, 0), None);
    assert_eq!(set.get_force(0, 0, 3), None);
}

#[test]
fn ticks_come_at_the_physics_rate() {
    let mut set = running(&small(1, 5, 2, 0));
    assert!(!set.update_particle_simulation(10_000, true));
    assert_eq!(set.update_timer, 10_000);
    let positions = all_positions(&set);
    assert!(set.update_particle_simulation(10_000, true));
    assert_eq!(set.update_timer, 3_333);
    assert_ne!(all_positions(&set), positions);
    assert!(!set.update_particle_simulation(0, true));
    assert!(set.update_particle_simulation(100_000, true));
    assert_eq!(set.update_timer, (3_333 + 100_000) % 16_667);
    assert!(set.update_particle_simulation(i64::MAX, true));
}

#[test]
fn food_in_reach_raises_the_score_once() {
    let mut config = small(1, 1, 1, 1);
    config.food_value = 3 * ONE;
    let mut set = running(&config);
    set.worlds[0].state.positions[0] = Vec3::new(ONE, ONE, ONE);
    set.worlds[0].state.velocities[0] = Vec3::zero();
    set.worlds[0].food[0].position = Vec3::new(ONE, ONE, 1_500_000);
    set.tick(16_667);
    assert_eq!(set.score(0), Some(3 * ONE));
    assert!(!set.worlds[0].food[0].visible);
    for _ in 0..200 {
        set.tick(16_667);
        assert_eq!(set.score(0), Some(3 * ONE));
        assert!(!set.worlds[0].food[0].visible);
    }
}

#[test]
fn food_out_of_reach_stays() {
    let mut set = running(&small(1, 1, 1, 1));
    set.worlds[0].state.positions[0] = Vec3::new(-10 * ONE, 0, 0);
    set.worlds[0].state.velocities[0] = Vec3::zero();
    set.worlds[0].food[0].position = Vec3::new(10 * ONE, 0, 0);
    set.run(20, 16_667);
    assert_eq!(set.score(0), Some(0));
    assert!(set.worlds[0].food[0].visible);
    assert_eq!(set.worlds[0].food[0].position, Vec3::new(10 * ONE, 0, 0));
}

#[test]
fn consumed_food_comes_back_somewhere_in_the_world() {
    let mut config = small(1, 1, 1, 1);
    config.food_respawn_time = 100_000;
    let mut set = running(&config);
    set.worlds[0].state.positions[0] = Vec3::new(-20 * ONE, 0, 0);
    set.worlds[0].state.velocities[0] = Vec3::zero();
    set.worlds[0].food[0].position = Vec3::new(-20 * ONE, 0, 0);
    set.tick(16_667);
    assert!(!set.worlds[0].food[0].visible);
    for _ in 0..5 {
        set.tick(16_667);
        assert!(!set.worlds[0].food[0].visible);
        assert_eq!(set.worlds[0].food[0].position, Vec3::new(-20 * ONE, 0, 0));
    }
    set.tick(16_667);
    let item = set.worlds[0].food[0];
    assert!(item.visible);
    assert!(item.position.is_within(25 * ONE));
    assert_eq!(item.respawn_timer.elapsed, 0);
}

#[test]
fn food_of_another_world_is_out_of_reach() {
    let mut set = running(&small(2, 2, 1, 2));
    for w in 0..2 {
        set.worlds[w].state.velocities[0] = Vec3::zero();
    }
    set.worlds[0].state.positions[0] = Vec3::new(5 * ONE, 5 * ONE, 5 * ONE);
    set.worlds[1].state.positions[0] = Vec3::new(-5 * ONE, -5 * ONE, -5 * ONE);
    set.worlds[0].food[0].position = Vec3::new(-5 * ONE, -5 * ONE, -5 * ONE);
    set.worlds[1].food[0].position = Vec3::new(-5 * ONE, -5 * ONE, -5 * ONE);
    set.tick(16_667);
    assert_eq!(set.score(0), Some(0));
    assert_eq!(set.score(1), Some(ONE));
    assert!(set.worlds[0].food[0].visible);
    assert!(!set.worlds[1].food[0].visible);
}

#[test]
fn snapshots_show_particles_and_food() {
    let set = setup_simulations(&small(2, 7, 3, 3)).unwrap();
    let world: &World = &set.worlds[1];
    let particles = world.particle_snapshot();
    assert_eq!(particles.len(), 3);
    for (slot, (particle, position)) in particles.iter().enumerate() {
        assert_eq!(particle.index as usize, 4 + slot);
        assert_eq!(particle.particle_type, world.types[slot]);
        assert_eq!(*position, world.state.positions[slot]);
    }
    let food = world.food_snapshot();
    assert_eq!(food.len(), 1);
    assert_eq!(food[0], (world.food[0].position, true));
}

#[test]
fn the_tick_interval_has_limits() {
    let mut set = running(&small(1, 5, 2, 0));
    assert_eq!(set.tick_interval, 16_667);
    set.set_tick_interval(50_000);
    assert_eq!(set.tick_interval, 50_000);
    set.set_tick_interval(0);
    assert_eq!(set.tick_interval, 1_000);
    set.set_tick_interval(-7);
    assert_eq!(set.tick_interval, 1_000);
    set.set_tick_interval(i64::MAX);
    assert_eq!(set.tick_interval, 1_000_000);
}

#[test]
fn speed_goes_up_and_down_in_steps() {
    let mut set = running(&small(1, 5, 2, 0));
    set.speed_up();
    assert_eq!(set.tick_interval, 8_333);
    set.slow_down();
    assert_eq!(set.tick_interval, 16_666);
    for _ in 0..10 {
        set.slow_down();
    }
    assert_eq!(set.tick_interval, 1_000_000);
    for _ in 0..20 {
        set.speed_up();
    }
    assert_eq!(set.tick_interval, 1_000);
}

#[test]
fn speed_changes_how_often_a_tick_is_made_not_how_long_it_is() {
    let config = small(1, 6, 2, 0);
    let mut set = running(&config);
    set.set_tick_interval(100_000);
    assert!(!set.update_particle_simulation(99_999, true));
    let mut next_positions = set.worlds[0].state.positions.clone();
    let mut next_velocities = set.worlds[0].state.velocities.clone();
    let result = step(
        &set.worlds[0].state.positions,
        &set.worlds[0].state.velocities,
        &set.worlds[0].types,
        &set.worlds[0].particle_config,
        &set.config,
        16_667,
        &mut next_positions,
        &mut next_velocities,
    );
    assert_eq!(result, Ok(()));
    assert!(set.update_particle_simulation(1, true));
    assert_eq!(set.update_timer, 0);
    assert_eq!(set.worlds[0].state.positions, next_positions);
    assert_eq!(set.worlds[0].state.velocities, next_velocities);
}

#[test]
fn a_new_set_passes_its_own_check() {
    let set = setup_simulations(&small(3, 10, 4, 7)).unwrap();
    assert!(set.is_wf());
    for world in &set.worlds {
        assert!(world.is_wf(&set.config));
    }
}

#[test]
fn a_set_stays_in_order_through_ticks_and_commands() {
    let mut set = running(&small(3, 30, 3, 9));
    set.run(10, 16_667);
    assert!(set.is_wf());
    assert_eq!(set.regenerate_forces(1), Ok(()));
    assert_eq!(set.set_predefined_forces(2), Ok(()));
    assert_eq!(set.reset_positions(0), Ok(()));
    set.speed_up();
    assert!(set.update_particle_simulation(10_000, true));
    assert!(set.is_wf());
}

#[test]
fn the_check_finds_what_is_out_of_order() {
    let config = small(2, 8, 3, 2);
    let mut set = setup_simulations(&config).unwrap();
    set.worlds[1].state.positions[0] = Vec3::new(26 * ONE, 0, 0);
    assert!(!set.is_wf());
    let mut set = setup_simulations(&config).unwrap();
    set.worlds[0].types[2] = 0;
    assert!(!set.is_wf());
    let mut set = setup_simulations(&config).unwrap();
    set.worlds[0].state.next_velocities.pop();
    assert!(!set.is_wf());
    let mut set = setup_simulations(&config).unwrap();
    set.worlds[0].food[0].food.simulation_id = 1;
    assert!(!set.is_wf());
    let mut set = setup_simulations(&config).unwrap();
    set.worlds[0].food[0].respawn_timer.elapsed = 6 * ONE;
    assert!(!set.is_wf());
    let mut set = setup_simulations(&config).unwrap();
    set.worlds.swap(0, 1);
    assert!(!set.is_wf());
    let mut set = setup_simulations(&config).unwrap();
    set.worlds[1].particle_config.force_matrix.push(0);
    assert!(!set.is_wf());
    let mut set = setup_simulations(&config).unwrap();
    set.config.min_distance = 0;
    assert!(!set.is_wf());
    let mut set = setup_simulations(&config).unwrap();
    set.tick_interval = 0;
    assert!(!set.is_wf());
    let mut set = setup_simulations(&config).unwrap();
    set.update_timer = -1;
    assert!(!set.is_wf());
    let mut set = setup_simulations(&config).unwrap();
    set.worlds.pop();
    assert!(!set.is_wf());
}

#[test]
fn food_is_settled_among_the_particles_of_its_world() {
    let mut set = running(&small(1, 2, 1, 3));
    let config = set.config;
    let world = &mut set.worlds[0];
    world.state.positions[0] = Vec3::new(0, 0, 0);
    world.state.positions[1] = Vec3::new(10 * ONE, 0, 0);
    world.food[0].position = Vec3::new(300_000, 0, 0);
    world.food[1].position = Vec3::new(10 * ONE, 900_000, 0);
    world.food[2].position = Vec3::new(-10 * ONE, 0, 0);
    let mut generator = rand::rng();
    particle_life::world::handle_food_interactions(world, &config, 16_667, &mut generator);
    assert_eq!(world.simulation.score, 2 * ONE);
    assert!(!world.food[0].visible);
    assert!(!world.food[1].visible);
    assert!(world.food[2].visible);
    assert_eq!(world.state.positions[0], Vec3::new(0, 0, 0));
    particle_life::world::handle_food_interactions(world, &config, 16_667, &mut generator);
    assert_eq!(world.simulation.score, 2 * ONE);
    assert_eq!(world.food[0].respawn_timer.elapsed, 16_667);
}

#[test]
fn a_tick_that_cannot_be_computed_is_left_out() {
    let mut set = running(&small(1, 5, 2, 0));
    let positions = all_positions(&set);
    assert!(!set.update_particle_simulation(20_000, false));
    assert_eq!(set.update_timer, 3_333);
    assert_eq!(all_positions(&set), positions);
    assert!(!set.update_particle_simulation(10_000, true));
    assert_eq!(all_positions(&set), positions);
    assert!(set.update_particle_simulation(10_000, true));
    assert_ne!(all_positions(&set), positions);
}

#[test]
fn food_without_respawn_time_comes_back_at_once() {
    let mut config = small(1, 1, 1, 1);
    config.food_respawn_time = 0;
    let mut set = running(&config);
    set.worlds[0].state.positions[0] = Vec3::new(-20 * ONE, 0, 0);
    set.worlds[0].state.velocities[0] = Vec3::zero();
    set.worlds[0].food[0].position = Vec3::new(-20 * ONE, 0, 0);
    set.tick(16_667);
    assert!(!set.worlds[0].food[0].visible);
    assert_eq!(set.score(0), Some(ONE));
    set.tick(16_667);
    let item = set.worlds[0].food[0];
    assert!(item.visible);
    assert!(item.position.is_within(25 * ONE));
    assert_eq!((item.position.x + 25 * ONE) % 50, 0);
    assert!(set.is_wf());
}

#[test]
fn the_pause_key_does_nothing_while_loading() {
    let mut set = setup_simulations(&small(1, 5, 2, 0)).unwrap();
    set.handle_input();
    assert_eq!(set.state, GameState::Loading);
    set.finished_loading();
    assert_eq!(set.state, GameState::Running);
}

#[test]
fn reset_and_respawn_give_points_of_draws() {
    let mut set = running(&small(1, 20, 3, 0));
    set.run(5, 16_667);
    assert_eq!(set.reset_positions(0), Ok(()));
    for p in &set.worlds[0].state.positions {
        for c in [p.x, p.y, p.z] {
            assert!(-25 * ONE <= c && c < 25 * ONE);
            assert_eq!((c + 25 * ONE) % 50, 0);
        }
    }
}

#[test]
fn new_worlds_hold_what_draws_give() {
    let set = setup_simulations(&small(2, 40, 4, 6)).unwrap();
    for world in &set.worlds {
        for p in world.state.positions.iter().chain(world.food.iter().map(|item| &item.position)) {
            for c in [p.x, p.y, p.z] {
                assert_eq!((c + 25 * ONE) % 50, 0);
            }
        }
        for v in &world.state.velocities {
            for c in [v.x, v.y, v.z] {
                assert!(-ONE <= c && c < ONE);
                assert_eq!((c + ONE) % 2, 0);
            }
        }
        for a in 0..4u32 {
            for b in 0..4u32 {
                let force = world.particle_config.get_force(a, b);
                if a == b {
                    assert!(-1_500_000 < force && force <= -500_000);
                } else {
                    assert!(-2_000_000 <= force && force < 2_000_000);
                    assert_eq!((force + 2_000_000) % 4, 0);
                }
            }
        }
    }
}
