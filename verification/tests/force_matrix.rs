use particle_life::fixed::UNIT;
use particle_life::particle_config::{
    cross_coefficient, jitter_coefficient, self_coefficient, ParticleConfig,
};

fn config_of(num_types: u32) -> ParticleConfig {
    ParticleConfig::new(100, 50 * UNIT, num_types, 300_000)
}

#[test]
fn new_matrix_has_one_entry_per_pair() {
    for n in 1..=12u32 {
        let config = config_of(n);
        assert_eq!(config.force_matrix.len(), (n * n) as usize);
        assert!(config.force_matrix.iter().all(|c| *c == 0));
    }
}

#[test]
fn random_matrix_keeps_its_size() {
    for n in 1..=12u32 {
        let mut config = config_of(n);
        config.generate_random_forces();
        assert_eq!(config.force_matrix.len(), (n * n) as usize);
        assert_eq!(config.num_types, n);
    }
}

#[test]
fn predefined_matrix_keeps_its_size() {
    for n in 1..=12u32 {
        let mut config = config_of(n);
        config.set_interesting_forces();
        assert_eq!(config.force_matrix.len(), (n * n) as usize);
        assert_eq!(config.num_types, n);
    }
}

#[test]
fn random_self_coefficients_repel() {
    for _ in 0..50 {
        let mut config = config_of(6);
        config.generate_random_forces();
        for a in 0..6 {
            let c = config.get_force(a, a);
            assert!(c <= 0);
            assert!(-1_500_000 <= c && c <= -500_000);
        }
    }
}

#[test]
fn random_cross_coefficients_are_in_range() {
    for _ in 0..50 {
        let mut config = config_of(5);
        config.generate_random_forces();
        for a in 0..5 {
            for b in 0..5 {
                if a != b {
                    let c = config.get_force(a, b);
                    assert!(-2_000_000 <= c && c < 2_000_000);
                }
            }
        }
    }
}

#[test]
fn random_matrices_differ() {
    let mut first = config_of(6);
    first.generate_random_forces();
    let mut other = config_of(6);
    other.generate_random_forces();
    assert_ne!(first.force_matrix, other.force_matrix);
}

#[test]
fn three_types_get_rock_paper_scissors() {
    let mut config = config_of(3);
    config.set_interesting_forces();
    assert_eq!(config.get_force(0, 1), 1_000_000);
    assert_eq!(config.get_force(1, 2), 1_000_000);
    assert_eq!(config.get_force(2, 0), 1_000_000);
    assert_eq!(config.get_force(1, 0), -500_000);
    assert_eq!(config.get_force(2, 1), -500_000);
    assert_eq!(config.get_force(0, 2), -500_000);
    for i in 0..3 {
        assert_eq!(config.get_force(i, i), -300_000);
    }
}

#[test]
fn six_types_get_the_cycle() {
    let mut config = config_of(6);
    config.set_interesting_forces();
    for i in 0..6u32 {
        let next = (i + 1) % 6;
        let previous = (i + 5) % 6;
        assert_eq!(config.get_force(i, next), 1_200_000);
        assert_eq!(config.get_force(i, previous), -800_000);
        assert_eq!(config.get_force(i, i), -400_000);
        for j in 0..6u32 {
            if j != i && j != next && j != previous {
                let c = config.get_force(i, j);
                assert!(-300_000 <= c && c <= 300_000);
            }
        }
    }
}

#[test]
fn other_counts_fall_back_to_random() {
    let mut config = config_of(4);
    config.set_interesting_forces();
    for a in 0..4 {
        for b in 0..4 {
            let c = config.get_force(a, b);
            if a == b {
                assert!(-1_500_000 <= c && c <= -500_000);
            } else {
                assert!(-2_000_000 <= c && c < 2_000_000);
            }
        }
    }
}

#[test]
fn set_force_changes_one_entry() {
    let mut config = config_of(4);
    config.set_force(2, 3, 750_000);
    assert_eq!(config.get_force(2, 3), 750_000);
    assert_eq!(config.force_matrix[2 * 4 + 3], 750_000);
    let others = config.force_matrix.iter().filter(|c| **c != 0).count();
    assert_eq!(others, 1);
    assert_eq!(config.get_force(3, 2), 0);
}

#[test]
fn clear_forces_zeroes_the_matrix() {
    let mut config = config_of(4);
    config.generate_random_forces();
    config.clear_forces();
    assert_eq!(config.force_matrix, vec![0i64; 16]);
}

#[test]
fn coefficients_follow_their_formulas() {
    assert_eq!(self_coefficient(0), -500_000);
    assert_eq!(self_coefficient(999_999), -1_499_999);
    assert_eq!(self_coefficient(250_000), -750_000);
    assert_eq!(cross_coefficient(0), -2_000_000);
    assert_eq!(cross_coefficient(500_000), 0);
    assert_eq!(cross_coefficient(999_999), 1_999_996);
    assert_eq!(jitter_coefficient(0), -300_000);
    assert_eq!(jitter_coefficient(500_000), 0);
    assert_eq!(jitter_coefficient(999_999), 299_999);
    assert_eq!(jitter_coefficient(750_000), 150_000);
}

#[test]
fn default_configuration_has_six_types() {
    let config = ParticleConfig::default();
    assert_eq!(config.num_types, 6);
    assert_eq!(config.num_particles, 1600);
    assert_eq!(config.world_size, 50_000_000);
    assert_eq!(config.particle_size, 300_000);
    assert_eq!(config.force_matrix.len(), 36);
    assert!(config.is_wf());
}

#[test]
fn a_ragged_matrix_is_not_well_formed() {
    let mut config = config_of(3);
    assert!(config.is_wf());
    config.force_matrix.pop();
    assert!(!config.is_wf());
    let mut config = config_of(3);
    config.force_matrix[4] = 2_000_000_000;
    assert!(!config.is_wf());
}
