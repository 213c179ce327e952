use particle_life::double_buffer::{copy_of, DoubleBuffer};
use particle_life::error::KernelError;
use particle_life::vec3::Vec3;

fn sample() -> DoubleBuffer {
    let positions = vec![Vec3::new(1, 2, 3), Vec3::new(4, 5, 6)];
    let velocities = vec![Vec3::new(7, 8, 9), Vec3::new(10, 11, 12)];
    DoubleBuffer::new(positions, velocities).unwrap()
}

#[test]
fn new_buffers_hold_the_state_twice() {
    let state = sample();
    assert_eq!(state.len(), 2);
    assert_eq!(state.positions, vec![Vec3::new(1, 2, 3), Vec3::new(4, 5, 6)]);
    assert_eq!(state.velocities, vec![Vec3::new(7, 8, 9), Vec3::new(10, 11, 12)]);
    assert_eq!(state.next_positions, state.positions);
    assert_eq!(state.next_velocities, state.velocities);
}

#[test]
fn new_buffers_need_equal_lengths() {
    let result = DoubleBuffer::new(vec![Vec3::zero(); 2], vec![Vec3::zero(); 3]);
    assert!(matches!(result, Err(KernelError::LengthMismatch)));
}

#[test]
fn empty_buffers_are_fine() {
    let state = DoubleBuffer::new(Vec::new(), Vec::new()).unwrap();
    assert_eq!(state.len(), 0);
}

#[test]
fn copy_is_equal_to_its_source() {
    let source = vec![Vec3::new(1, 2, 3), Vec3::new(-4, -5, -6), Vec3::zero()];
    assert_eq!(copy_of(&source), source);
    assert_eq!(copy_of(&Vec::new()), Vec::<Vec3>::new());
}

#[test]
fn writing_the_next_pair_leaves_the_current_pair() {
    let mut state = sample();
    {
        let views = state.begin_tick();
        assert_eq!(views.positions[1], Vec3::new(4, 5, 6));
        assert_eq!(views.velocities[0], Vec3::new(7, 8, 9));
        views.next_positions[0] = Vec3::new(100, 100, 100);
        views.next_velocities[1] = Vec3::new(-1, -1, -1);
    }
    assert_eq!(state.positions, vec![Vec3::new(1, 2, 3), Vec3::new(4, 5, 6)]);
    assert_eq!(state.velocities, vec![Vec3::new(7, 8, 9), Vec3::new(10, 11, 12)]);
    assert_eq!(state.next_positions[0], Vec3::new(100, 100, 100));
    assert_eq!(state.next_velocities[1], Vec3::new(-1, -1, -1));
}

#[test]
fn end_of_tick_swaps_the_pairs() {
    let mut state = sample();
    {
        let views = state.begin_tick();
        views.next_positions[0] = Vec3::new(100, 100, 100);
        views.next_velocities[0] = Vec3::new(50, 50, 50);
    }
    state.end_tick();
    assert_eq!(state.positions, vec![Vec3::new(100, 100, 100), Vec3::new(4, 5, 6)]);
    assert_eq!(state.velocities, vec![Vec3::new(50, 50, 50), Vec3::new(10, 11, 12)]);
    assert_eq!(state.next_positions, vec![Vec3::new(1, 2, 3), Vec3::new(4, 5, 6)]);
    assert_eq!(state.next_velocities, vec![Vec3::new(7, 8, 9), Vec3::new(10, 11, 12)]);
}

#[test]
fn two_swaps_bring_the_first_pair_back() {
    let mut state = sample();
    {
        let views = state.begin_tick();
        views.next_positions[1] = Vec3::new(9, 9, 9);
    }
    state.end_tick();
    state.end_tick();
    assert_eq!(state.positions, vec![Vec3::new(1, 2, 3), Vec3::new(4, 5, 6)]);
    assert_eq!(state.next_positions, vec![Vec3::new(1, 2, 3), Vec3::new(9, 9, 9)]);
}

#[test]
fn swapping_copies_nothing() {
    let mut state = sample();
    let current = state.positions.as_ptr();
    let next = state.next_positions.as_ptr();
    state.end_tick();
    assert_eq!(state.positions.as_ptr(), next);
    assert_eq!(state.next_positions.as_ptr(), current);
}
