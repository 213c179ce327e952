//! The random source: the thread-local generator of the `rand` crate.

use rand::Rng;
use vstd::prelude::*;

use crate::fixed::{fixed_mul, lemma_div_toward_zero, lemma_mul_bound, mul_div, UNIT};
use crate::globals::MAX_EXTENT;
use crate::vec3::Vec3;

verus! {

/// The handle to `rand`'s thread-local generator. Nothing is known of its state.
#[verifier::external_type_specification]
#[verifier::external_body]
pub struct ExThreadRng(rand::rngs::ThreadRng);

/// `rand::rng` hands out the calling thread's generator. Nothing is claimed
/// of it. (It panics if the operating system cannot seed the generator, which
/// no argument can prevent.)
pub assume_specification[ rand::rng ]() -> (generator: rand::rngs::ThreadRng);

/// `Rng::random_range` on a half-open range of `i64`: it panics on an empty
/// range and otherwise returns a member of the range. Which member is left
/// open. (It also panics if the operating system cannot reseed the
/// generator, which no argument can prevent.)
#[verifier::external_body]
pub(crate) fn random_range(generator: &mut rand::rngs::ThreadRng, low: i64, high: i64) -> (drawn: i64)
    requires
        low < high,
    ensures
        low <= drawn < high,
{
    generator.random_range(low..high)
}

/// A random fixed-point number of `[0, 1)`.
pub fn random_unit(generator: &mut rand::rngs::ThreadRng) -> (drawn: i64)
    ensures
        0 <= drawn < UNIT,
{
    random_range(generator, 0, UNIT)
}

/// The coordinate that a random draw of `[0, 1)` gives in a world of side
/// `world_size`, which reaches from minus half its side to half its side.
pub open spec fn coordinate_of(draw: int, world_size: int) -> int {
    fixed_mul(draw, world_size) - world_size / 2
}

/// The component of an initial velocity that a random draw of `[0, 1)`
/// gives: a value of `[-1, 1)`.
pub open spec fn initial_speed_of(draw: int) -> int {
    2 * draw - UNIT
}

/// The coordinate for a random draw of `[0, 1)`.
pub fn coordinate(draw: i64, world_size: i64) -> (c: i64)
    requires
        0 <= draw < UNIT,
        0 < world_size <= 2 * MAX_EXTENT,
    ensures
        c == coordinate_of(draw as int, world_size as int),
        -(world_size / 2) <= c <= world_size / 2,
{
    proof {
        lemma_mul_bound(draw as int, world_size as int, UNIT as int, 2 * MAX_EXTENT);
        lemma_div_toward_zero(draw * world_size, UNIT as int);
        assert(0 <= draw * world_size <= (UNIT - 1) * world_size) by (nonlinear_arith)
            requires
                0 <= draw <= UNIT - 1,
                0 < world_size,
        ;
        assert((draw * world_size) / (UNIT as int) < world_size) by (nonlinear_arith)
            requires
                0 <= draw * world_size <= (UNIT - 1) * world_size,
                0 < world_size,
                ((draw * world_size) / (UNIT as int)) * UNIT <= draw * world_size,
        ;
    }
    let along: i128 = mul_div(draw as i128, world_size as i128, UNIT as i128);
    (along - (world_size / 2) as i128) as i64
}

/// The component of an initial velocity for a random draw of `[0, 1)`.
pub fn initial_speed(draw: i64) -> (speed: i64)
    requires
        0 <= draw < UNIT,
    ensures
        speed == initial_speed_of(draw as int),
        -UNIT <= speed < UNIT,
{
    2 * draw - UNIT
}

/// A random point of a world of side `world_size`: three draws of `[0, 1)`
/// are made, and each coordinate is the coordinate that one of them gives.
pub fn random_position(generator: &mut rand::rngs::ThreadRng, world_size: i64) -> (point: Vec3)
    requires
        0 < world_size <= 2 * MAX_EXTENT,
    ensures
        is_random_point(point, world_size as int),
        point.within(world_size / 2),
{
    let draw_x: i64 = random_unit(generator);
    let draw_y: i64 = random_unit(generator);
    let draw_z: i64 = random_unit(generator);
    let x: i64 = coordinate(draw_x, world_size);
    let y: i64 = coordinate(draw_y, world_size);
    let z: i64 = coordinate(draw_z, world_size);
    proof {
        assert(x == coordinate_of(draw_x as int, world_size as int));
        assert(y == coordinate_of(draw_y as int, world_size as int));
        assert(z == coordinate_of(draw_z as int, world_size as int));
    }
    Vec3 { x, y, z }
}

/// A random initial velocity: three draws of `[0, 1)` are made, and each
/// component is the speed that one of them gives, a value of `[-1, 1)`.
pub fn random_velocity(generator: &mut rand::rngs::ThreadRng) -> (velocity: Vec3)
    ensures
        is_initial_velocity(velocity),
        velocity.within(UNIT as int),
        velocity.x < UNIT && velocity.y < UNIT && velocity.z < UNIT,
{
    let draw_x: i64 = random_unit(generator);
    let draw_y: i64 = random_unit(generator);
    let draw_z: i64 = random_unit(generator);
    let x: i64 = initial_speed(draw_x);
    let y: i64 = initial_speed(draw_y);
    let z: i64 = initial_speed(draw_z);
    proof {
        assert(x == initial_speed_of(draw_x as int));
        assert(y == initial_speed_of(draw_y as int));
        assert(z == initial_speed_of(draw_z as int));
    }
    Vec3 { x, y, z }
}

/// `c` is a coordinate that some draw of `[0, 1)` gives in a world of side
/// `world_size`.
pub open spec fn is_coordinate(c: int, world_size: int) -> bool {
    exists|draw: int| 0 <= draw < UNIT && c == #[trigger] coordinate_of(draw, world_size)
}

/// `speed` is a component of an initial velocity that some draw of `[0, 1)`
/// gives.
pub open spec fn is_initial_speed(speed: int) -> bool {
    exists|draw: int| 0 <= draw < UNIT && speed == #[trigger] initial_speed_of(draw)
}

/// `point` is a point that three draws of `[0, 1)`, one for each coordinate,
/// give in a world of side `world_size`.
pub open spec fn is_random_point(point: Vec3, world_size: int) -> bool {
    &&& is_coordinate(point.x as int, world_size)
    &&& is_coordinate(point.y as int, world_size)
    &&& is_coordinate(point.z as int, world_size)
}

/// `velocity` is an initial velocity that three draws of `[0, 1)`, one for
/// each component, give.
pub open spec fn is_initial_velocity(velocity: Vec3) -> bool {
    &&& is_initial_speed(velocity.x as int)
    &&& is_initial_speed(velocity.y as int)
    &&& is_initial_speed(velocity.z as int)
}

} // verus!
