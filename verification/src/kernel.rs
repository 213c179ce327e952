//! The physics of one simulation: one fixed time step for all its particles.
//!
//! Every particle feels a force from every other particle of its simulation
//! that is within the force range. The force between two particles acts along
//! the line between them. Its strength is the coefficient that the force
//! matrix holds for their types, times the force scale, times a falloff that
//! is one at distance zero and sinks in a straight line to zero at the force
//! range. Distances under the minimal distance count as the minimal distance.
//!
//! Friction multiplies the old velocity by the decay factor of the time step;
//! the force, times the time step, is added; a speed over the limit is scaled
//! down to the limit; the position moves by the velocity times the time step.
//! A particle that would leave the world through a wall is put on that wall,
//! and its velocity along that axis is reversed and damped.
//!
//! A step reads the current positions and velocities only, and writes the
//! next ones only, so that the order in which particles are handled does not
//! matter.

use vstd::prelude::*;

use crate::decay::{decay_factor, decay_of};
use crate::error::KernelError;
use crate::fixed::{
    ceil_sqrt, div_toward_zero, fixed_mul, floor_sqrt, isqrt, isqrt_up, lemma_div_toward_zero,
    lemma_div_toward_zero_bound, lemma_floor_sqrt_monotonic, lemma_mul_bound, lemma_root_dominates,
    lemma_sqrt_bounds, lemma_square_ordered, magnitude, mul_div, UNIT,
};
use crate::globals::{MAX_COEFFICIENT, MAX_EXTENT, MAX_PARTICLES_PER_SIMULATION, MAX_TIMESTEP};
use crate::particle_config::ParticleConfig;
use crate::simulation_config::SimulationConfig;
use crate::vec3::{
    axis, lemma_squared_distance_symmetric, squared_distance, squared_length, Vec3,
};

verus! {

/// Largest magnitude of a component of the force between two particles: the
/// largest coefficient times the largest force scale.
pub const MAX_PAIR_FORCE: i64 = 1_000_000_000_000;

/// How far inside the force range a distance is: the range less the
/// distance, and zero from the range on.
pub open spec fn reach(distance: int, range: int) -> int {
    if distance >= range {
        0
    } else {
        range - distance
    }
}

/// The distance between two points, rounded down, or the minimal distance if
/// that is more.
pub open spec fn effective_distance(a: Vec3, b: Vec3, config: SimulationConfig) -> int {
    let distance = floor_sqrt(squared_distance(a, b));
    if distance < config.min_distance {
        config.min_distance as int
    } else {
        distance
    }
}

/// Whether a particle at `b` acts on a particle at `a`: whether they are no
/// further apart than the force range.
pub open spec fn interacts(a: Vec3, b: Vec3, config: SimulationConfig) -> bool {
    squared_distance(a, b) <= config.max_force_range * config.max_force_range
}

/// The signed strength of the force that a particle at `a` feels from one at
/// `b`: positive toward `b`.
pub open spec fn pair_magnitude(a: Vec3, b: Vec3, coefficient: int, config: SimulationConfig) -> int {
    if interacts(a, b, config) {
        div_toward_zero(
            fixed_mul(coefficient, config.force_scale as int) * reach(
                effective_distance(a, b, config),
                config.max_force_range as int,
            ),
            config.max_force_range as int,
        )
    } else {
        0
    }
}

/// The component along axis `k` of the force that a particle at `a` feels
/// from one at `b`.
pub open spec fn pair_force(k: int, a: Vec3, b: Vec3, coefficient: int, config: SimulationConfig) -> int {
    div_toward_zero(
        pair_magnitude(a, b, coefficient, config) * (axis(b, k) - axis(a, k)),
        effective_distance(a, b, config),
    )
}

/// Two particles further apart than the force range exert no force on each
/// other.
pub proof fn lemma_no_force_beyond_range(
    k: int,
    a: Vec3,
    b: Vec3,
    coefficient: int,
    config: SimulationConfig,
)
    requires
        config.physics_valid(),
        !interacts(a, b, config),
    ensures
        pair_force(k, a, b, coefficient, config) == 0,
        pair_force(k, b, a, coefficient, config) == 0,
{
    lemma_squared_distance_symmetric(a, b);
    assert(0 * (axis(b, k) - axis(a, k)) == 0);
    assert(0 * (axis(a, k) - axis(b, k)) == 0);
    vstd::arithmetic::div_mod::lemma_div_basics(effective_distance(a, b, config));
    vstd::arithmetic::div_mod::lemma_div_basics(effective_distance(b, a, config));
}

/// The squared distance of two points that lie within the limit, with what
/// the kernel needs to know of it.
fn distance_squared(a: Vec3, b: Vec3) -> (sum: u128)
    requires
        a.within(MAX_EXTENT as int),
        b.within(MAX_EXTENT as int),
    ensures
        sum == squared_distance(a, b),
        (b.x - a.x) * (b.x - a.x) <= sum,
        (b.y - a.y) * (b.y - a.y) <= sum,
        (b.z - a.z) * (b.z - a.z) <= sum,
{
    let dx: i128 = (b.x - a.x) as i128;
    let dy: i128 = (b.y - a.y) as i128;
    let dz: i128 = (b.z - a.z) as i128;
    proof {
        lemma_mul_bound(dx as int, dx as int, 2 * MAX_EXTENT, 2 * MAX_EXTENT);
        lemma_mul_bound(dy as int, dy as int, 2 * MAX_EXTENT, 2 * MAX_EXTENT);
        lemma_mul_bound(dz as int, dz as int, 2 * MAX_EXTENT, 2 * MAX_EXTENT);
        lemma_square_ordered(0, dx as int);
        lemma_square_ordered(0, dy as int);
        lemma_square_ordered(0, dz as int);
    }
    (dx * dx + dy * dy + dz * dz) as u128
}

/// The force that a particle at `a` feels from a particle at `b`, for the
/// coefficient of their types.
pub fn force_between(a: Vec3, b: Vec3, coefficient: i64, config: &SimulationConfig) -> (force: Vec3)
    requires
        a.within(MAX_EXTENT as int),
        b.within(MAX_EXTENT as int),
        magnitude(coefficient as int) <= MAX_COEFFICIENT,
        config.physics_valid(),
    ensures
        force.x == pair_force(0, a, b, coefficient as int, *config),
        force.y == pair_force(1, a, b, coefficient as int, *config),
        force.z == pair_force(2, a, b, coefficient as int, *config),
        force.within(MAX_PAIR_FORCE as int),
{
    let range: i128 = config.max_force_range as i128;
    let apart: u128 = distance_squared(a, b);
    proof {
        lemma_mul_bound(range as int, range as int, MAX_EXTENT as int, MAX_EXTENT as int);
    }
    if apart > (range * range) as u128 {
        proof {
            lemma_no_force_beyond_range(0, a, b, coefficient as int, *config);
            lemma_no_force_beyond_range(1, a, b, coefficient as int, *config);
            lemma_no_force_beyond_range(2, a, b, coefficient as int, *config);
        }
        return Vec3 { x: 0, y: 0, z: 0 };
    }
    let root: u64 = isqrt(apart);
    proof {
        assert(crate::fixed::is_floor_sqrt(range * range, range as int)) by (nonlinear_arith)
            requires
                range > 0,
        ;
        lemma_floor_sqrt_monotonic(apart as int, root as int, range * range, range as int);
        lemma_root_dominates(b.x - a.x, apart as int, root as int);
        lemma_root_dominates(b.y - a.y, apart as int, root as int);
        lemma_root_dominates(b.z - a.z, apart as int, root as int);
    }
    let distance: i128 = if (root as i128) < (config.min_distance as i128) {
        config.min_distance as i128
    } else {
        root as i128
    };
    assert(distance == effective_distance(a, b, *config));
    let inside: i128 = if distance >= range {
        0
    } else {
        range - distance
    };
    proof {
        lemma_mul_bound(
            coefficient as int,
            config.force_scale as int,
            MAX_COEFFICIENT as int,
            crate::globals::MAX_FORCE_SCALE as int,
        );
    }
    let strength: i128 = mul_div(coefficient as i128, config.force_scale as i128, UNIT as i128);
    proof {
        lemma_div_toward_zero_bound(
            coefficient * config.force_scale,
            UNIT as int,
            MAX_PAIR_FORCE as int,
        );
        lemma_mul_bound(strength as int, inside as int, MAX_PAIR_FORCE as int, range as int);
        lemma_mul_bound(MAX_PAIR_FORCE as int, range as int, MAX_PAIR_FORCE as int, MAX_EXTENT as int);
    }
    let pull: i128 = mul_div(strength, inside, range);
    proof {
        lemma_div_toward_zero_bound(strength * inside, range as int, MAX_PAIR_FORCE as int);
        assert(pull == pair_magnitude(a, b, coefficient as int, *config));
        lemma_mul_bound(pull as int, b.x - a.x, MAX_PAIR_FORCE as int, distance as int);
        lemma_mul_bound(pull as int, b.y - a.y, MAX_PAIR_FORCE as int, distance as int);
        lemma_mul_bound(pull as int, b.z - a.z, MAX_PAIR_FORCE as int, distance as int);
        lemma_mul_bound(
            MAX_PAIR_FORCE as int,
            distance as int,
            MAX_PAIR_FORCE as int,
            MAX_EXTENT as int,
        );
        lemma_div_toward_zero_bound(pull * (b.x - a.x), distance as int, MAX_PAIR_FORCE as int);
        lemma_div_toward_zero_bound(pull * (b.y - a.y), distance as int, MAX_PAIR_FORCE as int);
        lemma_div_toward_zero_bound(pull * (b.z - a.z), distance as int, MAX_PAIR_FORCE as int);
    }
    let x: i128 = mul_div(pull, (b.x - a.x) as i128, distance);
    let y: i128 = mul_div(pull, (b.y - a.y) as i128, distance);
    let z: i128 = mul_div(pull, (b.z - a.z) as i128, distance);
    Vec3 { x: x as i64, y: y as i64, z: z as i64 }
}

/// Largest magnitude of a component of a velocity before the speed limit is
/// applied to it.
pub const MAX_RAW_SPEED: i64 = 2_000_000_000_000_000_000;

/// The component along axis `k` of the velocity `(x, y, z)` after the speed
/// limit: the velocity itself if it is no faster than `limit`, else the
/// velocity scaled down to that speed, the speed being rounded up and each
/// component toward zero.
pub open spec fn limit_speed(k: int, x: int, y: int, z: int, limit: int) -> int {
    let own = if k == 0 {
        x
    } else if k == 1 {
        y
    } else {
        z
    };
    if squared_length(x, y, z) <= limit * limit {
        own
    } else {
        div_toward_zero(own * limit, ceil_sqrt(squared_length(x, y, z)))
    }
}

/// Where a particle that moved freely to `coordinate` along one axis ends up
/// in a world that reaches from `-half` to `half`.
pub open spec fn kept_inside(coordinate: int, half: int) -> int {
    if coordinate > half {
        half
    } else if coordinate < -half {
        -half
    } else {
        coordinate
    }
}

/// The speed along one axis of a particle that moved freely to `coordinate`
/// along that axis: reversed and damped if it met a wall, else unchanged.
pub open spec fn after_wall(coordinate: int, speed: int, half: int, damping: int) -> int {
    if coordinate > half || coordinate < -half {
        -fixed_mul(speed, damping)
    } else {
        speed
    }
}

/// Scaling one component: its square, times the square of the divisor, is at
/// most the square of the component before, times the square of the limit.
proof fn lemma_component_scaled(x: int, limit: int, norm: int)
    requires
        limit >= 0,
        norm > 0,
    ensures
        ({
            let c = div_toward_zero(x * limit, norm);
            c * c * (norm * norm) <= x * x * (limit * limit)
        }),
{
    let c = div_toward_zero(x * limit, norm);
    let q = magnitude(c);
    let a = magnitude(x);
    lemma_div_toward_zero(x * limit, norm);
    assert(magnitude(x * limit) == a * limit) by (nonlinear_arith)
        requires
            limit >= 0,
            a == magnitude(x),
    ;
    assert(q * norm <= a * limit);
    assert(0 <= q * norm) by (nonlinear_arith)
        requires
            0 <= q,
            0 < norm,
    ;
    lemma_square_ordered(q * norm, a * limit);
    assert((q * norm) * (q * norm) == c * c * (norm * norm)) by (nonlinear_arith)
        requires
            q == magnitude(c),
    ;
    assert((a * limit) * (a * limit) == x * x * (limit * limit)) by (nonlinear_arith)
        requires
            a == magnitude(x),
    ;
}

/// A velocity scaled down by a divisor that is at least its speed is no
/// faster than the limit.
pub proof fn lemma_scaled_within_limit(x: int, y: int, z: int, limit: int, norm: int)
    requires
        limit >= 0,
        norm > 0,
        squared_length(x, y, z) <= norm * norm,
    ensures
        squared_length(
            div_toward_zero(x * limit, norm),
            div_toward_zero(y * limit, norm),
            div_toward_zero(z * limit, norm),
        ) <= limit * limit,
{
    let cx = div_toward_zero(x * limit, norm);
    let cy = div_toward_zero(y * limit, norm);
    let cz = div_toward_zero(z * limit, norm);
    lemma_component_scaled(x, limit, norm);
    lemma_component_scaled(y, limit, norm);
    lemma_component_scaled(z, limit, norm);
    let scaled = squared_length(cx, cy, cz);
    let unscaled = squared_length(x, y, z);
    let n2 = norm * norm;
    let l2 = limit * limit;
    assert(scaled * n2 == cx * cx * n2 + cy * cy * n2 + cz * cz * n2) by (nonlinear_arith)
        requires
            scaled == cx * cx + cy * cy + cz * cz,
    ;
    assert(unscaled * l2 == x * x * l2 + y * y * l2 + z * z * l2) by (nonlinear_arith)
        requires
            unscaled == x * x + y * y + z * z,
    ;
    assert(n2 > 0 && l2 >= 0) by (nonlinear_arith)
        requires
            norm > 0,
            n2 == norm * norm,
            l2 == limit * limit,
    ;
    assert(scaled <= l2) by (nonlinear_arith)
        requires
            scaled * n2 <= unscaled * l2,
            unscaled <= n2,
            n2 > 0,
            l2 >= 0,
    ;
}

/// A vector whose squared length is at most the square of `limit` has no
/// component beyond `limit`.
pub proof fn lemma_components_within(x: int, y: int, z: int, limit: int)
    by (nonlinear_arith)
    requires
        limit >= 0,
        squared_length(x, y, z) <= limit * limit,
    ensures
        magnitude(x) <= limit,
        magnitude(y) <= limit,
        magnitude(z) <= limit,
{
}

/// Applies the speed limit to a velocity.
fn limit_velocity(x: i128, y: i128, z: i128, limit: i64) -> (v: Vec3)
    requires
        magnitude(x as int) <= MAX_RAW_SPEED,
        magnitude(y as int) <= MAX_RAW_SPEED,
        magnitude(z as int) <= MAX_RAW_SPEED,
        0 <= limit <= MAX_EXTENT,
    ensures
        v.x == limit_speed(0, x as int, y as int, z as int, limit as int),
        v.y == limit_speed(1, x as int, y as int, z as int, limit as int),
        v.z == limit_speed(2, x as int, y as int, z as int, limit as int),
        squared_length(v.x as int, v.y as int, v.z as int) <= limit * limit,
        v.within(limit as int),
{
    proof {
        lemma_mul_bound(x as int, x as int, MAX_RAW_SPEED as int, MAX_RAW_SPEED as int);
        lemma_mul_bound(y as int, y as int, MAX_RAW_SPEED as int, MAX_RAW_SPEED as int);
        lemma_mul_bound(z as int, z as int, MAX_RAW_SPEED as int, MAX_RAW_SPEED as int);
        lemma_square_ordered(0, x as int);
        lemma_square_ordered(0, y as int);
        lemma_square_ordered(0, z as int);
        lemma_mul_bound(limit as int, limit as int, MAX_EXTENT as int, MAX_EXTENT as int);
    }
    let speed_squared: i128 = x * x + y * y + z * z;
    let bound: i128 = limit as i128;
    if speed_squared <= bound * bound {
        proof {
            lemma_components_within(x as int, y as int, z as int, limit as int);
        }
        return Vec3 { x: x as i64, y: y as i64, z: z as i64 };
    }
    let norm: u128 = isqrt_up(speed_squared as u128);
    proof {
        lemma_scaled_within_limit(x as int, y as int, z as int, limit as int, norm as int);
        lemma_components_within(
            div_toward_zero(x * limit, norm as int),
            div_toward_zero(y * limit, norm as int),
            div_toward_zero(z * limit, norm as int),
            limit as int,
        );
        lemma_mul_bound(x as int, limit as int, MAX_RAW_SPEED as int, MAX_EXTENT as int);
        lemma_mul_bound(y as int, limit as int, MAX_RAW_SPEED as int, MAX_EXTENT as int);
        lemma_mul_bound(z as int, limit as int, MAX_RAW_SPEED as int, MAX_EXTENT as int);
    }
    let divisor: i128 = norm as i128;
    let vx: i128 = mul_div(x, bound, divisor);
    let vy: i128 = mul_div(y, bound, divisor);
    let vz: i128 = mul_div(z, bound, divisor);
    Vec3 { x: vx as i64, y: vy as i64, z: vz as i64 }
}

/// All that one step reads: the current positions and velocities of the
/// particles of one simulation, their types, the force matrix, the tunables
/// and the time step.
pub struct Scene {
    pub positions: Seq<Vec3>,
    pub velocities: Seq<Vec3>,
    pub types: Seq<u32>,
    pub forces: ParticleConfig,
    pub config: SimulationConfig,
    pub dt: i64,
}

impl Scene {
    /// The number of particles.
    pub open spec fn count(self) -> int {
        self.positions.len() as int
    }

    /// Why a step on this scene is refused: the first of the faults in the
    /// order of `KernelError`; `None` if the step is made.
    pub open spec fn violation(self) -> Option<KernelError> {
        if self.velocities.len() != self.positions.len() || self.types.len()
            != self.positions.len() {
            Some(KernelError::LengthMismatch)
        } else if self.positions.len() > MAX_PARTICLES_PER_SIMULATION {
            Some(KernelError::TooManyParticles)
        } else if !self.config.physics_valid() {
            Some(KernelError::InvalidTunable)
        } else if self.dt < 0 || self.dt > MAX_TIMESTEP {
            Some(KernelError::InvalidTimestep)
        } else if !self.forces.wf() {
            Some(KernelError::InvalidForceMatrix)
        } else if exists|i: int| 0 <= i < self.types.len() && self.types[i] >= self.forces.num_types {
            Some(KernelError::TypeOutOfRange)
        } else if exists|i: int|
            0 <= i < self.positions.len() && !(self.positions[i].within(MAX_EXTENT as int)
                && self.velocities[i].within(MAX_EXTENT as int)) {
            Some(KernelError::OutOfBounds)
        } else {
            None
        }
    }

    /// A step on this scene is made.
    pub open spec fn wf(self) -> bool {
        self.violation() is None
    }

    /// The coefficient of the force that particle `i` feels from particle `j`.
    pub open spec fn coefficient(self, i: int, j: int) -> int {
        self.forces.force(self.types[i] as int, self.types[j] as int)
    }

    /// The component along axis `k` of the force that particle `i` feels from
    /// particle `j`. A particle exerts no force on itself.
    pub open spec fn force_from(self, k: int, i: int, j: int) -> int {
        if i == j {
            0
        } else {
            pair_force(k, self.positions[i], self.positions[j], self.coefficient(i, j), self.config)
        }
    }

    /// The component along axis `k` of the sum of the forces that particle
    /// `i` feels from the particles before `upto`.
    pub open spec fn net_force(self, k: int, i: int, upto: int) -> int
        decreases upto,
    {
        if upto <= 0 {
            0
        } else {
            self.net_force(k, i, upto - 1) + self.force_from(k, i, upto - 1)
        }
    }

    /// The factor by which friction multiplies a velocity in this step.
    pub open spec fn decay(self) -> int {
        decay_of(self.dt as int, self.config.velocity_half_life as int)
    }

    /// The velocity of particle `i` along axis `k` after friction and the
    /// forces of all other particles, before the speed limit.
    pub open spec fn raw_velocity(self, k: int, i: int) -> int {
        fixed_mul(axis(self.velocities[i], k), self.decay()) + fixed_mul(
            self.net_force(k, i, self.count()),
            self.dt as int,
        )
    }

    /// The velocity of particle `i` along axis `k` after the speed limit.
    pub open spec fn limited_velocity(self, k: int, i: int) -> int {
        limit_speed(
            k,
            self.raw_velocity(0, i),
            self.raw_velocity(1, i),
            self.raw_velocity(2, i),
            self.config.max_velocity as int,
        )
    }

    /// Where particle `i` would be along axis `k` after the step if the world
    /// had no walls.
    pub open spec fn free_coordinate(self, k: int, i: int) -> int {
        axis(self.positions[i], k) + fixed_mul(self.limited_velocity(k, i), self.dt as int)
    }

    /// Where particle `i` is along axis `k` after the step.
    pub open spec fn next_coordinate(self, k: int, i: int) -> int {
        kept_inside(self.free_coordinate(k, i), self.config.half_extent())
    }

    /// The velocity of particle `i` along axis `k` after the step.
    pub open spec fn next_speed(self, k: int, i: int) -> int {
        after_wall(
            self.free_coordinate(k, i),
            self.limited_velocity(k, i),
            self.config.half_extent(),
            self.config.collision_damping as int,
        )
    }

    /// The position of particle `i` after the step.
    pub open spec fn next_position(self, i: int) -> Vec3 {
        Vec3 {
            x: self.next_coordinate(0, i) as i64,
            y: self.next_coordinate(1, i) as i64,
            z: self.next_coordinate(2, i) as i64,
        }
    }

    /// The velocity of particle `i` after the step.
    pub open spec fn next_velocity(self, i: int) -> Vec3 {
        Vec3 {
            x: self.next_speed(0, i) as i64,
            y: self.next_speed(1, i) as i64,
            z: self.next_speed(2, i) as i64,
        }
    }

    /// The positions of all particles after the step.
    pub open spec fn next_positions(self) -> Seq<Vec3> {
        Seq::new(self.positions.len(), |i: int| self.next_position(i))
    }

    /// The velocities of all particles after the step.
    pub open spec fn next_velocities(self) -> Seq<Vec3> {
        Seq::new(self.positions.len(), |i: int| self.next_velocity(i))
    }
}

/// The sum of the forces that particle `i` feels from all other particles.
fn force_on(
    i: usize,
    positions: &Vec<Vec3>,
    types: &Vec<u32>,
    forces: &ParticleConfig,
    config: &SimulationConfig,
    Ghost(scene): Ghost<Scene>,
) -> (force: Vec3)
    requires
        scene.wf(),
        scene.positions == positions@,
        scene.types == types@,
        scene.forces == *forces,
        scene.config == *config,
        i < positions@.len(),
    ensures
        force.x == scene.net_force(0, i as int, scene.count()),
        force.y == scene.net_force(1, i as int, scene.count()),
        force.z == scene.net_force(2, i as int, scene.count()),
        force.within(scene.count() * MAX_PAIR_FORCE),
{
    let count: usize = positions.len();
    let here: Vec3 = positions[i];
    let own_type: u32 = types[i];
    let mut x: i64 = 0;
    let mut y: i64 = 0;
    let mut z: i64 = 0;
    let mut j: usize = 0;
    while j < count
        invariant
            j <= count,
            count == scene.count(),
            scene.wf(),
            scene.positions == positions@,
            scene.types == types@,
            scene.forces == *forces,
            scene.config == *config,
            i < count,
            here == positions@[i as int],
            own_type == types@[i as int],
            x == scene.net_force(0, i as int, j as int),
            y == scene.net_force(1, i as int, j as int),
            z == scene.net_force(2, i as int, j as int),
            -(j * MAX_PAIR_FORCE) <= x <= j * MAX_PAIR_FORCE,
            -(j * MAX_PAIR_FORCE) <= y <= j * MAX_PAIR_FORCE,
            -(j * MAX_PAIR_FORCE) <= z <= j * MAX_PAIR_FORCE,
        decreases count - j,
    {
        if j != i {
            let coefficient: i64 = forces.get_force(own_type, types[j]);
            let pull: Vec3 = force_between(here, positions[j], coefficient, config);
            x = x + pull.x;
            y = y + pull.y;
            z = z + pull.z;
        }
        j += 1;
    }
    Vec3 { x, y, z }
}

/// Where one particle is after the step, and how fast.
fn advance_particle(
    i: usize,
    positions: &Vec<Vec3>,
    velocities: &Vec<Vec3>,
    types: &Vec<u32>,
    forces: &ParticleConfig,
    config: &SimulationConfig,
    dt: i64,
    decay: i64,
    Ghost(scene): Ghost<Scene>,
) -> (next: (Vec3, Vec3))
    requires
        scene.wf(),
        scene.positions == positions@,
        scene.velocities == velocities@,
        scene.types == types@,
        scene.forces == *forces,
        scene.config == *config,
        scene.dt == dt,
        decay == scene.decay(),
        0 <= decay <= UNIT,
        i < positions@.len(),
    ensures
        next.0 == scene.next_position(i as int),
        next.1 == scene.next_velocity(i as int),
        next.0.within(config.half_extent()),
        next.1.within(config.max_velocity as int),
        squared_length(next.1.x as int, next.1.y as int, next.1.z as int) <= config.max_velocity
            * config.max_velocity,
{
    let force: Vec3 = force_on(i, positions, types, forces, config, Ghost(scene));
    let here: Vec3 = positions[i];
    let speed: Vec3 = velocities[i];
    let raw_x: i128 = raw_speed(speed.x, force.x, decay, dt);
    let raw_y: i128 = raw_speed(speed.y, force.y, decay, dt);
    let raw_z: i128 = raw_speed(speed.z, force.z, decay, dt);
    let limited: Vec3 = limit_velocity(raw_x, raw_y, raw_z, config.max_velocity);
    let half: i64 = config.half_world();
    let along_x: (i64, i64) = move_along(here.x, limited.x, dt, half, config.collision_damping);
    let along_y: (i64, i64) = move_along(here.y, limited.y, dt, half, config.collision_damping);
    let along_z: (i64, i64) = move_along(here.z, limited.z, dt, half, config.collision_damping);
    proof {
        lemma_square_ordered(along_x.1 as int, limited.x as int);
        lemma_square_ordered(along_y.1 as int, limited.y as int);
        lemma_square_ordered(along_z.1 as int, limited.z as int);
    }
    (
        Vec3 { x: along_x.0, y: along_y.0, z: along_z.0 },
        Vec3 { x: along_x.1, y: along_y.1, z: along_z.1 },
    )
}

/// The speed along one axis after friction and force.
fn raw_speed(speed: i64, force: i64, decay: i64, dt: i64) -> (raw: i128)
    requires
        magnitude(speed as int) <= MAX_EXTENT,
        magnitude(force as int) <= MAX_PARTICLES_PER_SIMULATION * MAX_PAIR_FORCE,
        0 <= decay <= UNIT,
        0 <= dt <= MAX_TIMESTEP,
    ensures
        raw == fixed_mul(speed as int, decay as int) + fixed_mul(force as int, dt as int),
        magnitude(raw as int) <= MAX_RAW_SPEED,
{
    proof {
        lemma_mul_bound(speed as int, decay as int, MAX_EXTENT as int, UNIT as int);
        lemma_div_toward_zero_bound(speed * decay, UNIT as int, MAX_EXTENT as int);
        lemma_mul_bound(
            force as int,
            dt as int,
            MAX_PARTICLES_PER_SIMULATION * MAX_PAIR_FORCE,
            MAX_TIMESTEP as int,
        );
        lemma_div_toward_zero_bound(
            force * dt,
            UNIT as int,
            MAX_PARTICLES_PER_SIMULATION * MAX_PAIR_FORCE,
        );
    }
    let kept: i128 = mul_div(speed as i128, decay as i128, UNIT as i128);
    let gained: i128 = mul_div(force as i128, dt as i128, UNIT as i128);
    kept + gained
}

/// Moves a particle along one axis and keeps it inside the world: where it
/// is after the step, and how fast.
fn move_along(coordinate: i64, speed: i64, dt: i64, half: i64, damping: i64) -> (next: (i64, i64))
    requires
        magnitude(coordinate as int) <= MAX_EXTENT,
        magnitude(speed as int) <= MAX_EXTENT,
        0 <= dt <= MAX_TIMESTEP,
        0 <= half <= MAX_EXTENT,
        0 <= damping <= UNIT,
    ensures
        next.0 == kept_inside(coordinate + fixed_mul(speed as int, dt as int), half as int),
        next.1 == after_wall(
            coordinate + fixed_mul(speed as int, dt as int),
            speed as int,
            half as int,
            damping as int,
        ),
        -half <= next.0 <= half,
        magnitude(next.1 as int) <= magnitude(speed as int),
{
    proof {
        lemma_mul_bound(speed as int, dt as int, MAX_EXTENT as int, MAX_TIMESTEP as int);
        lemma_div_toward_zero_bound(speed * dt, UNIT as int, MAX_EXTENT as int);
        lemma_mul_bound(speed as int, damping as int, magnitude(speed as int), UNIT as int);
        lemma_div_toward_zero_bound(speed * damping, UNIT as int, magnitude(speed as int));
        lemma_mul_bound(speed as int, damping as int, MAX_EXTENT as int, UNIT as int);
    }
    let moved: i128 = coordinate as i128 + mul_div(speed as i128, dt as i128, UNIT as i128);
    if moved > half as i128 {
        let back: i128 = -mul_div(speed as i128, damping as i128, UNIT as i128);
        (half, back as i64)
    } else if moved < -(half as i128) {
        let back: i128 = -mul_div(speed as i128, damping as i128, UNIT as i128);
        (-half, back as i64)
    } else {
        (moved as i64, speed)
    }
}

/// What a step answers for a scene and the lengths of the two buffers that
/// it is to write: an error if a buffer has not the length of the scene or
/// the scene is refused.
pub open spec fn step_result(scene: Scene, positions_room: nat, velocities_room: nat) -> Result<
    (),
    KernelError,
> {
    if positions_room != scene.positions.len() || velocities_room != scene.positions.len() {
        Err(KernelError::LengthMismatch)
    } else {
        match scene.violation() {
            Some(fault) => Err(fault),
            None => Ok(()),
        }
    }
}

/// Checks what a step is about to read.
fn check(
    positions: &Vec<Vec3>,
    velocities: &Vec<Vec3>,
    types: &Vec<u32>,
    forces: &ParticleConfig,
    config: &SimulationConfig,
    dt: i64,
    Ghost(scene): Ghost<Scene>,
) -> (result: Result<(), KernelError>)
    requires
        scene.positions == positions@,
        scene.velocities == velocities@,
        scene.types == types@,
        scene.forces == *forces,
        scene.config == *config,
        scene.dt == dt,
    ensures
        result == match scene.violation() {
            Some(fault) => Err::<(), KernelError>(fault),
            None => Ok::<(), KernelError>(()),
        },
{
    let count: usize = positions.len();
    if velocities.len() != count || types.len() != count {
        return Err(KernelError::LengthMismatch);
    }
    if count > MAX_PARTICLES_PER_SIMULATION {
        return Err(KernelError::TooManyParticles);
    }
    if !config.check_physics() {
        return Err(KernelError::InvalidTunable);
    }
    if dt < 0 || dt > MAX_TIMESTEP {
        return Err(KernelError::InvalidTimestep);
    }
    if !forces.is_wf() {
        return Err(KernelError::InvalidForceMatrix);
    }
    let mut i: usize = 0;
    while i < count
        invariant
            i <= count,
            scene.positions == positions@,
            scene.velocities == velocities@,
            scene.types == types@,
            scene.forces == *forces,
            scene.positions.len() == count,
            scene.velocities.len() == count,
            scene.types.len() == count,
            count <= MAX_PARTICLES_PER_SIMULATION,
            scene.config.physics_valid(),
            0 <= scene.dt <= MAX_TIMESTEP,
            scene.forces.wf(),
            forall|m: int| 0 <= m < i ==> types@[m] < forces.num_types,
        decreases count - i,
    {
        if types[i] >= forces.num_types {
            assert(scene.types[i as int] >= scene.forces.num_types);
            return Err(KernelError::TypeOutOfRange);
        }
        i += 1;
    }
    let mut i: usize = 0;
    while i < count
        invariant
            i <= count,
            scene.positions == positions@,
            scene.velocities == velocities@,
            scene.types == types@,
            scene.forces == *forces,
            scene.positions.len() == count,
            scene.velocities.len() == count,
            scene.types.len() == count,
            count <= MAX_PARTICLES_PER_SIMULATION,
            scene.config.physics_valid(),
            0 <= scene.dt <= MAX_TIMESTEP,
            scene.forces.wf(),
            forall|m: int| 0 <= m < count ==> types@[m] < forces.num_types,
            forall|m: int|
                0 <= m < i ==> positions@[m].within(MAX_EXTENT as int) && velocities@[m].within(
                    MAX_EXTENT as int,
                ),
        decreases count - i,
    {
        if !positions[i].is_within(MAX_EXTENT) || !velocities[i].is_within(MAX_EXTENT) {
            assert(!(scene.positions[i as int].within(MAX_EXTENT as int)
                && scene.velocities[i as int].within(MAX_EXTENT as int)));
            return Err(KernelError::OutOfBounds);
        }
        i += 1;
    }
    Ok(())
}

/// Advances the particles of one simulation by one time step `dt`.
///
/// The step reads the current positions and velocities, the types of the
/// particles, the force matrix and the tunables, and writes the positions
/// and velocities after the step into the two other buffers, which must
/// have the same length. Where anything is wrong with what it reads, it
/// writes nothing and says what is wrong.
pub fn step(
    positions: &Vec<Vec3>,
    velocities: &Vec<Vec3>,
    types: &Vec<u32>,
    forces: &ParticleConfig,
    config: &SimulationConfig,
    dt: i64,
    next_positions: &mut Vec<Vec3>,
    next_velocities: &mut Vec<Vec3>,
) -> (result: Result<(), KernelError>)
    ensures
        result == step_result(
            Scene {
                positions: positions@,
                velocities: velocities@,
                types: types@,
                forces: *forces,
                config: *config,
                dt,
            },
            old(next_positions)@.len(),
            old(next_velocities)@.len(),
        ),
        result is Ok ==> final(next_positions)@ == (Scene {
            positions: positions@,
            velocities: velocities@,
            types: types@,
            forces: *forces,
            config: *config,
            dt,
        }).next_positions(),
        result is Ok ==> final(next_velocities)@ == (Scene {
            positions: positions@,
            velocities: velocities@,
            types: types@,
            forces: *forces,
            config: *config,
            dt,
        }).next_velocities(),
        result is Ok ==> forall|i: int|
            0 <= i < positions@.len() ==> (#[trigger] final(next_positions)@[i]).within(
                config.half_extent(),
            ),
        result is Ok ==> forall|i: int|
            0 <= i < positions@.len() ==> squared_length(
                (#[trigger] final(next_velocities)@[i]).x as int,
                final(next_velocities)@[i].y as int,
                final(next_velocities)@[i].z as int,
            ) <= config.max_velocity * config.max_velocity,
        result is Err ==> final(next_positions)@ == old(next_positions)@,
        result is Err ==> final(next_velocities)@ == old(next_velocities)@,
{
    let ghost scene = Scene {
        positions: positions@,
        velocities: velocities@,
        types: types@,
        forces: *forces,
        config: *config,
        dt,
    };
    let count: usize = positions.len();
    if next_positions.len() != count || next_velocities.len() != count {
        return Err(KernelError::LengthMismatch);
    }
    match check(positions, velocities, types, forces, config, dt, Ghost(scene)) {
        Err(fault) => {
            return Err(fault);
        },
        Ok(()) => {},
    }
    proof {
        crate::decay::lemma_decay_is_share(dt as int, config.velocity_half_life as int);
    }
    let decay: i64 = decay_factor(dt, config.velocity_half_life);
    let mut i: usize = 0;
    while i < count
        invariant
            i <= count,
            count == scene.count(),
            scene.wf(),
            scene.positions == positions@,
            scene.velocities == velocities@,
            scene.types == types@,
            scene.forces == *forces,
            scene.config == *config,
            scene.dt == dt,
            decay == scene.decay(),
            0 <= decay <= UNIT,
            next_positions@.len() == count,
            next_velocities@.len() == count,
            forall|m: int| 0 <= m < i ==> next_positions@[m] == scene.next_position(m),
            forall|m: int| 0 <= m < i ==> next_velocities@[m] == scene.next_velocity(m),
            forall|m: int|
                0 <= m < i ==> (#[trigger] next_positions@[m]).within(config.half_extent()),
            forall|m: int|
                0 <= m < i ==> squared_length(
                    (#[trigger] next_velocities@[m]).x as int,
                    next_velocities@[m].y as int,
                    next_velocities@[m].z as int,
                ) <= config.max_velocity * config.max_velocity,
        decreases count - i,
    {
        let next: (Vec3, Vec3) = advance_particle(
            i,
            positions,
            velocities,
            types,
            forces,
            config,
            dt,
            decay,
            Ghost(scene),
        );
        next_positions.set(i, next.0);
        next_velocities.set(i, next.1);
        i += 1;
    }
    proof {
        assert(next_positions@ =~= scene.next_positions());
        assert(next_velocities@ =~= scene.next_velocities());
    }
    Ok(())
}

/// A particle that has no other particle within the force range feels no
/// force from the particles before `upto`.
pub proof fn lemma_isolated_feels_nothing(scene: Scene, k: int, i: int, upto: int)
    requires
        scene.config.physics_valid(),
        0 <= i < scene.count(),
        upto <= scene.count(),
        forall|j: int|
            0 <= j < scene.count() && j != i ==> !interacts(
                scene.positions[i],
                #[trigger] scene.positions[j],
                scene.config,
            ),
    ensures
        scene.net_force(k, i, upto) == 0,
    decreases upto,
{
    if upto > 0 {
        lemma_isolated_feels_nothing(scene, k, i, upto - 1);
        let j = upto - 1;
        if j != i {
            assert(!interacts(scene.positions[i], scene.positions[j], scene.config));
            lemma_no_force_beyond_range(
                k,
                scene.positions[i],
                scene.positions[j],
                scene.coefficient(i, j),
                scene.config,
            );
        }
    }
}

/// A particle that has no other particle within the force range is slowed
/// by friction and by nothing else: before the speed limit, its velocity
/// after the step is its velocity before, times the decay factor of the time
/// step. Where that velocity is no faster than the limit and the particle
/// meets no wall, it is the velocity after the step.
pub proof fn lemma_isolated_particle(scene: Scene, k: int, i: int)
    requires
        scene.config.physics_valid(),
        0 <= i < scene.count(),
        0 <= k < 3,
        forall|j: int|
            0 <= j < scene.count() && j != i ==> !interacts(
                scene.positions[i],
                #[trigger] scene.positions[j],
                scene.config,
            ),
    ensures
        scene.net_force(k, i, scene.count()) == 0,
        scene.raw_velocity(k, i) == fixed_mul(axis(scene.velocities[i], k), scene.decay()),
        squared_length(
            scene.raw_velocity(0, i),
            scene.raw_velocity(1, i),
            scene.raw_velocity(2, i),
        ) <= scene.config.max_velocity * scene.config.max_velocity && -scene.config.half_extent()
            <= scene.free_coordinate(k, i) <= scene.config.half_extent() ==> scene.next_speed(k, i)
            == fixed_mul(axis(scene.velocities[i], k), scene.decay()),
{
    lemma_isolated_feels_nothing(scene, k, i, scene.count());
    assert(0 * (scene.dt as int) == 0);
    assert(fixed_mul(0, scene.dt as int) == 0);
}

/// No particle is faster than the speed limit after a step.
pub proof fn lemma_speed_limit(scene: Scene, i: int)
    requires
        scene.config.physics_valid(),
    ensures
        squared_length(scene.next_speed(0, i), scene.next_speed(1, i), scene.next_speed(2, i))
            <= scene.config.max_velocity * scene.config.max_velocity,
{
    let x = scene.raw_velocity(0, i);
    let y = scene.raw_velocity(1, i);
    let z = scene.raw_velocity(2, i);
    let limit = scene.config.max_velocity as int;
    let damping = scene.config.collision_damping as int;
    let half = scene.config.half_extent();
    let lx = scene.limited_velocity(0, i);
    let ly = scene.limited_velocity(1, i);
    let lz = scene.limited_velocity(2, i);
    let speed = squared_length(x, y, z);
    assert(squared_length(lx, ly, lz) <= limit * limit) by {
        if speed > limit * limit {
            lemma_square_ordered(0, x);
            lemma_square_ordered(0, y);
            lemma_square_ordered(0, z);
            lemma_square_ordered(0, limit);
            crate::fixed::lemma_floor_sqrt_exists(speed);
            lemma_sqrt_bounds(speed, floor_sqrt(speed));
            lemma_scaled_within_limit(x, y, z, limit, ceil_sqrt(speed));
        }
    }
    lemma_slowed_by_wall(scene.free_coordinate(0, i), lx, half, damping);
    lemma_slowed_by_wall(scene.free_coordinate(1, i), ly, half, damping);
    lemma_slowed_by_wall(scene.free_coordinate(2, i), lz, half, damping);
    lemma_square_ordered(scene.next_speed(0, i), lx);
    lemma_square_ordered(scene.next_speed(1, i), ly);
    lemma_square_ordered(scene.next_speed(2, i), lz);
}

/// A wall never makes a particle faster.
pub proof fn lemma_slowed_by_wall(coordinate: int, speed: int, half: int, damping: int)
    requires
        0 <= damping <= UNIT,
    ensures
        magnitude(after_wall(coordinate, speed, half, damping)) <= magnitude(speed),
{
    lemma_mul_bound(speed, damping, magnitude(speed), UNIT as int);
    lemma_div_toward_zero_bound(speed * damping, UNIT as int, magnitude(speed));
}

/// No particle is outside the world after a step.
pub proof fn lemma_stays_inside(scene: Scene, k: int, i: int)
    requires
        scene.config.physics_valid(),
    ensures
        -scene.config.half_extent() <= scene.next_coordinate(k, i) <= scene.config.half_extent(),
{
}

/// Two particles that are further apart than the force range, alone in
/// their world, exert no force on each other: each is slowed by friction
/// only and drifts by its own velocity.
pub proof fn lemma_distant_pair(scene: Scene, k: int)
    requires
        scene.config.physics_valid(),
        scene.count() == 2,
        0 <= k < 3,
        !interacts(scene.positions[0], scene.positions[1], scene.config),
    ensures
        scene.net_force(k, 0, 2) == 0,
        scene.net_force(k, 1, 2) == 0,
        scene.raw_velocity(k, 0) == fixed_mul(axis(scene.velocities[0], k), scene.decay()),
        scene.raw_velocity(k, 1) == fixed_mul(axis(scene.velocities[1], k), scene.decay()),
{
    let a = scene.positions[0];
    let b = scene.positions[1];
    lemma_squared_distance_symmetric(a, b);
    lemma_isolated_particle(scene, k, 0);
    lemma_isolated_particle(scene, k, 1);
}

} // verus!
