//! One world: a simulation with its own particles, food, force matrix and
//! score. No world reads or writes anything of another world.

use vstd::prelude::*;

use crate::double_buffer::{copy_of, DoubleBuffer};
use crate::fixed::UNIT;
use crate::food::{FoodEvent, FoodItem};
use crate::globals::{
    DEFAULT_PARTICLE_SIZE, MAX_EXTENT, MAX_FOOD_COUNT, MAX_PARTICLES_PER_SIMULATION, MAX_TIMESTEP,
};
use crate::kernel::{lemma_components_within, step, Scene};
use crate::particle::{type_of_index, LifeParticle};
use crate::particle_config::ParticleConfig;
use crate::random::{is_initial_velocity, is_random_point, random_position, random_velocity};
use crate::simulation::{score_after, Simulation};
use crate::simulation_config::SimulationConfig;
use crate::vec3::Vec3;

verus! {

/// One simulation: its particles, its food, its forces and its score.
pub struct World {
    /// The identity and the score.
    pub simulation: Simulation,
    /// The index of the first particle. The particles of the world have the
    /// indices from this one on, without a gap; the particle with the index
    /// `first_index + k` is held at place `k` of the buffers.
    pub first_index: u32,
    /// The type of each particle.
    pub types: Vec<u32>,
    /// The positions and velocities of the particles.
    pub state: DoubleBuffer,
    pub food: Vec<FoodItem>,
    /// The force matrix, with the number of types.
    pub particle_config: ParticleConfig,
}

/// What the first `upto` food items add to the score in a tick among the
/// given particles.
pub open spec fn total_gain(food: Seq<FoodItem>, particles: Seq<Vec3>, upto: int) -> int
    decreases upto,
{
    if upto <= 0 {
        0
    } else {
        total_gain(food, particles, upto - 1) + food[upto - 1].gain(particles)
    }
}

/// Whether a food item `before` a tick of length `dt` among the given
/// particles can be the item `after` it, in a world of side `world_size`.
/// All is fixed but the place where an item comes back, which is a random
/// point of the world: each coordinate is what a draw of `[0, 1)` gives.
pub open spec fn food_settled(
    before: FoodItem,
    after: FoodItem,
    particles: Seq<Vec3>,
    dt: int,
    world_size: int,
) -> bool {
    let expected = before.after(particles, dt);
    if before.event(particles, dt) == FoodEvent::Respawned {
        &&& after == (FoodItem { position: after.position, ..expected })
        &&& is_random_point(after.position, world_size)
        &&& after.position.within(world_size / 2)
    } else {
        after == expected
    }
}

/// Food never takes from a score.
pub proof fn lemma_total_gain_nonnegative(food: Seq<FoodItem>, particles: Seq<Vec3>, upto: int)
    requires
        upto <= food.len(),
        forall|f: int| 0 <= f < food.len() ==> (#[trigger] food[f]).food.value >= 0,
    ensures
        total_gain(food, particles, upto) >= 0,
    decreases upto,
{
    if upto > 0 {
        lemma_total_gain_nonnegative(food, particles, upto - 1);
    }
}

/// Where only the food item `f` is consumed, the food adds its value to the
/// score, and nothing else.
pub proof fn lemma_total_gain_of_one(food: Seq<FoodItem>, particles: Seq<Vec3>, f: int, upto: int)
    requires
        0 <= f < food.len(),
        upto <= food.len(),
        forall|g: int| 0 <= g < food.len() && g != f ==> (#[trigger] food[g]).gain(particles) == 0,
    ensures
        total_gain(food, particles, upto) == if f < upto {
            food[f].gain(particles)
        } else {
            0
        },
    decreases upto,
{
    if upto > 0 {
        lemma_total_gain_of_one(food, particles, f, upto - 1);
    }
}

/// A tick in which a particle reaches one visible food item, and no other
/// item is consumed, raises the score of the world by the value of that
/// item, and hides the item.
pub proof fn lemma_consumption_scores(
    before: World,
    after: World,
    config: SimulationConfig,
    dt: i64,
    f: int,
)
    requires
        before.ticked_to(&after, &config, dt),
        0 <= f < before.food@.len(),
        before.food@[f].visible,
        crate::food::touched(
            before.food@[f].position,
            after.state.positions@,
            after.state.positions@.len() as int,
        ),
        forall|g: int|
            0 <= g < before.food@.len() && g != f ==> (#[trigger] before.food@[g]).gain(
                after.state.positions@,
            ) == 0,
        before.simulation.score + before.food@[f].food.value <= i64::MAX,
        before.simulation.score + before.food@[f].food.value >= i64::MIN,
    ensures
        after.simulation.score == before.simulation.score + before.food@[f].food.value,
        !after.food@[f].visible,
{
    lemma_total_gain_of_one(
        before.food@,
        after.state.positions@,
        f,
        before.food@.len() as int,
    );
    assert(food_settled(
        before.food@[f],
        after.food@[f],
        after.state.positions@,
        dt as int,
        config.world_size as int,
    ));
}

impl World {
    /// The number of particles.
    pub open spec fn count(&self) -> int {
        self.types@.len() as int
    }

    /// The world is in order for a run with the given configuration: the
    /// buffers and the list of types have one length, every particle has the
    /// type that its index gives it, every particle and every food item lies
    /// in the world, and the force matrix is square.
    pub open spec fn wf(&self, config: &SimulationConfig) -> bool {
        &&& config.physics_valid()
        &&& self.particle_config.wf()
        &&& self.particle_config.world_size == config.world_size
        &&& self.particle_config.num_types == config.particle_types
        &&& self.particle_config.num_particles == self.types@.len()
        &&& self.state.wf()
        &&& self.state.count() == self.types@.len()
        &&& self.types@.len() <= MAX_PARTICLES_PER_SIMULATION
        &&& self.first_index + self.types@.len() <= u32::MAX
        &&& self.food@.len() <= MAX_FOOD_COUNT
        &&& forall|k: int|
            0 <= k < self.types@.len() ==> #[trigger] self.types@[k] == type_of_index(
                self.first_index + k,
                self.particle_config.num_types as int,
            )
        &&& forall|k: int|
            0 <= k < self.types@.len() ==> (#[trigger] self.state.positions@[k]).within(
                config.half_extent(),
            )
        &&& forall|k: int|
            0 <= k < self.types@.len() ==> (#[trigger] self.state.velocities@[k]).within(
                MAX_EXTENT as int,
            )
        &&& forall|f: int|
            0 <= f < self.food@.len() ==> (#[trigger] self.food@[f]).wf() && self.food@[f].position.within(
                config.half_extent(),
            ) && self.food@[f].food.simulation_id == self.simulation.id
    }

    /// The world is as it is built: nothing has been scored, every particle
    /// and every food item lies at a random point, the particles have random
    /// initial velocities, all food is visible and worth what the
    /// configuration says, the force matrix holds random coefficients, and
    /// both pairs of buffers hold the same state.
    pub open spec fn freshly_seeded(&self, config: &SimulationConfig) -> bool {
        &&& self.simulation.score == 0
        &&& self.particle_config.particle_size == DEFAULT_PARTICLE_SIZE
        &&& self.particle_config.is_random_matrix()
        &&& self.state.next_positions@ == self.state.positions@
        &&& self.state.next_velocities@ == self.state.velocities@
        &&& forall|k: int|
            0 <= k < self.types@.len() ==> is_random_point(
                #[trigger] self.state.positions@[k],
                config.world_size as int,
            )
        &&& forall|k: int|
            0 <= k < self.types@.len() ==> is_initial_velocity(#[trigger] self.state.velocities@[k])
                && self.state.velocities@[k].within(UNIT as int)
        &&& forall|f: int|
            0 <= f < self.food@.len() ==> (#[trigger] self.food@[f]).visible && is_random_point(
                self.food@[f].position,
                config.world_size as int,
            ) && self.food@[f].food.value == config.food_value
                && self.food@[f].respawn_timer.elapsed == 0
                && self.food@[f].respawn_timer.duration == config.food_respawn_time
    }

    /// What a step of length `dt` reads of the world.
    pub open spec fn scene(&self, config: &SimulationConfig, dt: i64) -> Scene {
        Scene {
            positions: self.state.positions@,
            velocities: self.state.velocities@,
            types: self.types@,
            forces: self.particle_config,
            config: *config,
            dt,
        }
    }

    /// Nothing but the positions and velocities differs between the two.
    pub open spec fn same_but_state(&self, other: &World) -> bool {
        &&& self.simulation == other.simulation
        &&& self.first_index == other.first_index
        &&& self.types == other.types
        &&& self.food == other.food
        &&& self.particle_config == other.particle_config
    }

    /// Nothing but the force matrix differs between the two, and the force
    /// matrix has kept its size.
    pub open spec fn same_but_forces(&self, other: &World) -> bool {
        &&& self.simulation == other.simulation
        &&& self.first_index == other.first_index
        &&& self.types == other.types
        &&& self.food == other.food
        &&& self.state == other.state
        &&& self.particle_config.same_shape(&other.particle_config)
    }

    /// Whether the world `self` can be the world `before` after its positions
    /// were reset: every particle lies at a random point of the world, each
    /// coordinate what a draw of `[0, 1)` gives, and is at rest; the room for
    /// the next state and all else is as before.
    pub open spec fn is_reset_of(&self, before: &World, config: &SimulationConfig) -> bool {
        &&& self.same_but_state(before)
        &&& self.state.next_positions == before.state.next_positions
        &&& self.state.next_velocities == before.state.next_velocities
        &&& self.state.positions@.len() == before.state.positions@.len()
        &&& self.state.velocities@.len() == before.state.velocities@.len()
        &&& forall|k: int|
            0 <= k < self.types@.len() ==> is_random_point(
                #[trigger] self.state.positions@[k],
                config.world_size as int,
            )
        &&& forall|k: int|
            0 <= k < self.types@.len() ==> #[trigger] self.state.velocities@[k] == (Vec3 {
                x: 0,
                y: 0,
                z: 0,
            })
    }

    /// Whether the world `self` before a tick of length `dt` can be the world
    /// `after` it. The physics come first: the particles move as the step
    /// says. Then the food is settled among the particles where they are
    /// now, and what was consumed is added to the score.
    pub open spec fn ticked_to(&self, after: &World, config: &SimulationConfig, dt: i64) -> bool {
        &&& after.state.positions@ == self.scene(config, dt).next_positions()
        &&& after.state.velocities@ == self.scene(config, dt).next_velocities()
        &&& after.state.next_positions@ == self.state.positions@
        &&& after.state.next_velocities@ == self.state.velocities@
        &&& after.first_index == self.first_index
        &&& after.types == self.types
        &&& after.particle_config == self.particle_config
        &&& after.simulation.id == self.simulation.id
        &&& after.simulation.score == score_after(
            self.simulation.score as int,
            total_gain(self.food@, after.state.positions@, self.food@.len() as int),
        )
        &&& after.food@.len() == self.food@.len()
        &&& forall|f: int|
            0 <= f < self.food@.len() ==> food_settled(
                self.food@[f],
                #[trigger] after.food@[f],
                after.state.positions@,
                dt as int,
                config.world_size as int,
            )
    }

    /// The scene of a world that is in order is one that a step accepts.
    pub proof fn lemma_scene_wf(&self, config: &SimulationConfig, dt: i64)
        requires
            self.wf(config),
            0 <= dt <= MAX_TIMESTEP,
        ensures
            self.scene(config, dt).wf(),
    {
        let scene = self.scene(config, dt);
        let types = self.particle_config.num_types as int;
        assert forall|i: int| 0 <= i < scene.types.len() implies scene.types[i] < scene.forces.num_types by {
            assert(self.types@[i] == type_of_index(self.first_index + i, types));
            vstd::arithmetic::div_mod::lemma_mod_bound(self.first_index + i, types);
        }
        assert forall|i: int| 0 <= i < scene.positions.len() implies scene.positions[i].within(
            MAX_EXTENT as int,
        ) && scene.velocities[i].within(MAX_EXTENT as int) by {
            assert(self.state.positions@[i].within(config.half_extent()));
            assert(self.state.velocities@[i].within(MAX_EXTENT as int));
        }
    }

    /// Whether the world is in order for a run with the given configuration.
    pub fn is_wf(&self, config: &SimulationConfig) -> (ok: bool)
        ensures
            ok == self.wf(config),
    {
        if !config.check_physics() || !self.particle_config.is_wf() {
            return false;
        }
        let count: usize = self.types.len();
        if self.particle_config.world_size != config.world_size
            || self.particle_config.num_types as u64 != config.particle_types as u64
            || self.particle_config.num_particles as u64 != count as u64 {
            return false;
        }
        if self.state.positions.len() != count || self.state.velocities.len() != count
            || self.state.next_positions.len() != count || self.state.next_velocities.len()
            != count {
            return false;
        }
        if count > MAX_PARTICLES_PER_SIMULATION || self.first_index as u64 + count as u64
            > u32::MAX as u64 || self.food.len() > MAX_FOOD_COUNT {
            return false;
        }
        let half: i64 = config.half_world();
        let num_types: u64 = self.particle_config.num_types as u64;
        let mut k: usize = 0;
        while k < count
            invariant
                k <= count,
                count == self.types@.len(),
                count == self.state.positions@.len(),
                count == self.state.velocities@.len(),
                self.first_index + count <= u32::MAX,
                num_types == self.particle_config.num_types,
                num_types >= 1,
                half == config.half_extent(),
                0 <= half,
                forall|m: int|
                    0 <= m < k ==> #[trigger] self.types@[m] == type_of_index(
                        self.first_index + m,
                        self.particle_config.num_types as int,
                    ),
                forall|m: int|
                    0 <= m < k ==> (#[trigger] self.state.positions@[m]).within(
                        config.half_extent(),
                    ),
                forall|m: int|
                    0 <= m < k ==> (#[trigger] self.state.velocities@[m]).within(
                        MAX_EXTENT as int,
                    ),
            decreases count - k,
        {
            let dealt: u64 = (self.first_index as u64 + k as u64) % num_types;
            if self.types[k] as u64 != dealt || !self.state.positions[k].is_within(half)
                || !self.state.velocities[k].is_within(MAX_EXTENT) {
                assert(!(self.types@[k as int] == type_of_index(
                    self.first_index + k,
                    self.particle_config.num_types as int,
                ) && self.state.positions@[k as int].within(config.half_extent())
                    && self.state.velocities@[k as int].within(MAX_EXTENT as int)));
                return false;
            }
            k += 1;
        }
        let food_count: usize = self.food.len();
        let mut f: usize = 0;
        while f < food_count
            invariant
                f <= food_count,
                food_count == self.food@.len(),
                half == config.half_extent(),
                0 <= half,
                forall|m: int|
                    0 <= m < f ==> (#[trigger] self.food@[m]).wf() && self.food@[m].position.within(
                        config.half_extent(),
                    ) && self.food@[m].food.simulation_id == self.simulation.id,
            decreases food_count - f,
        {
            let item: FoodItem = self.food[f];
            let in_order: bool = item.position.is_within(MAX_EXTENT) && item.position.is_within(half)
                && 0 <= item.respawn_timer.elapsed && item.respawn_timer.elapsed
                <= item.respawn_timer.duration && 0 <= item.food.value && item.food.value
                <= MAX_EXTENT && item.food.simulation_id == self.simulation.id;
            if !in_order {
                assert(!(self.food@[f as int].wf() && self.food@[f as int].position.within(
                    config.half_extent(),
                ) && self.food@[f as int].food.simulation_id == self.simulation.id));
                return false;
            }
            f += 1;
        }
        true
    }

    /// The particle at place `slot` of the buffers.
    pub fn particle(&self, slot: usize) -> (particle: LifeParticle)
        requires
            self.first_index + self.types@.len() <= u32::MAX,
            slot < self.types@.len(),
        ensures
            particle.particle_type == self.types@[slot as int],
            particle.index == self.first_index + slot,
    {
        LifeParticle::new(self.types[slot], self.first_index + slot as u32)
    }

    /// What there is to see of the particles: each particle with its place.
    pub fn particle_snapshot(&self) -> (snapshot: Vec<(LifeParticle, Vec3)>)
        requires
            self.first_index + self.types@.len() <= u32::MAX,
            self.state.positions@.len() == self.types@.len(),
        ensures
            snapshot@.len() == self.types@.len(),
            forall|k: int|
                0 <= k < snapshot@.len() ==> (#[trigger] snapshot@[k]).0 == (LifeParticle {
                    particle_type: self.types@[k],
                    index: (self.first_index + k) as u32,
                }) && snapshot@[k].1 == self.state.positions@[k],
    {
        let count: usize = self.types.len();
        let mut snapshot: Vec<(LifeParticle, Vec3)> = Vec::new();
        let mut k: usize = 0;
        while k < count
            invariant
                k <= count,
                count == self.types@.len(),
                self.first_index + count <= u32::MAX,
                self.state.positions@.len() == count,
                snapshot@.len() == k,
                forall|m: int|
                    0 <= m < k ==> (#[trigger] snapshot@[m]).0 == (LifeParticle {
                        particle_type: self.types@[m],
                        index: (self.first_index + m) as u32,
                    }) && snapshot@[m].1 == self.state.positions@[m],
            decreases count - k,
        {
            snapshot.push((self.particle(k), self.state.positions[k]));
            k += 1;
        }
        snapshot
    }

    /// What there is to see of the food: where each item lies, and whether
    /// it is visible.
    pub fn food_snapshot(&self) -> (snapshot: Vec<(Vec3, bool)>)
        ensures
            snapshot@.len() == self.food@.len(),
            forall|f: int|
                0 <= f < snapshot@.len() ==> #[trigger] snapshot@[f] == (
                    self.food@[f].position,
                    self.food@[f].visible,
                ),
    {
        let count: usize = self.food.len();
        let mut snapshot: Vec<(Vec3, bool)> = Vec::new();
        let mut f: usize = 0;
        while f < count
            invariant
                f <= count,
                count == self.food@.len(),
                snapshot@.len() == f,
                forall|m: int|
                    0 <= m < f ==> #[trigger] snapshot@[m] == (
                        self.food@[m].position,
                        self.food@[m].visible,
                    ),
            decreases count - f,
        {
            snapshot.push((self.food[f].position, self.food[f].visible));
            f += 1;
        }
        snapshot
    }

    /// A new world with `count` particles, of which the first has the index
    /// `first_index`, and with `food_count` food items. Particles and food
    /// lie at random places; the particles have small random velocities, and
    /// types dealt out in turn by their indices; the force matrix is random.
    pub fn new(
        id: u32,
        first_index: u32,
        count: usize,
        food_count: usize,
        config: &SimulationConfig,
        generator: &mut rand::rngs::ThreadRng,
    ) -> (world: World)
        requires
            config.valid(),
            count <= MAX_PARTICLES_PER_SIMULATION,
            first_index + count <= u32::MAX,
            food_count <= MAX_FOOD_COUNT,
        ensures
            world.wf(config),
            world.freshly_seeded(config),
            world.simulation.id == id,
            world.first_index == first_index,
            world.types@.len() == count,
            world.food@.len() == food_count,
    {
        let num_types: u32 = config.particle_types as u32;
        proof {
            assert(num_types * num_types <= 1024 * 1024) by (nonlinear_arith)
                requires
                    1 <= num_types <= 1024,
            ;
        }
        let mut particle_config = ParticleConfig::new(
            count as u32,
            config.world_size,
            num_types,
            DEFAULT_PARTICLE_SIZE,
        );
        particle_config.generate_random_forces();
        let mut types: Vec<u32> = Vec::new();
        let mut positions: Vec<Vec3> = Vec::new();
        let mut velocities: Vec<Vec3> = Vec::new();
        let mut k: usize = 0;
        while k < count
            invariant
                k <= count,
                count <= MAX_PARTICLES_PER_SIMULATION,
                first_index + count <= u32::MAX,
                num_types >= 1,
                0 < config.world_size <= 2 * MAX_EXTENT,
                types@.len() == k,
                positions@.len() == k,
                velocities@.len() == k,
                forall|m: int|
                    0 <= m < k ==> #[trigger] types@[m] == type_of_index(
                        first_index + m,
                        num_types as int,
                    ),
                forall|m: int|
                    0 <= m < k ==> (#[trigger] positions@[m]).within(config.half_extent())
                        && is_random_point(positions@[m], config.world_size as int),
                forall|m: int|
                    0 <= m < k ==> (#[trigger] velocities@[m]).within(UNIT as int)
                        && is_initial_velocity(velocities@[m]),
            decreases count - k,
        {
            let index: u64 = first_index as u64 + k as u64;
            types.push((index % (num_types as u64)) as u32);
            positions.push(random_position(generator, config.world_size));
            velocities.push(random_velocity(generator));
            k += 1;
        }
        let mut food: Vec<FoodItem> = Vec::new();
        let mut f: usize = 0;
        while f < food_count
            invariant
                f <= food_count,
                0 < config.world_size <= 2 * MAX_EXTENT,
                0 <= config.food_respawn_time,
                0 <= config.food_value <= MAX_EXTENT,
                food@.len() == f,
                forall|m: int|
                    0 <= m < f ==> (#[trigger] food@[m]).wf() && food@[m].position.within(
                        config.half_extent(),
                    ) && is_random_point(food@[m].position, config.world_size as int)
                        && food@[m].food.simulation_id == id && food@[m].visible
                        && food@[m].food.value == config.food_value
                        && food@[m].respawn_timer.elapsed == 0 && food@[m].respawn_timer.duration
                        == config.food_respawn_time,
            decreases food_count - f,
        {
            let position: Vec3 = random_position(generator, config.world_size);
            food.push(FoodItem::new(config.food_value, id, position, config.food_respawn_time));
            f += 1;
        }
        let next_positions: Vec<Vec3> = copy_of(&positions);
        let next_velocities: Vec<Vec3> = copy_of(&velocities);
        let state = DoubleBuffer { positions, velocities, next_positions, next_velocities };
        World { simulation: Simulation::new(id), first_index, types, state, food, particle_config }
    }

    /// The physics of one tick: moves the particles by one step of length
    /// `dt`, and makes the result the current state.
    pub fn advance_physics(&mut self, config: &SimulationConfig, dt: i64)
        requires
            old(self).wf(config),
            0 <= dt <= MAX_TIMESTEP,
        ensures
            final(self).wf(config),
            final(self).same_but_state(old(self)),
            final(self).state.positions@ == old(self).scene(config, dt).next_positions(),
            final(self).state.velocities@ == old(self).scene(config, dt).next_velocities(),
            final(self).state.next_positions@ == old(self).state.positions@,
            final(self).state.next_velocities@ == old(self).state.velocities@,
    {
        proof {
            self.lemma_scene_wf(config, dt);
        }
        let views = self.state.begin_tick();
        let result = step(
            views.positions,
            views.velocities,
            &self.types,
            &self.particle_config,
            config,
            dt,
            views.next_positions,
            views.next_velocities,
        );
        if result.is_ok() {
            self.state.end_tick();
        }
        proof {
            assert forall|k: int| 0 <= k < self.types@.len() implies (
            #[trigger] self.state.velocities@[k]).within(MAX_EXTENT as int) by {
                let v = self.state.velocities@[k];
                lemma_components_within(
                    v.x as int,
                    v.y as int,
                    v.z as int,
                    config.max_velocity as int,
                );
            }
        }
    }

    /// One tick of length `dt`: first the physics, then the food.
    pub fn tick(&mut self, config: &SimulationConfig, dt: i64, generator: &mut rand::rngs::ThreadRng)
        requires
            old(self).wf(config),
            0 <= dt <= MAX_TIMESTEP,
        ensures
            final(self).wf(config),
            old(self).ticked_to(final(self), config, dt),
    {
        self.advance_physics(config, dt);
        handle_food_interactions(self, config, dt, generator);
    }

    /// Draws the force matrix anew. Nothing else changes.
    pub fn regenerate_forces(&mut self, config: &SimulationConfig)
        requires
            old(self).wf(config),
        ensures
            final(self).wf(config),
            final(self).same_but_forces(old(self)),
            final(self).particle_config.is_random_matrix(),
    {
        self.particle_config.generate_random_forces();
        proof {
            assert(self.types@ == old(self).types@);
        }
    }

    /// Installs the force matrix chosen by hand for the number of types, or
    /// a random one where none is known. Nothing else changes.
    pub fn set_predefined_forces(&mut self, config: &SimulationConfig)
        requires
            old(self).wf(config),
        ensures
            final(self).wf(config),
            final(self).same_but_forces(old(self)),
            old(self).particle_config.num_types == 3 ==> final(self).particle_config.force_matrix@
                == crate::particle_config::triangle_matrix(),
            old(self).particle_config.num_types == 6 ==> final(self).particle_config.is_hexagon(),
            old(self).particle_config.num_types != 3 && old(self).particle_config.num_types != 6
                ==> final(self).particle_config.is_random_matrix(),
    {
        self.particle_config.set_interesting_forces();
        proof {
            assert(self.types@ == old(self).types@);
        }
    }

    /// Puts every particle at a random point of the world, each coordinate
    /// what a draw of `[0, 1)` gives, and at rest. Types, force
    /// matrix, food and score stay as they are.
    pub fn reset_positions(&mut self, config: &SimulationConfig, generator: &mut rand::rngs::ThreadRng)
        requires
            old(self).wf(config),
        ensures
            final(self).wf(config),
            final(self).is_reset_of(old(self), config),
    {
        let count: usize = self.types.len();
        let mut k: usize = 0;
        while k < count
            invariant
                k <= count,
                count == self.types@.len(),
                self.wf(config),
                self.same_but_state(old(self)),
                self.state.next_positions == old(self).state.next_positions,
                self.state.next_velocities == old(self).state.next_velocities,
                forall|m: int|
                    0 <= m < k ==> is_random_point(
                        #[trigger] self.state.positions@[m],
                        config.world_size as int,
                    ),
                forall|m: int|
                    0 <= m < k ==> #[trigger] self.state.velocities@[m] == (Vec3 {
                        x: 0,
                        y: 0,
                        z: 0,
                    }),
            decreases count - k,
        {
            let position: Vec3 = random_position(generator, config.world_size);
            self.state.positions.set(k, position);
            self.state.velocities.set(k, Vec3::zero());
            k += 1;
        }
    }
}

/// The food of one tick of length `dt`: every food item is settled among
/// the particles where they are now. An item that a particle reaches is
/// consumed, and its value added to the score; a hidden item whose time
/// is up comes back at a random place.
pub fn handle_food_interactions(
    world: &mut World,
    config: &SimulationConfig,
    dt: i64,
    generator: &mut rand::rngs::ThreadRng,
)
    requires
        old(world).wf(config),
        0 <= dt,
    ensures
        final(world).wf(config),
        final(world).state == old(world).state,
        final(world).first_index == old(world).first_index,
        final(world).types == old(world).types,
        final(world).particle_config == old(world).particle_config,
        final(world).simulation.id == old(world).simulation.id,
        final(world).simulation.score == score_after(
            old(world).simulation.score as int,
            total_gain(
                old(world).food@,
                old(world).state.positions@,
                old(world).food@.len() as int,
            ),
        ),
        final(world).food@.len() == old(world).food@.len(),
        forall|f: int|
            0 <= f < old(world).food@.len() ==> food_settled(
                old(world).food@[f],
                #[trigger] final(world).food@[f],
                old(world).state.positions@,
                dt as int,
                config.world_size as int,
            ),
{
    let count: usize = world.food.len();
    let ghost particles = world.state.positions@;
    let mut f: usize = 0;
    while f < count
        invariant
            f <= count,
            count == world.food@.len(),
            count == old(world).food@.len(),
            0 <= dt,
            old(world).wf(config),
            world.wf(config),
            world.state == old(world).state,
            world.first_index == old(world).first_index,
            world.types == old(world).types,
            world.particle_config == old(world).particle_config,
            world.simulation.id == old(world).simulation.id,
            particles == old(world).state.positions@,
            world.simulation.score == score_after(
                old(world).simulation.score as int,
                total_gain(old(world).food@, particles, f as int),
            ),
            forall|m: int|
                0 <= m < f ==> food_settled(
                    old(world).food@[m],
                    #[trigger] world.food@[m],
                    particles,
                    dt as int,
                    config.world_size as int,
                ),
            forall|m: int| f <= m < count ==> #[trigger] world.food@[m] == old(world).food@[m],
        decreases count - f,
    {
        proof {
            lemma_total_gain_nonnegative(old(world).food@, particles, f as int);
            assert(old(world).food@[f as int].wf());
            assert(world.food@[f as int].wf());
            assert forall|i: int| 0 <= i < world.state.positions@.len() implies (
            #[trigger] world.state.positions@[i]).within(MAX_EXTENT as int) by {
                assert(world.state.positions@[i].within(config.half_extent()));
            }
        }
        let event: FoodEvent = world.food[f].advance(&world.state.positions, dt);
        match event {
            FoodEvent::Consumed => {
                let value: i64 = world.food[f].food.value;
                world.simulation.add_score(value);
                proof {
                    crate::simulation::lemma_score_after_twice(
                        old(world).simulation.score as int,
                        total_gain(old(world).food@, particles, f as int),
                        value as int,
                    );
                }
            },
            FoodEvent::Respawned => {
                let position: Vec3 = random_position(generator, config.world_size);
                world.food[f].place(position);
            },
            FoodEvent::Idle => {},
        }
        f += 1;
    }
}

} // verus!
