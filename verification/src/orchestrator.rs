//! The set of worlds that run side by side.
//!
//! The particles and the food items of a run are shared out among the worlds
//! as evenly as can be: every world gets the same number, and the first
//! worlds get one more each until the remainder is used up. The particles of
//! all worlds are numbered in one sequence, each world owning a stretch of
//! it. A tick advances every world on its own.

use vstd::prelude::*;

use crate::error::ConfigError;
use crate::game_state::GameState;
use crate::globals::{
    MAX_PARTICLES_PER_SIMULATION, MAX_SIMULATION_COUNT, MAX_TICK_INTERVAL, MAX_TIMESTEP,
    MIN_TICK_INTERVAL, PHYSICS_TIMESTEP,
};
use crate::simulation_config::SimulationConfig;
use crate::world::World;

verus! {

/// The worlds of a run, with the configuration that they were built from and
/// the pace at which they tick.
pub struct Orchestrator {
    pub config: SimulationConfig,
    pub worlds: Vec<World>,
    pub state: GameState,
    /// The time that has passed since the last tick was due.
    pub update_timer: i64,
    /// The time from one tick to the next. It sets how often a tick is made,
    /// never how long a tick is.
    pub tick_interval: i64,
}

/// How many of `total` things the world `w` of `parts` worlds gets.
pub open spec fn share(total: int, parts: int, w: int) -> int {
    total / parts + if w < total % parts {
        1int
    } else {
        0int
    }
}

/// How many of `total` things the worlds before the world `w` get together:
/// the number of the first thing of the world `w`.
pub open spec fn first_of(total: int, parts: int, w: int) -> int {
    w * (total / parts) + if w < total % parts {
        w
    } else {
        total % parts
    }
}

/// The stretches of the worlds follow one another without a gap, from
/// nothing up to the total: they share out all things, and no thing twice.
pub proof fn lemma_shares_partition(total: int, parts: int, w: int)
    requires
        0 <= total,
        0 < parts,
        0 <= w < parts,
    ensures
        first_of(total, parts, 0) == 0,
        first_of(total, parts, parts) == total,
        first_of(total, parts, w + 1) == first_of(total, parts, w) + share(total, parts, w),
        total / parts <= share(total, parts, w) <= total / parts + 1,
        0 <= first_of(total, parts, w),
        first_of(total, parts, w) + share(total, parts, w) <= total,
{
    let base = total / parts;
    let rest = total % parts;
    vstd::arithmetic::div_mod::lemma_fundamental_div_mod(total, parts);
    vstd::arithmetic::div_mod::lemma_mod_bound(total, parts);
    vstd::arithmetic::div_mod::lemma_div_pos_is_pos(total, parts);
    assert(total == parts * base + rest);
    assert(0 * base == 0);
    assert((w + 1) * base == w * base + base) by (nonlinear_arith);
    assert(parts * base == (w + 1) * base + (parts - w - 1) * base) by (nonlinear_arith);
    assert(w * base >= 0 && (parts - w - 1) * base >= 0) by (nonlinear_arith)
        requires
            0 <= w < parts,
            0 <= base,
    ;
}

/// Worlds do not overlap: a world ends before a later world begins.
pub proof fn lemma_shares_disjoint(total: int, parts: int, v: int, w: int)
    requires
        0 <= total,
        0 < parts,
        0 <= v < w < parts,
    ensures
        first_of(total, parts, v) + share(total, parts, v) <= first_of(total, parts, w),
    decreases w - v,
{
    lemma_shares_partition(total, parts, v);
    if v + 1 < w {
        lemma_shares_disjoint(total, parts, v + 1, w);
        lemma_shares_partition(total, parts, v + 1);
    }
}

/// How many of `total` things the world `w` of `parts` worlds gets.
pub fn share_of(total: usize, parts: usize, w: usize) -> (count: usize)
    requires
        0 < parts,
        w < parts,
    ensures
        count == share(total as int, parts as int, w as int),
{
    proof {
        lemma_shares_partition(total as int, parts as int, w as int);
    }
    if w < total % parts {
        total / parts + 1
    } else {
        total / parts
    }
}

/// The number of the first of `total` things that the world `w` of `parts`
/// worlds gets.
pub fn first_index_of(total: usize, parts: usize, w: usize) -> (first: usize)
    requires
        0 < parts,
        w < parts,
    ensures
        first == first_of(total as int, parts as int, w as int),
{
    proof {
        lemma_shares_partition(total as int, parts as int, w as int);
        assert(w * (total / parts) >= 0) by (nonlinear_arith)
            requires
                0 <= w,
                0 <= total / parts,
        ;
    }
    let rest: usize = total % parts;
    w * (total / parts) + if w < rest {
        w
    } else {
        rest
    }
}

/// A tick interval, kept within its limits.
pub open spec fn clamped_interval(interval: i64) -> i64 {
    if interval < MIN_TICK_INTERVAL {
        MIN_TICK_INTERVAL
    } else if interval > MAX_TICK_INTERVAL {
        MAX_TICK_INTERVAL
    } else {
        interval
    }
}

impl Orchestrator {
    /// The worlds are in order, as many as the configuration asks for, and
    /// each owns its share of the particles and of the food.
    pub open spec fn wf(&self) -> bool {
        &&& self.config.valid()
        &&& self.config.particles_per_simulation == self.config.particle_count
            / self.config.simulation_count
        &&& self.worlds@.len() == self.config.simulation_count
        &&& 0 <= self.update_timer
        &&& MIN_TICK_INTERVAL <= self.tick_interval <= MAX_TICK_INTERVAL
        &&& forall|w: int|
            0 <= w < self.worlds@.len() ==> (#[trigger] self.worlds@[w]).wf(&self.config)
                && self.worlds@[w].simulation.id == w && self.worlds@[w].first_index == first_of(
                self.config.particle_count as int,
                self.config.simulation_count as int,
                w,
            ) && self.worlds@[w].types@.len() == share(
                self.config.particle_count as int,
                self.config.simulation_count as int,
                w,
            ) && self.worlds@[w].food@.len() == share(
                self.config.food_count as int,
                self.config.simulation_count as int,
                w,
            )
    }

    /// Nothing but the worlds differs between the two, and they are as many.
    pub open spec fn same_frame(&self, other: &Orchestrator) -> bool {
        &&& self.config == other.config
        &&& self.state == other.state
        &&& self.update_timer == other.update_timer
        &&& self.tick_interval == other.tick_interval
        &&& self.worlds@.len() == other.worlds@.len()
    }

    /// Whether the set `self` before a tick of length `dt` can be the set
    /// `after` it. While the run is held or still loading, a tick changes
    /// nothing. Else every world is ticked, each on its own.
    pub open spec fn ticked_to(&self, after: &Orchestrator, dt: i64) -> bool {
        &&& after.same_frame(self)
        &&& if self.state.advances() {
            forall|w: int|
                0 <= w < self.worlds@.len() ==> self.worlds@[w].ticked_to(
                    #[trigger] &after.worlds@[w],
                    &self.config,
                    dt,
                )
        } else {
            after.worlds@ == self.worlds@
        }
    }

    /// Whether `count` ticks of length `dt` can lead from the set `self` to
    /// the set `after`.
    pub open spec fn reaches(&self, after: &Orchestrator, dt: i64, count: nat) -> bool
        decreases count,
    {
        if count == 0 {
            after == self
        } else {
            exists|middle: Orchestrator|
                self.reaches(&middle, dt, (count - 1) as nat) && #[trigger] middle.ticked_to(
                    after,
                    dt,
                )
        }
    }

    /// Whether the set of worlds is in order.
    pub fn is_wf(&self) -> (ok: bool)
        ensures
            ok == self.wf(),
    {
        if self.config.validate().is_err() {
            return false;
        }
        let count: usize = self.config.simulation_count;
        if self.config.particles_per_simulation != self.config.particle_count / count
            || self.worlds.len() != count || self.update_timer < 0 || self.tick_interval
            < MIN_TICK_INTERVAL || self.tick_interval > MAX_TICK_INTERVAL {
            return false;
        }
        let mut w: usize = 0;
        while w < count
            invariant
                w <= count,
                count == self.worlds@.len(),
                count == self.config.simulation_count,
                0 < count,
                forall|v: int|
                    0 <= v < w ==> (#[trigger] self.worlds@[v]).wf(&self.config)
                        && self.worlds@[v].simulation.id == v && self.worlds@[v].first_index
                        == first_of(self.config.particle_count as int, count as int, v)
                        && self.worlds@[v].types@.len() == share(
                        self.config.particle_count as int,
                        count as int,
                        v,
                    ) && self.worlds@[v].food@.len() == share(
                        self.config.food_count as int,
                        count as int,
                        v,
                    ),
            decreases count - w,
        {
            let world: &World = &self.worlds[w];
            let in_order: bool = world.is_wf(&self.config) && world.simulation.id as u64 == w as u64
                && world.first_index as u64 == first_index_of(self.config.particle_count, count, w) as u64
                && world.types.len() == share_of(self.config.particle_count, count, w)
                && world.food.len() == share_of(self.config.food_count, count, w);
            if !in_order {
                assert(!(self.worlds@[w as int].wf(&self.config) && self.worlds@[w as int].simulation.id
                    == w && self.worlds@[w as int].first_index == first_of(
                    self.config.particle_count as int,
                    count as int,
                    w as int,
                ) && self.worlds@[w as int].types@.len() == share(
                    self.config.particle_count as int,
                    count as int,
                    w as int,
                ) && self.worlds@[w as int].food@.len() == share(
                    self.config.food_count as int,
                    count as int,
                    w as int,
                )));
                return false;
            }
            w += 1;
        }
        true
    }

    /// The score of a world, if there is such a world.
    pub fn score(&self, world_id: usize) -> (score: Option<i64>)
        ensures
            score == if world_id < self.worlds@.len() {
                Some(self.worlds@[world_id as int].simulation.score)
            } else {
                None
            },
    {
        if world_id < self.worlds.len() {
            Some(self.worlds[world_id].simulation.score)
        } else {
            None
        }
    }

    /// The coefficient of the force that a particle of type `type_a` feels
    /// from one of type `type_b` in a world, if there are such a world and
    /// such types.
    pub fn get_force(&self, world_id: usize, type_a: u32, type_b: u32) -> (force: Option<i64>)
        requires
            self.wf(),
        ensures
            force == if world_id < self.worlds@.len() && type_a < self.config.particle_types
                && type_b < self.config.particle_types {
                Some(
                    self.worlds@[world_id as int].particle_config.force(
                        type_a as int,
                        type_b as int,
                    ) as i64,
                )
            } else {
                None
            },
    {
        if world_id >= self.worlds.len() {
            return None;
        }
        assert(self.worlds@[world_id as int].wf(&self.config));
        let forces = &self.worlds[world_id].particle_config;
        if type_a < forces.num_types && type_b < forces.num_types {
            Some(forces.get_force(type_a, type_b))
        } else {
            None
        }
    }

    /// The pause key: holds a run, or lets a held run go on. While the set is
    /// loading, nothing happens.
    pub fn handle_input(&mut self)
        ensures
            final(self).state == old(self).state.toggled(),
            final(self).config == old(self).config,
            final(self).worlds == old(self).worlds,
            final(self).update_timer == old(self).update_timer,
            final(self).tick_interval == old(self).tick_interval,
    {
        self.state = self.state.toggle_pause();
    }

    /// One tick of length `dt` for every world. While the run is held or
    /// still loading, nothing happens.
    pub fn tick(&mut self, dt: i64)
        requires
            old(self).wf(),
            0 <= dt <= MAX_TIMESTEP,
        ensures
            final(self).wf(),
            old(self).ticked_to(final(self), dt),
    {
        if !self.state.is_running() {
            return ;
        }
        let mut generator = rand::rng();
        let count: usize = self.worlds.len();
        let mut w: usize = 0;
        while w < count
            invariant
                w <= count,
                count == self.worlds@.len(),
                0 <= dt <= MAX_TIMESTEP,
                old(self).wf(),
                old(self).state.advances(),
                self.same_frame(old(self)),
                forall|v: int|
                    0 <= v < w ==> old(self).worlds@[v].ticked_to(
                        #[trigger] &self.worlds@[v],
                        &self.config,
                        dt,
                    ) && self.worlds@[v].wf(&self.config),
                forall|v: int| w <= v < count ==> #[trigger] self.worlds@[v] == old(self).worlds@[v],
            decreases count - w,
        {
            assert(old(self).worlds@[w as int].wf(&self.config));
            self.worlds[w].tick(&self.config, dt, &mut generator);
            w += 1;
        }
        proof {
            assert forall|v: int| 0 <= v < self.worlds@.len() implies (#[trigger] self.worlds@[v]).wf(
                &self.config,
            ) && self.worlds@[v].simulation.id == v && self.worlds@[v].first_index == first_of(
                self.config.particle_count as int,
                self.config.simulation_count as int,
                v,
            ) && self.worlds@[v].types@.len() == share(
                self.config.particle_count as int,
                self.config.simulation_count as int,
                v,
            ) && self.worlds@[v].food@.len() == share(
                self.config.food_count as int,
                self.config.simulation_count as int,
                v,
            ) by {
                assert(old(self).worlds@[v].ticked_to(&self.worlds@[v], &self.config, dt));
                assert(old(self).worlds@[v].wf(&old(self).config));
            }
        }
    }

    /// Ticks `count` times, each tick of length `dt`.
    pub fn run(&mut self, count: u32, dt: i64)
        requires
            old(self).wf(),
            0 <= dt <= MAX_TIMESTEP,
        ensures
            final(self).wf(),
            old(self).reaches(final(self), dt, count as nat),
            count == 0 ==> *final(self) == *old(self),
    {
        let mut done: u32 = 0;
        while done < count
            invariant
                done <= count,
                0 <= dt <= MAX_TIMESTEP,
                self.wf(),
                old(self).reaches(self, dt, done as nat),
            decreases count - done,
        {
            let ghost middle = *self;
            self.tick(dt);
            proof {
                assert(old(self).reaches(&middle, dt, done as nat) && middle.ticked_to(self, dt));
            }
            done += 1;
        }
    }

    /// Lets the time `frame_delta` of one frame pass. Ticks recur at a fixed
    /// rate: when the time that has passed since the last tick was due
    /// reaches the tick interval, one tick of the length of the physics time
    /// step is made, however much time has passed. Says whether one was
    /// made. While the run is held or still loading, no time passes.
    ///
    /// `ready` says whether what computes the tick can take work now. If it
    /// cannot when a tick is due, that tick is left out and nothing waits for
    /// it: the next tick is made when it is due.
    pub fn update_particle_simulation(&mut self, frame_delta: i64, ready: bool) -> (ticked: bool)
        requires
            old(self).wf(),
            0 <= frame_delta,
        ensures
            final(self).wf(),
            ticked == (old(self).state.advances() && ready && old(self).update_timer + frame_delta
                >= old(self).tick_interval),
            !old(self).state.advances() ==> *final(self) == *old(self),
            old(self).state.advances() ==> final(self).update_timer == (old(self).update_timer
                + frame_delta) % (old(self).tick_interval as int),
            ticked ==> (Orchestrator {
                update_timer: final(self).update_timer,
                ..*old(self)
            }).ticked_to(final(self), PHYSICS_TIMESTEP),
            !ticked ==> final(self).worlds == old(self).worlds && final(self).config == old(self).config
                && final(self).state == old(self).state && final(self).tick_interval == old(self).tick_interval,
    {
        if !self.state.is_running() {
            return false;
        }
        let passed: i128 = self.update_timer as i128 + frame_delta as i128;
        let interval: i128 = self.tick_interval as i128;
        let due: bool = passed >= interval;
        proof {
            vstd::arithmetic::div_mod::lemma_mod_bound(passed as int, interval as int);
        }
        self.update_timer = (passed % interval) as i64;
        if due && ready {
            self.tick(PHYSICS_TIMESTEP);
            true
        } else {
            false
        }
    }

    /// Sets the time from one tick to the next, kept within its limits.
    /// Nothing else changes: a tick is as long as before.
    pub fn set_tick_interval(&mut self, interval: i64)
        ensures
            final(self).tick_interval == clamped_interval(interval),
            final(self).config == old(self).config,
            final(self).worlds == old(self).worlds,
            final(self).state == old(self).state,
            final(self).update_timer == old(self).update_timer,
            old(self).wf() ==> final(self).wf(),
    {
        self.tick_interval = if interval < MIN_TICK_INTERVAL {
            MIN_TICK_INTERVAL
        } else if interval > MAX_TICK_INTERVAL {
            MAX_TICK_INTERVAL
        } else {
            interval
        };
    }

    /// Makes ticks twice as frequent, as far as the limit allows.
    pub fn speed_up(&mut self)
        requires
            old(self).wf(),
        ensures
            final(self).tick_interval == clamped_interval((old(self).tick_interval / 2) as i64),
            final(self).config == old(self).config,
            final(self).worlds == old(self).worlds,
            final(self).state == old(self).state,
            final(self).update_timer == old(self).update_timer,
            final(self).wf(),
    {
        let interval: i64 = self.tick_interval / 2;
        self.set_tick_interval(interval);
    }

    /// Makes ticks half as frequent, as far as the limit allows.
    pub fn slow_down(&mut self)
        requires
            old(self).wf(),
        ensures
            final(self).tick_interval == clamped_interval((old(self).tick_interval * 2) as i64),
            final(self).config == old(self).config,
            final(self).worlds == old(self).worlds,
            final(self).state == old(self).state,
            final(self).update_timer == old(self).update_timer,
            final(self).wf(),
    {
        let interval: i64 = self.tick_interval * 2;
        self.set_tick_interval(interval);
    }

    /// Ends loading: the run begins.
    pub fn finished_loading(&mut self)
        ensures
            final(self).state == old(self).state.loaded(),
            final(self).config == old(self).config,
            final(self).worlds == old(self).worlds,
            final(self).update_timer == old(self).update_timer,
            final(self).tick_interval == old(self).tick_interval,
    {
        self.state = self.state.finish_loading();
    }

    /// Draws the force matrix of one world anew. No other world changes.
    pub fn regenerate_forces(&mut self, world_id: usize) -> (result: Result<(), ConfigError>)
        requires
            old(self).wf(),
        ensures
            final(self).wf(),
            final(self).same_frame(old(self)),
            world_id >= old(self).worlds@.len() ==> result == Err::<(), ConfigError>(
                ConfigError::NoSuchSimulation,
            ) && *final(self) == *old(self),
            world_id < old(self).worlds@.len() ==> result is Ok && final(self).worlds@[world_id as int].same_but_forces(&old(self).worlds@[world_id as int])
                && final(self).worlds@[world_id as int].particle_config.is_random_matrix(),
            forall|w: int|
                0 <= w < old(self).worlds@.len() && w != world_id ==> #[trigger] final(self).worlds@[w] == old(self).worlds@[w],
    {
        if world_id >= self.worlds.len() {
            return Err(ConfigError::NoSuchSimulation);
        }
        self.worlds[world_id].regenerate_forces(&self.config);
        proof {
            assert forall|w: int| 0 <= w < self.worlds@.len() implies (#[trigger] self.worlds@[w]).wf(
                &self.config,
            ) by {
                assert(old(self).worlds@[w].wf(&self.config));
            }
        }
        Ok(())
    }

    /// Installs in one world the force matrix chosen by hand for its number
    /// of types, or a random one where none is known. No other world changes.
    pub fn set_predefined_forces(&mut self, world_id: usize) -> (result: Result<(), ConfigError>)
        requires
            old(self).wf(),
        ensures
            final(self).wf(),
            final(self).same_frame(old(self)),
            world_id >= old(self).worlds@.len() ==> result == Err::<(), ConfigError>(
                ConfigError::NoSuchSimulation,
            ) && *final(self) == *old(self),
            world_id < old(self).worlds@.len() ==> result is Ok && final(self).worlds@[world_id as int].same_but_forces(&old(self).worlds@[world_id as int]),
            world_id < old(self).worlds@.len() && old(self).config.particle_types == 3 ==> final(self).worlds@[world_id as int].particle_config.force_matrix@
                == crate::particle_config::triangle_matrix(),
            world_id < old(self).worlds@.len() && old(self).config.particle_types == 6 ==> final(self).worlds@[world_id as int].particle_config.is_hexagon(),
            world_id < old(self).worlds@.len() && old(self).config.particle_types != 3 && old(self).config.particle_types != 6 ==> final(self).worlds@[world_id as int].particle_config.is_random_matrix(),
            forall|w: int|
                0 <= w < old(self).worlds@.len() && w != world_id ==> #[trigger] final(self).worlds@[w] == old(self).worlds@[w],
    {
        if world_id >= self.worlds.len() {
            return Err(ConfigError::NoSuchSimulation);
        }
        self.worlds[world_id].set_predefined_forces(&self.config);
        proof {
            assert forall|w: int| 0 <= w < self.worlds@.len() implies (#[trigger] self.worlds@[w]).wf(
                &self.config,
            ) by {
                assert(old(self).worlds@[w].wf(&self.config));
            }
        }
        Ok(())
    }

    /// Puts every particle of one world at a random point of the world and at
    /// rest. Its types, force matrix, food and score stay, and no other world
    /// changes.
    pub fn reset_positions(&mut self, world_id: usize) -> (result: Result<(), ConfigError>)
        requires
            old(self).wf(),
        ensures
            final(self).wf(),
            final(self).same_frame(old(self)),
            world_id >= old(self).worlds@.len() ==> result == Err::<(), ConfigError>(
                ConfigError::NoSuchSimulation,
            ) && *final(self) == *old(self),
            world_id < old(self).worlds@.len() ==> result is Ok && final(self).worlds@[world_id as int].is_reset_of(
                &old(self).worlds@[world_id as int],
                &old(self).config,
            ),
            forall|w: int|
                0 <= w < old(self).worlds@.len() && w != world_id ==> #[trigger] final(self).worlds@[w] == old(self).worlds@[w],
    {
        if world_id >= self.worlds.len() {
            return Err(ConfigError::NoSuchSimulation);
        }
        let mut generator = rand::rng();
        self.worlds[world_id].reset_positions(&self.config, &mut generator);
        proof {
            assert forall|w: int| 0 <= w < self.worlds@.len() implies (#[trigger] self.worlds@[w]).wf(
                &self.config,
            ) by {
                assert(old(self).worlds@[w].wf(&self.config));
            }
        }
        Ok(())
    }
}

/// Builds the worlds that a configuration asks for, or says what is wrong
/// with it. The set is still loading: `finished_loading` begins the run.
pub fn setup_simulations(config: &SimulationConfig) -> (result: Result<Orchestrator, ConfigError>)
    ensures
        match config.violation() {
            Some(fault) => result is Err && result->Err_0 == fault,
            None => result is Ok && result->Ok_0.wf() && result->Ok_0.state == GameState::Loading
                && result->Ok_0.update_timer == 0 && result->Ok_0.tick_interval == PHYSICS_TIMESTEP
                && result->Ok_0.config == (SimulationConfig {
                particles_per_simulation: config.particle_count / config.simulation_count,
                ..*config
            }) && forall|w: int|
                0 <= w < result->Ok_0.worlds@.len() ==> (#[trigger] result->Ok_0.worlds@[w]).freshly_seeded(
                    &result->Ok_0.config,
                ),
        },
{
    match config.validate() {
        Err(fault) => {
            return Err(fault);
        },
        Ok(()) => {},
    }
    let count: usize = config.simulation_count;
    let settled = SimulationConfig {
        particles_per_simulation: config.particle_count / count,
        ..*config
    };
    let mut generator = rand::rng();
    let mut worlds: Vec<World> = Vec::new();
    let mut w: usize = 0;
    while w < count
        invariant
            w <= count,
            count == settled.simulation_count,
            settled.valid(),
            worlds@.len() == w,
            forall|v: int|
                0 <= v < w ==> (#[trigger] worlds@[v]).wf(&settled) && worlds@[v].simulation.id == v
                    && worlds@[v].freshly_seeded(&settled) && worlds@[v].first_index == first_of(
                    settled.particle_count as int,
                    count as int,
                    v,
                ) && worlds@[v].types@.len() == share(settled.particle_count as int, count as int, v)
                    && worlds@[v].food@.len() == share(settled.food_count as int, count as int, v),
        decreases count - w,
    {
        proof {
            lemma_shares_partition(settled.particle_count as int, count as int, w as int);
            lemma_shares_partition(settled.food_count as int, count as int, w as int);
            let base = settled.particle_count as int / count as int;
            vstd::arithmetic::div_mod::lemma_fundamental_div_mod(
                settled.particle_count as int,
                count as int,
            );
            vstd::arithmetic::div_mod::lemma_mod_bound(settled.particle_count as int, count as int);
            assert(count * base <= MAX_SIMULATION_COUNT * MAX_PARTICLES_PER_SIMULATION)
                by (nonlinear_arith)
                requires
                    0 < count <= MAX_SIMULATION_COUNT,
                    0 <= base < MAX_PARTICLES_PER_SIMULATION,
            ;
        }
        let first: usize = first_index_of(settled.particle_count, count, w);
        let particles: usize = share_of(settled.particle_count, count, w);
        let food: usize = share_of(settled.food_count, count, w);
        let world = World::new(w as u32, first as u32, particles, food, &settled, &mut generator);
        worlds.push(world);
        w += 1;
    }
    Ok(
        Orchestrator {
            config: settled,
            worlds,
            state: GameState::Loading,
            update_timer: 0,
            tick_interval: PHYSICS_TIMESTEP,
        },
    )
}

/// Worlds are independent. Take a set of worlds, and the same set after the
/// force matrix, or anything else, of other worlds was changed. Tick both.
/// Then the world that was not changed has the same positions, the same
/// velocities and the same score in both.
pub proof fn lemma_worlds_independent(
    before: Orchestrator,
    changed: Orchestrator,
    after: Orchestrator,
    after_changed: Orchestrator,
    dt: i64,
    b: int,
)
    requires
        0 <= b < before.worlds@.len(),
        changed.same_frame(&before),
        changed.worlds@[b] == before.worlds@[b],
        before.ticked_to(&after, dt),
        changed.ticked_to(&after_changed, dt),
    ensures
        after.worlds@[b].state.positions@ == after_changed.worlds@[b].state.positions@,
        after.worlds@[b].state.velocities@ == after_changed.worlds@[b].state.velocities@,
        after.worlds@[b].simulation == after_changed.worlds@[b].simulation,
{
    if before.state.advances() {
        assert(before.worlds@[b].ticked_to(&after.worlds@[b], &before.config, dt));
        assert(changed.worlds@[b].ticked_to(&after_changed.worlds@[b], &changed.config, dt));
    }
}

/// Without a tick nothing changes: the state that was seeded is the state
/// that is read until the first tick.
pub proof fn lemma_no_tick_no_change(before: Orchestrator, after: Orchestrator, dt: i64)
    requires
        before.reaches(&after, dt, 0),
    ensures
        after == before,
{
}

} // verus!
