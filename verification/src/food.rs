//! Food: items that lie in a simulation until a particle consumes them, and
//! come back somewhere else after a while.

use vstd::prelude::*;

use crate::fixed::lemma_mul_bound;
use crate::globals::{DEFAULT_FOOD_RESPAWN_TIME, FOOD_RADIUS, MAX_EXTENT};
use crate::vec3::{squared_distance, Vec3};

verus! {

/// What a food item is worth, and the simulation that it lies in.
#[derive(Clone, Copy, Debug, PartialEq, Eq, Structural)]
pub struct Food {
    pub value: i64,
    pub simulation_id: u32,
}

/// The time that a consumed food item has been hidden, and the time after
/// which it comes back. The timer runs once: it stops when it has finished.
#[derive(Clone, Copy, Debug, PartialEq, Eq, Structural)]
pub struct FoodRespawnTimer {
    pub elapsed: i64,
    pub duration: i64,
}

/// A food item of a simulation.
#[derive(Clone, Copy, Debug, PartialEq, Eq, Structural)]
pub struct FoodItem {
    pub food: Food,
    pub position: Vec3,
    pub visible: bool,
    pub respawn_timer: FoodRespawnTimer,
}

/// What happened to a food item in one tick.
#[derive(Clone, Copy, Debug, PartialEq, Eq, Structural)]
pub enum FoodEvent {
    /// Nothing: it lies there, or it stays hidden.
    Idle,
    /// A particle consumed it. It is hidden now, and its value is owed to
    /// the score of its simulation.
    Consumed,
    /// Its time was up. It is visible again, and is owed a new position.
    Respawned,
}

/// Whether a particle at `particle` is close enough to food at `food` to
/// consume it: closer than the food radius.
pub open spec fn in_reach(food: Vec3, particle: Vec3) -> bool {
    squared_distance(food, particle) < FOOD_RADIUS * FOOD_RADIUS
}

/// Whether one of the first `upto` particles is close enough to consume food
/// at `food`.
pub open spec fn touched(food: Vec3, particles: Seq<Vec3>, upto: int) -> bool {
    exists|i: int| 0 <= i < upto && i < particles.len() && in_reach(food, #[trigger] particles[i])
}

impl FoodRespawnTimer {
    /// The time that has passed is between nothing and the whole duration.
    pub open spec fn wf(&self) -> bool {
        0 <= self.elapsed <= self.duration
    }

    /// The whole duration has passed.
    pub open spec fn finished(&self) -> bool {
        self.elapsed >= self.duration
    }

    /// The timer after `delta` more has passed: a finished timer stays as it
    /// is, and no timer goes beyond its duration.
    pub open spec fn after(&self, delta: int) -> FoodRespawnTimer {
        if self.finished() {
            *self
        } else if self.elapsed + delta >= self.duration {
            FoodRespawnTimer { elapsed: self.duration, duration: self.duration }
        } else {
            FoodRespawnTimer { elapsed: (self.elapsed + delta) as i64, duration: self.duration }
        }
    }

    /// Whether the timer finishes while `delta` more passes.
    pub open spec fn finishes_within(&self, delta: int) -> bool {
        !self.finished() && self.elapsed + delta >= self.duration
    }

    /// Whether the whole duration has passed once `delta` more has passed. A
    /// timer without a duration is due at once.
    pub open spec fn due_within(&self, delta: int) -> bool {
        self.elapsed + delta >= self.duration
    }

    /// A timer of the given duration that has not run yet. A negative
    /// duration counts as none.
    pub fn new(duration: i64) -> (timer: FoodRespawnTimer)
        ensures
            timer.wf(),
            timer.elapsed == 0,
            timer.duration == if duration < 0 {
                0
            } else {
                duration
            },
    {
        FoodRespawnTimer {
            elapsed: 0,
            duration: if duration < 0 {
                0
            } else {
                duration
            },
        }
    }

    /// Lets `delta` pass. Says whether the timer has finished just now.
    pub fn tick(&mut self, delta: i64) -> (just_finished: bool)
        requires
            old(self).wf(),
            delta >= 0,
        ensures
            *final(self) == old(self).after(delta as int),
            just_finished == old(self).finishes_within(delta as int),
            final(self).wf(),
    {
        if self.elapsed >= self.duration {
            false
        } else if delta >= self.duration - self.elapsed {
            self.elapsed = self.duration;
            true
        } else {
            self.elapsed = self.elapsed + delta;
            false
        }
    }

    /// Whether the whole duration has passed once `delta` more has passed.
    pub fn is_due(&self, delta: i64) -> (due: bool)
        requires
            self.wf(),
            delta >= 0,
        ensures
            due == self.due_within(delta as int),
    {
        delta >= self.duration - self.elapsed
    }

    /// Starts the timer anew.
    pub fn reset(&mut self)
        ensures
            final(self).elapsed == 0,
            final(self).duration == old(self).duration,
    {
        self.elapsed = 0;
    }
}

impl Default for FoodRespawnTimer {
    /// A timer of five seconds.
    fn default() -> (timer: FoodRespawnTimer)
        ensures
            timer == (FoodRespawnTimer { elapsed: 0, duration: DEFAULT_FOOD_RESPAWN_TIME }),
    {
        FoodRespawnTimer { elapsed: 0, duration: DEFAULT_FOOD_RESPAWN_TIME }
    }
}

impl FoodItem {
    /// The item lies within the limit, is worth something that is not
    /// negative, and its timer is in order.
    pub open spec fn wf(&self) -> bool {
        &&& self.position.within(MAX_EXTENT as int)
        &&& self.respawn_timer.wf()
        &&& 0 <= self.food.value <= MAX_EXTENT
    }

    /// What happens to the item in a tick of length `delta` among the given
    /// particles.
    pub open spec fn event(&self, particles: Seq<Vec3>, delta: int) -> FoodEvent {
        if self.visible {
            if touched(self.position, particles, particles.len() as int) {
                FoodEvent::Consumed
            } else {
                FoodEvent::Idle
            }
        } else if self.respawn_timer.due_within(delta) {
            FoodEvent::Respawned
        } else {
            FoodEvent::Idle
        }
    }

    /// The item after a tick of length `delta` among the given particles. An
    /// item that came back still has the position at which it was consumed.
    pub open spec fn after(&self, particles: Seq<Vec3>, delta: int) -> FoodItem {
        match self.event(particles, delta) {
            FoodEvent::Consumed => FoodItem {
                visible: false,
                respawn_timer: FoodRespawnTimer { elapsed: 0, duration: self.respawn_timer.duration },
                ..*self
            },
            FoodEvent::Respawned => FoodItem {
                visible: true,
                respawn_timer: FoodRespawnTimer { elapsed: 0, duration: self.respawn_timer.duration },
                ..*self
            },
            FoodEvent::Idle => if self.visible {
                *self
            } else {
                FoodItem { respawn_timer: self.respawn_timer.after(delta), ..*self }
            },
        }
    }

    /// What the item adds to the score of its simulation in a tick among the
    /// given particles: its value if it is consumed, else nothing.
    pub open spec fn gain(&self, particles: Seq<Vec3>) -> int {
        if self.visible && touched(self.position, particles, particles.len() as int) {
            self.food.value as int
        } else {
            0
        }
    }

    /// A visible item of the given value at the given position, with a timer
    /// of the given duration.
    pub fn new(value: i64, simulation_id: u32, position: Vec3, respawn_time: i64) -> (item:
        FoodItem)
        ensures
            item.food == (Food { value, simulation_id }),
            item.position == position,
            item.visible,
            item.respawn_timer.wf(),
            item.respawn_timer.elapsed == 0,
            item.respawn_timer.duration == if respawn_time < 0 {
                0
            } else {
                respawn_time
            },
    {
        FoodItem {
            food: Food { value, simulation_id },
            position,
            visible: true,
            respawn_timer: FoodRespawnTimer::new(respawn_time),
        }
    }

    /// Puts the item at the given place.
    pub fn place(&mut self, position: Vec3)
        ensures
            *final(self) == (FoodItem { position, ..*old(self) }),
    {
        self.position = position;
    }

    /// Lets a tick of length `delta` pass for the item among the particles at
    /// the given positions, and says what happened.
    ///
    /// A visible item is consumed if a particle is within reach. A hidden
    /// item waits; it is visible again as soon as the time that it has been
    /// hidden, with this tick, reaches its respawn time. An item without a
    /// respawn time is back in the tick after the one that consumed it.
    pub fn advance(&mut self, particles: &Vec<Vec3>, delta: i64) -> (event: FoodEvent)
        requires
            old(self).wf(),
            delta >= 0,
            forall|i: int| 0 <= i < particles@.len() ==> (#[trigger] particles@[i]).within(MAX_EXTENT as int),
        ensures
            event == old(self).event(particles@, delta as int),
            *final(self) == old(self).after(particles@, delta as int),
            final(self).wf(),
    {
        if !self.visible {
            if self.respawn_timer.is_due(delta) {
                self.visible = true;
                self.respawn_timer.reset();
                return FoodEvent::Respawned;
            }
            self.respawn_timer.tick(delta);
            return FoodEvent::Idle;
        }
        match first_in_reach(self.position, particles) {
            Some(_) => {
                self.visible = false;
                self.respawn_timer.reset();
                FoodEvent::Consumed
            },
            None => FoodEvent::Idle,
        }
    }
}

/// Whether a particle is within reach of food.
pub fn is_in_reach(food: Vec3, particle: Vec3) -> (near: bool)
    requires
        food.within(MAX_EXTENT as int),
        particle.within(MAX_EXTENT as int),
    ensures
        near == in_reach(food, particle),
{
    let dx: i128 = (particle.x - food.x) as i128;
    let dy: i128 = (particle.y - food.y) as i128;
    let dz: i128 = (particle.z - food.z) as i128;
    proof {
        lemma_mul_bound(dx as int, dx as int, 2 * MAX_EXTENT, 2 * MAX_EXTENT);
        lemma_mul_bound(dy as int, dy as int, 2 * MAX_EXTENT, 2 * MAX_EXTENT);
        lemma_mul_bound(dz as int, dz as int, 2 * MAX_EXTENT, 2 * MAX_EXTENT);
    }
    let radius: i128 = FOOD_RADIUS as i128;
    dx * dx + dy * dy + dz * dz < radius * radius
}

/// The first of the particles that is within reach of food at `food`, if
/// there is one.
pub fn first_in_reach(food: Vec3, particles: &Vec<Vec3>) -> (found: Option<usize>)
    requires
        food.within(MAX_EXTENT as int),
        forall|i: int| 0 <= i < particles@.len() ==> (#[trigger] particles@[i]).within(MAX_EXTENT as int),
    ensures
        found is Some <==> touched(food, particles@, particles@.len() as int),
        found matches Some(i) ==> i < particles@.len() && in_reach(food, particles@[i as int])
            && !touched(food, particles@, i as int),
{
    let mut i: usize = 0;
    while i < particles.len()
        invariant
            i <= particles@.len(),
            food.within(MAX_EXTENT as int),
            forall|m: int|
                0 <= m < particles@.len() ==> (#[trigger] particles@[m]).within(MAX_EXTENT as int),
            !touched(food, particles@, i as int),
        decreases particles@.len() - i,
    {
        if is_in_reach(food, particles[i]) {
            return Some(i);
        }
        i += 1;
    }
    None
}

/// The item after a run of ticks: tick `n` has the length `deltas[n]` and
/// finds the particles at `particles[n]`.
pub open spec fn after_ticks(item: FoodItem, particles: Seq<Seq<Vec3>>, deltas: Seq<int>) -> FoodItem
    decreases deltas.len(),
{
    if deltas.len() == 0 {
        item
    } else {
        after_ticks(item, particles.drop_last(), deltas.drop_last()).after(
            particles.last(),
            deltas.last(),
        )
    }
}

/// The time that a run of ticks takes.
pub open spec fn total_time(deltas: Seq<int>) -> int
    decreases deltas.len(),
{
    if deltas.len() == 0 {
        0
    } else {
        total_time(deltas.drop_last()) + deltas.last()
    }
}

/// A visible item that a particle reaches is consumed in that tick: it is
/// worth its value to the score, and is hidden afterwards. A hidden item is
/// worth nothing wherever the particles are, so an item is consumed once
/// only while it is visible.
pub proof fn lemma_consumed_once(item: FoodItem, particles: Seq<Vec3>, later: Seq<Vec3>, delta: int)
    requires
        item.visible,
        touched(item.position, particles, particles.len() as int),
    ensures
        item.event(particles, delta) == FoodEvent::Consumed,
        item.gain(particles) == item.food.value,
        !item.after(particles, delta).visible,
        item.after(particles, delta).respawn_timer.elapsed == 0,
        item.after(particles, delta).gain(later) == 0,
        item.after(particles, delta).event(later, delta) != FoodEvent::Consumed,
{
}

/// A hidden item stays hidden until its time is up: after a run of ticks
/// that together take less than what is left of its respawn time it is
/// still hidden, wherever the particles are.
pub proof fn lemma_hidden_until_due(item: FoodItem, particles: Seq<Seq<Vec3>>, deltas: Seq<int>)
    requires
        !item.visible,
        item.respawn_timer.wf(),
        particles.len() == deltas.len(),
        forall|n: int| 0 <= n < deltas.len() ==> 0 <= #[trigger] deltas[n] <= i64::MAX,
        item.respawn_timer.elapsed + total_time(deltas) < item.respawn_timer.duration,
    ensures
        !after_ticks(item, particles, deltas).visible,
        after_ticks(item, particles, deltas).respawn_timer.elapsed == item.respawn_timer.elapsed
            + total_time(deltas),
        after_ticks(item, particles, deltas).respawn_timer.duration == item.respawn_timer.duration,
        after_ticks(item, particles, deltas).position == item.position,
        0 <= total_time(deltas),
    decreases deltas.len(),
{
    if deltas.len() > 0 {
        lemma_total_time_nonnegative(deltas.drop_last());
        lemma_hidden_until_due(item, particles.drop_last(), deltas.drop_last());
    }
}

/// A run of ticks takes no negative time.
pub proof fn lemma_total_time_nonnegative(deltas: Seq<int>)
    requires
        forall|n: int| 0 <= n < deltas.len() ==> 0 <= #[trigger] deltas[n],
    ensures
        0 <= total_time(deltas),
    decreases deltas.len(),
{
    if deltas.len() > 0 {
        lemma_total_time_nonnegative(deltas.drop_last());
    }
}

/// A hidden item comes back in the tick in which its time is up, whatever
/// its respawn time is.
pub proof fn lemma_respawns_when_due(item: FoodItem, particles: Seq<Vec3>, delta: int)
    requires
        !item.visible,
        item.respawn_timer.elapsed + delta >= item.respawn_timer.duration,
    ensures
        item.event(particles, delta) == FoodEvent::Respawned,
        item.after(particles, delta).visible,
        item.after(particles, delta).respawn_timer.elapsed == 0,
{
}

} // verus!
