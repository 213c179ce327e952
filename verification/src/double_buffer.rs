//! The state of the particles of one simulation, held twice.
//!
//! One pair of buffers, the current one, holds the positions and velocities
//! that everybody may read. The other pair, the next one, is what a step
//! writes. A step never reads what it has written, so no particle sees a
//! neighbour that has already moved. At the end of the step the two pairs
//! change places, which copies nothing.

use vstd::prelude::*;

use crate::error::KernelError;
use crate::vec3::Vec3;

verus! {

/// The current state of the particles and room for the next one.
pub struct DoubleBuffer {
    /// The current positions.
    pub positions: Vec<Vec3>,
    /// The current velocities.
    pub velocities: Vec<Vec3>,
    /// Room for the positions after the step.
    pub next_positions: Vec<Vec3>,
    /// Room for the velocities after the step.
    pub next_velocities: Vec<Vec3>,
}

/// What a step works on: the current pair to read, the next pair to write.
pub struct TickViews<'a> {
    pub positions: &'a Vec<Vec3>,
    pub velocities: &'a Vec<Vec3>,
    pub next_positions: &'a mut Vec<Vec3>,
    pub next_velocities: &'a mut Vec<Vec3>,
}

/// A copy of `source`.
pub fn copy_of(source: &Vec<Vec3>) -> (copy: Vec<Vec3>)
    ensures
        copy@ == source@,
{
    let mut copy: Vec<Vec3> = Vec::new();
    let mut i: usize = 0;
    while i < source.len()
        invariant
            i <= source@.len(),
            copy@ == source@.take(i as int),
        decreases source@.len() - i,
    {
        copy.push(source[i]);
        assert(source@.take(i + 1) == source@.take(i as int).push(source@[i as int]));
        i += 1;
    }
    assert(source@.take(source@.len() as int) == source@);
    copy
}

impl DoubleBuffer {
    /// The four buffers have one length.
    pub open spec fn wf(&self) -> bool {
        &&& self.velocities@.len() == self.positions@.len()
        &&& self.next_positions@.len() == self.positions@.len()
        &&& self.next_velocities@.len() == self.positions@.len()
    }

    /// The number of particles.
    pub open spec fn count(&self) -> nat {
        self.positions@.len()
    }

    /// Holds the given positions and velocities as the current state. They
    /// must be as many of the one as of the other.
    pub fn new(positions: Vec<Vec3>, velocities: Vec<Vec3>) -> (result: Result<
        DoubleBuffer,
        KernelError,
    >)
        ensures
            positions@.len() != velocities@.len() ==> result == Err::<DoubleBuffer, KernelError>(
                KernelError::LengthMismatch,
            ),
            positions@.len() == velocities@.len() ==> result is Ok && result->Ok_0.wf()
                && result->Ok_0.positions@ == positions@ && result->Ok_0.velocities@
                == velocities@ && result->Ok_0.next_positions@ == positions@
                && result->Ok_0.next_velocities@ == velocities@,
    {
        if positions.len() != velocities.len() {
            return Err(KernelError::LengthMismatch);
        }
        let next_positions: Vec<Vec3> = copy_of(&positions);
        let next_velocities: Vec<Vec3> = copy_of(&velocities);
        Ok(DoubleBuffer { positions, velocities, next_positions, next_velocities })
    }

    /// The number of particles.
    pub fn len(&self) -> (count: usize)
        ensures
            count == self.count(),
    {
        self.positions.len()
    }

    /// Hands out the current pair to read and the next pair to write.
    pub fn begin_tick(&mut self) -> (views: TickViews<'_>)
        ensures
            *views.positions == old(self).positions,
            *views.velocities == old(self).velocities,
            *views.next_positions == old(self).next_positions,
            *views.next_velocities == old(self).next_velocities,
            final(self).positions == old(self).positions,
            final(self).velocities == old(self).velocities,
            final(self).next_positions == *final(views.next_positions),
            final(self).next_velocities == *final(views.next_velocities),
    {
        TickViews {
            positions: &self.positions,
            velocities: &self.velocities,
            next_positions: &mut self.next_positions,
            next_velocities: &mut self.next_velocities,
        }
    }

    /// Makes the next pair the current one, and the current pair the next
    /// one. Nothing is copied.
    pub fn end_tick(&mut self)
        ensures
            final(self).positions == old(self).next_positions,
            final(self).velocities == old(self).next_velocities,
            final(self).next_positions == old(self).positions,
            final(self).next_velocities == old(self).velocities,
            old(self).wf() ==> final(self).wf(),
    {
        core::mem::swap(&mut self.positions, &mut self.next_positions);
        core::mem::swap(&mut self.velocities, &mut self.next_velocities);
    }
}

} // verus!
