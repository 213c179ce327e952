//! One particle: its type and its index.

use vstd::prelude::*;

verus! {

/// A particle of a simulation. Its position and velocity are held in the
/// buffers of its simulation; `index` is its number among all particles of
/// all simulations, which never changes and which no other particle has.
#[derive(Clone, Copy, Debug, PartialEq, Eq, Structural)]
pub struct LifeParticle {
    pub particle_type: u32,
    pub index: u32,
}

impl LifeParticle {
    pub fn new(particle_type: u32, index: u32) -> (particle: LifeParticle)
        ensures
            particle == (LifeParticle { particle_type, index }),
    {
        LifeParticle { particle_type, index }
    }
}

/// The type of the particle with the given index: the types are dealt out
/// in turn.
pub open spec fn type_of_index(index: int, num_types: int) -> int {
    index % num_types
}

} // verus!
