//! What can be wrong with a configuration or with the state handed to a step.

use vstd::prelude::*;

verus! {

/// Why a configuration cannot be run.
#[derive(Clone, Copy, Debug, PartialEq, Eq, Structural)]
pub enum ConfigError {
    /// No simulation was asked for.
    NoSimulations,
    /// Fewer particles than simulations.
    TooFewParticles,
    /// No particle type was asked for.
    NoParticleTypes,
    /// More particles than can be addressed.
    TooManyParticles,
    /// More particle types than a force matrix can hold.
    TooManyTypes,
    /// More food items than can be addressed.
    TooMuchFood,
    /// A tunable of the physics is out of its range.
    InvalidTunable,
    /// A command names a simulation that does not exist.
    NoSuchSimulation,
}

/// Why a step was refused. A refused step writes nothing.
#[derive(Clone, Copy, Debug, PartialEq, Eq, Structural)]
pub enum KernelError {
    /// The buffers and the list of types do not all have the same length.
    LengthMismatch,
    /// More particles than one simulation can hold.
    TooManyParticles,
    /// A tunable of the physics is out of its range.
    InvalidTunable,
    /// The time step is negative or too long.
    InvalidTimestep,
    /// The force matrix is not square or holds a coefficient beyond the limit.
    InvalidForceMatrix,
    /// A particle has a type that the force matrix does not know.
    TypeOutOfRange,
    /// A coordinate or a speed is beyond the limit.
    OutOfBounds,
}

} // verus!
