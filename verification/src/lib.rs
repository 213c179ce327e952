//! A particle-life engine: worlds of typed particles that attract and repel
//! each other, advanced in fixed time steps with integer arithmetic only.
//!
//! Several worlds run side by side. Each has its own particles, its own food
//! and its own force matrix, which says for every pair of particle types how
//! strongly the one is drawn to the other. A tick moves the particles of
//! every world by one time step and lets them consume the food that they
//! reach, which counts toward the score of their world.
//!
//! All quantities are fixed-point numbers (see `fixed`), so that a run gives
//! the same result on every machine, and so that what a tick computes can be
//! stated exactly: `kernel::Scene` says where every particle is after a step,
//! and `kernel::step` computes just that.
//!
//! The modules, from the leaves up: `fixed`, `vec3` and `decay` hold the
//! arithmetic; `particle_config` the force matrix; `kernel` the physics of
//! one step; `double_buffer` the two copies of the state that a step reads
//! and writes; `food` the food items; `world` one simulation; `orchestrator`
//! the set of simulations with its configuration (`simulation_config`,
//! `menu_config`) and its state (`game_state`). `random` is the only place
//! that draws random numbers.

pub mod decay;
pub mod double_buffer;
pub mod error;
pub mod fixed;
pub mod food;
pub mod game_state;
pub mod globals;
pub mod kernel;
pub mod menu_config;
pub mod orchestrator;
pub mod particle;
pub mod particle_config;
pub mod random;
pub mod simulation;
pub mod simulation_config;
pub mod vec3;
pub mod world;
