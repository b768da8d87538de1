//! Particle kinetics on an integer lattice: interpolated motion, a grid
//! broad phase, elastic collisions, Metropolis relaxation and an epidemic
//! state machine, with every rule stated as a contract.

pub mod collision;
pub mod config;
pub mod conservation;
pub mod domain;
pub mod epidemic;
pub mod grid;
pub mod health;
pub mod particle;
pub mod random;
pub mod relax;
pub mod sim;
pub mod store;
pub mod vec2;
