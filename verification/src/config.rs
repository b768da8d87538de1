//! The options of a simulation and their validation.

use vstd::prelude::*;
use crate::domain::Domain;
use crate::domain::Shape;
use crate::vec2::COORD_LIMIT;

verus! {

/// The latest moment, and the longest duration, that the engine works
/// with.
pub const TIME_LIMIT: u64 = 0x4000_0000_0000_0000;

/// The options of a simulation. Lengths are in lattice units, times in
/// nanoseconds.
#[derive(Clone, Copy, Debug, PartialEq, Eq, Structural)]
pub struct Config {
    /// The number of particles.
    pub particle_count: usize,
    /// The radius of a particle. Particles overlap within twice the
    /// radius and pass the infection on within three times the radius.
    pub interaction_radius: i64,
    /// The shape of the domain.
    pub domain_shape: Shape,
    /// The size of the domain: the radius of a disk, the half side of a
    /// square.
    pub domain_size: i64,
    /// The time between two epochs of relaxation and contagion.
    pub step_cadence: u64,
    /// The time from infection to illness.
    pub incubation_duration: u64,
    /// The time from illness to its outcome.
    pub infectious_duration: u64,
    /// The probability that an illness ends in death is
    /// `fatality_numerator / fatality_denominator`.
    pub fatality_numerator: u32,
    pub fatality_denominator: u32,
    /// The scale of the steps that the relaxation proposes.
    pub monte_carlo_step_scale: i64,
    /// The strength of the global potential.
    pub global_potential_strength: i64,
}

/// Why a configuration is refused.
#[derive(Clone, Copy, Debug, PartialEq, Eq, Structural)]
pub enum ConfigError {
    /// There is no particle.
    NoParticles,
    /// The radius is not positive, or three times the radius does not fit
    /// on the lattice.
    Radius,
    /// The size of the domain is not positive or does not fit on the
    /// lattice.
    DomainSize,
    /// The fatality is no probability: its denominator is zero or less
    /// than its numerator.
    Fatality,
    /// The scale of the proposed steps is not positive.
    StepScale,
    /// A duration is longer than `TIME_LIMIT`.
    Duration,
    /// The number of starting positions is not the number of particles,
    /// or one of them lies outside the domain.
    Placement,
}

impl Config {
    /// The first fault of the configuration, if it has one.
    pub open spec fn fault(&self) -> Option<ConfigError> {
        if self.particle_count == 0 {
            Some(ConfigError::NoParticles)
        } else if self.interaction_radius <= 0 || 3 * self.interaction_radius > COORD_LIMIT {
            Some(ConfigError::Radius)
        } else if self.domain_size <= 0 || self.domain_size > COORD_LIMIT {
            Some(ConfigError::DomainSize)
        } else if self.fatality_denominator == 0 || self.fatality_numerator
            > self.fatality_denominator {
            Some(ConfigError::Fatality)
        } else if self.monte_carlo_step_scale <= 0 {
            Some(ConfigError::StepScale)
        } else if self.step_cadence > TIME_LIMIT || self.incubation_duration > TIME_LIMIT
            || self.infectious_duration > TIME_LIMIT {
            Some(ConfigError::Duration)
        } else {
            None
        }
    }

    /// The configuration has no fault.
    pub open spec fn wf(&self) -> bool {
        self.fault() is None
    }

    /// The distance within which the infection is passed on.
    pub open spec fn reach_spec(&self) -> int {
        3 * self.interaction_radius
    }

    /// The domain of the simulation.
    pub open spec fn domain_spec(&self) -> Domain {
        Domain { shape: self.domain_shape, size: self.domain_size }
    }

    /// Accepts a configuration without fault and names the first fault of
    /// any other.
    pub fn validate(&self) -> (checked: Result<(), ConfigError>)
        ensures
            checked == match self.fault() {
                Some(error) => Err::<(), ConfigError>(error),
                None => Ok::<(), ConfigError>(()),
            },
    {
        if self.particle_count == 0 {
            Err(ConfigError::NoParticles)
        } else if self.interaction_radius <= 0 || self.interaction_radius > COORD_LIMIT / 3 {
            Err(ConfigError::Radius)
        } else if self.domain_size <= 0 || self.domain_size > COORD_LIMIT {
            Err(ConfigError::DomainSize)
        } else if self.fatality_denominator == 0 || self.fatality_numerator
            > self.fatality_denominator {
            Err(ConfigError::Fatality)
        } else if self.monte_carlo_step_scale <= 0 {
            Err(ConfigError::StepScale)
        } else if self.step_cadence > TIME_LIMIT || self.incubation_duration > TIME_LIMIT
            || self.infectious_duration > TIME_LIMIT {
            Err(ConfigError::Duration)
        } else {
            Ok(())
        }
    }

    /// The distance within which the infection is passed on.
    pub fn reach(&self) -> (reach: i64)
        requires
            self.wf(),
        ensures
            reach == self.reach_spec(),
            0 < reach <= COORD_LIMIT,
    {
        3 * self.interaction_radius
    }

    /// The domain of the simulation.
    pub fn domain(&self) -> (domain: Domain)
        ensures
            domain == self.domain_spec(),
            self.wf() ==> domain.wf(),
    {
        Domain { shape: self.domain_shape, size: self.domain_size }
    }
}

} // verus!
