//! Read-only run parameters and their validation, which must reject a bad
//! configuration before the generational loop begins.

use vstd::prelude::*;

use crate::gene::PPM_SCALE;
use crate::target::ImageDimensions;

verus! {

/// The generational loop derives two children from the two best parents and
/// keeps both parents, so a population needs at least four individuals.
pub const MIN_POPULATION: i32 = 4;

/// Why a configuration was rejected.
#[derive(Clone, Copy, Debug, PartialEq, Eq, Structural)]
pub enum ConfigError {
    /// Fewer individuals than `MIN_POPULATION`.
    PopulationTooSmall,
    /// A crossover probability above 1, on the parts-per-million scale.
    InvalidCrossoverProbability,
    /// A mutation probability above 1, on the parts-per-million scale.
    InvalidMutationProbability,
    /// A negative resize dimension, or a pixel count that overflows the
    /// dimension type.
    InvalidDimensions,
}

/// Read-only run parameters, loaded once before the run and never mutated.
/// Probabilities are kept as parts per million of `PPM_SCALE`.
#[derive(Clone, Copy, Debug)]
pub struct Config {
    pub generations: i32,
    pub elite_count: usize,
    pub resize_dimensions: ImageDimensions,
    pub population_count: i32,
    pub crossover_probability: u32,
    pub mutation_probability: u32,
}

impl Config {
    /// Every condition a configuration must meet before the run starts.
    pub open spec fn valid(&self) -> bool {
        &&& self.population_count >= MIN_POPULATION
        &&& self.crossover_probability <= PPM_SCALE
        &&& self.mutation_probability <= PPM_SCALE
        &&& 0 <= self.resize_dimensions.x
        &&& 0 <= self.resize_dimensions.y
        &&& self.resize_dimensions.x * self.resize_dimensions.y <= i32::MAX
    }

    /// Checks a configuration before the generational loop: the result is
    /// `Ok` exactly when the configuration is valid, and each error names
    /// the first check that failed.
    pub fn validate(&self) -> (r: Result<(), ConfigError>)
        ensures
            r is Ok <==> self.valid(),
            self.population_count < MIN_POPULATION ==> r == Result::<(), ConfigError>::Err(
                ConfigError::PopulationTooSmall,
            ),
            self.population_count >= MIN_POPULATION && self.crossover_probability > PPM_SCALE
                ==> r == Result::<(), ConfigError>::Err(ConfigError::InvalidCrossoverProbability),
            self.population_count >= MIN_POPULATION && self.crossover_probability <= PPM_SCALE
                && self.mutation_probability > PPM_SCALE ==> r == Result::<(), ConfigError>::Err(
                ConfigError::InvalidMutationProbability,
            ),
            self.population_count >= MIN_POPULATION && self.crossover_probability <= PPM_SCALE
                && self.mutation_probability <= PPM_SCALE && !self.valid() ==> r == Result::<
                (),
                ConfigError,
            >::Err(ConfigError::InvalidDimensions),
    {
        if self.population_count < MIN_POPULATION {
            return Err(ConfigError::PopulationTooSmall);
        }
        if self.crossover_probability > PPM_SCALE {
            return Err(ConfigError::InvalidCrossoverProbability);
        }
        if self.mutation_probability > PPM_SCALE {
            return Err(ConfigError::InvalidMutationProbability);
        }
        let x = self.resize_dimensions.x;
        let y = self.resize_dimensions.y;
        proof {
            assert(-0x4000_0000_0000_0000 <= (x as i64) * (y as i64) <= 0x4000_0000_0000_0000)
                by (nonlinear_arith)
                requires
                    -0x8000_0000 <= x <= 0x7fff_ffff,
                    -0x8000_0000 <= y <= 0x7fff_ffff,
            ;
        }
        if x < 0 || y < 0 || (x as i64) * (y as i64) > i32::MAX as i64 {
            return Err(ConfigError::InvalidDimensions);
        }
        Ok(())
    }
}

} // verus!
