//! A genetic-algorithm core that evolves a grid of pixel-color genes toward a
//! target raster image: gene generation and mutation, chromosomes over a
//! row-major pixel grid, and a fitness evaluator that scores a chromosome by
//! the negated sum of per-channel absolute differences against the target.

pub mod chromosome;
pub mod config;
pub mod driver;
pub mod gene;
mod rng;
pub mod target;

pub use chromosome::Chromosome;
pub use config::Config;
pub use config::ConfigError;
pub use driver::construct_image;
pub use driver::generate_population;
pub use driver::next_generation;
pub use driver::score_population;
pub use driver::sort_population_descending;
pub use gene::GeneRgba;
pub use gene::GeneType;
pub use target::ImageDimensions;
pub use target::TargetImage;
