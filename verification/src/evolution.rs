//! The evolution engine: an elitist strategy that keeps the two best
//! individuals of each generation and breeds the rest from them.

pub mod engine;
pub mod selection;
pub mod stop;

pub use engine::{
    genetic_evolution, populate, population_size, replace_generation, run_evolution, score,
    EvolutionOptions, Evolvable, Evolved, Generation,
};
pub use selection::{select_elites, Leaders};
pub use stop::{Progress, StopRule};
