//! Evolutionary optimisation over a population of candidate solutions, in one
//! process or spread over a fleet of workers that a master drives over a
//! byte-oriented protocol.
//!
//! The crate holds the decisions of such a system and proves them: how the two
//! best individuals of a generation are found, when a run stops, how the next
//! generation is assembled, how messages are framed on the wire, how a worker
//! answers its master, when the master stops waiting for workers, and how the
//! layers of a network are built, walked and mutated. Sockets, clocks,
//! processes and the arithmetic of a network stay with the caller, who feeds
//! what it read into these functions and performs what they answer.

pub mod evolution;
pub mod fitness;
pub mod neural_network;
pub mod scaling;
pub mod wire;

pub use evolution::{
    genetic_evolution, run_evolution, EvolutionOptions, Evolvable, Evolved, Leaders, Progress,
    StopRule,
};
pub use fitness::Fitness;
pub use neural_network::{NeuralNetwork, Neuron, NeuronIterator, NeuronType};
pub use scaling::{
    process_type, Acceptance, Arrival, NetworkEvolvable, Options, Order, ProcessType,
    StartCondition, Step, SynchronizeCondition, Synchronizer, TrainPlan, Worker, WorkerError,
};
pub use wire::{Command, Reply, Request, WireError};
