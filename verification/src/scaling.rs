//! Running the engine over a fleet: a master that gathers workers and then
//! evolves proxies of them, and workers that each hold one individual and
//! answer the master's requests.

pub mod master;
pub mod worker;

pub use master::{
    Acceptance, Arrival, Gathering, NetworkEvolvable, Rated, Step, Synchronizer, TrainPlan,
};
pub use worker::{Order, Worker, WorkerError};

use crate::evolution::stop::StopRule;
use vstd::prelude::*;

verus! {

/// When the master stops waiting for workers and starts the run.
#[derive(Clone, Copy, Debug, PartialEq, Eq, Structural)]
pub enum StartCondition {
    /// Start as soon as exactly that many workers are connected.
    AmountClientsReady(usize),
    /// Start once the last connection lies that many seconds back.
    NoConnectsSinceSeconds(usize),
}

/// When the master pushes its best individual to every worker.
#[derive(Clone, Copy, Debug, PartialEq, Eq, Structural)]
pub enum SynchronizeCondition {
    /// Every so many seconds.
    AfterTimeInSeconds(usize),
    /// Every so many generations.
    AfterGenerationsAdvanced(usize),
}

impl SynchronizeCondition {
    /// Whether a synchronisation is due, that many seconds and that many
    /// generations after the last one.
    pub open spec fn is_due(self, seconds: usize, generations: usize) -> bool {
        match self {
            SynchronizeCondition::AfterTimeInSeconds(every) => seconds >= every,
            SynchronizeCondition::AfterGenerationsAdvanced(every) => generations >= every,
        }
    }

    /// Whether a synchronisation is due, that many seconds and that many
    /// generations after the last one.
    pub fn due(&self, seconds: usize, generations: usize) -> (due: bool)
        ensures
            due == self.is_due(seconds, generations),
    {
        match self {
            SynchronizeCondition::AfterTimeInSeconds(every) => seconds >= *every,
            SynchronizeCondition::AfterGenerationsAdvanced(every) => generations >= *every,
        }
    }
}

/// The settings of a master.
#[derive(Clone, Copy, Debug, PartialEq, Eq, Structural)]
pub struct Options {
    /// The port the master listens on.
    pub port: u16,
    /// When the master starts to command its workers.
    pub start_condition: StartCondition,
    /// When the master synchronises its workers.
    pub sync_condition: SynchronizeCondition,
    /// When the master ends the run.
    pub stop_rule: StopRule,
}

impl Options {
    /// Port 1337, a start with six workers, a synchronisation every six
    /// generations, and a run of ten generations.
    pub fn defaults() -> (options: Self)
        ensures
            options == (Options {
                port: 1337,
                start_condition: StartCondition::AmountClientsReady(6),
                sync_condition: SynchronizeCondition::AfterGenerationsAdvanced(6),
                stop_rule: StopRule::GenerationReached(10),
            }),
    {
        Options {
            port: 1337,
            start_condition: StartCondition::AmountClientsReady(6),
            sync_condition: SynchronizeCondition::AfterGenerationsAdvanced(6),
            stop_rule: StopRule::GenerationReached(10),
        }
    }
}

/// The part a process plays.
#[derive(Clone, Copy, Debug, PartialEq, Eq, Structural)]
pub enum ProcessType {
    /// Commands the workers.
    Master,
    /// Trains the individual that the master gave it.
    Slave,
}

/// The command-line argument that marks a process as a worker.
pub const WORKER_SENTINEL: &'static str = "--type child";

/// The part of a process that was started with the given arguments: a worker
/// if one of them is the sentinel, the master otherwise.
pub fn process_type(arguments: &Vec<String>) -> (role: ProcessType)
    ensures
        role == if exists|i: int|
            0 <= i < arguments@.len() && (#[trigger] arguments@[i])@ == WORKER_SENTINEL@ {
            ProcessType::Slave
        } else {
            ProcessType::Master
        },
{
    let sentinel = WORKER_SENTINEL.to_owned();
    let mut i: usize = 0;
    while i < arguments.len()
        invariant
            i <= arguments@.len(),
            sentinel@ == WORKER_SENTINEL@,
            forall|j: int| 0 <= j < i ==> (#[trigger] arguments@[j])@ != WORKER_SENTINEL@,
        decreases arguments@.len() - i,
    {
        if arguments[i] == sentinel {
            return ProcessType::Slave;
        }
        i += 1;
    }
    ProcessType::Master
}

} // verus!
