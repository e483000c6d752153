//! The master's side: gathering workers, and the proxies that stand for them
//! in the engine.

use crate::fitness::Fitness;
use crate::scaling::{StartCondition, SynchronizeCondition};
use crate::wire::{Reply, ReplyView, WireError};
use vstd::prelude::*;

verus! {

/// The pattern of a score that is not a number: what a proxy is rated before
/// its worker has reported anything.
pub const UNRATED_BITS: u64 = 0x7FF8_0000_0000_0000;

/// The stand-in for a worker in the master's population.
///
/// Crossing two proxies over touches no worker: the child remembers whose
/// individual to take in, and the pairing is carried out when the child is
/// next trained.
#[derive(Clone, Copy, Debug, PartialEq, Eq, Structural)]
pub struct NetworkEvolvable {
    /// The index of the worker, fixed when it connected.
    pub client: usize,
    /// The score that the worker reported last, if it has reported since the
    /// proxy was made.
    pub fitness: Option<Fitness>,
    /// The worker whose individual this one is to be crossed with before it
    /// is next trained, if a crossover is pending.
    pub cross_with: Option<usize>,
}

/// What the master has to do to train a proxy's worker.
#[derive(Clone, Copy, Debug, PartialEq, Eq, Structural)]
pub struct TrainPlan {
    /// The worker to send `Train` to.
    pub worker: usize,
    /// The worker whose individual the first one takes in before it trains, if
    /// any.
    pub partner: Option<usize>,
}

impl NetworkEvolvable {
    /// The proxy of the worker with index `client`, with no score and no
    /// pending crossover.
    pub fn new(client: usize) -> (proxy: Self)
        ensures
            proxy == (NetworkEvolvable { client, fitness: None, cross_with: None }),
    {
        NetworkEvolvable { client, fitness: None, cross_with: None }
    }

    /// A proxy of this one's worker, without a score, that is to be crossed
    /// with the worker of `other`.
    pub fn cross_over(&self, other: &Self) -> (child: Self)
        ensures
            child == (NetworkEvolvable {
                client: self.client,
                fitness: None,
                cross_with: Some(other.client),
            }),
    {
        NetworkEvolvable { client: self.client, fitness: None, cross_with: Some(other.client) }
    }

    /// What is to be done to train this proxy's worker.
    pub fn plan(&self) -> (plan: TrainPlan)
        ensures
            plan == (TrainPlan { worker: self.client, partner: self.cross_with }),
    {
        TrainPlan { worker: self.client, partner: self.cross_with }
    }

    /// Takes note that the worker was trained and reported `fitness`: the
    /// score is kept, and no crossover is pending any more.
    pub fn trained(&mut self, fitness: Fitness)
        ensures
            *final(self) == (NetworkEvolvable {
                client: old(self).client,
                fitness: Some(fitness),
                cross_with: None,
            }),
    {
        self.fitness = Some(fitness);
        self.cross_with = None;
    }

    /// Takes in the worker's reply to `Start` or `Train`: the score it
    /// reports is kept and no crossover is pending any more. Any other reply
    /// is out of place and changes nothing.
    pub fn heard(&mut self, reply: &Reply) -> (outcome: Result<(), WireError>)
        ensures
            match reply@ {
                ReplyView::Started { fitness, .. } | ReplyView::Trained { fitness } => {
                    &&& outcome is Ok
                    &&& *final(self) == (NetworkEvolvable {
                        client: old(self).client,
                        fitness: Some(fitness),
                        cross_with: None,
                    })
                },
                ReplyView::Current { .. } => {
                    &&& outcome == Err::<(), WireError>(WireError::UnexpectedCommand)
                    &&& *final(self) == *old(self)
                },
            },
    {
        match reply {
            Reply::Started { fitness, .. } => {
                self.trained(*fitness);
                Ok(())
            },
            Reply::Trained { fitness } => {
                self.trained(*fitness);
                Ok(())
            },
            Reply::Current { .. } => Err(WireError::UnexpectedCommand),
        }
    }

    /// The score by which the engine ranks the proxy: the one reported last,
    /// or one that is not a number and so ranks last.
    pub fn rating(&self) -> (fitness: Fitness)
        ensures
            fitness == match self.fitness {
                Some(reported) => reported,
                None => Fitness { bits: UNRATED_BITS },
            },
    {
        match self.fitness {
            Some(reported) => reported,
            None => Fitness::from_bits(UNRATED_BITS),
        }
    }
}

/// A worker and the score that its proxy was rated.
#[derive(Clone, Copy, Debug, PartialEq, Eq, Structural)]
pub struct Rated {
    pub worker: usize,
    pub fitness: Fitness,
}

/// The master's watch over the ratings of a run, to tell when its workers
/// are to be synchronised and with whom.
///
/// A generation is complete when as many proxies were rated as the
/// population holds. If a synchronisation is due then, every worker is to
/// take over the individual of the worker whose proxy was rated best in that
/// generation, the first of them if several were.
#[derive(Clone, Copy, Debug, PartialEq, Eq, Structural)]
pub struct Synchronizer {
    /// When a synchronisation is due.
    pub condition: SynchronizeCondition,
    /// The number of ratings that make a generation.
    pub population: usize,
    /// The number of ratings taken in the generation under way.
    pub rated: usize,
    /// The number of generations completed since the last synchronisation.
    pub generations: usize,
    /// The worker rated best in the generation under way, and its score.
    pub leader: Option<Rated>,
}

impl Synchronizer {
    /// The leader once `worker` was rated `fitness`: the leader so far,
    /// unless there is none or the new score exceeds its score.
    pub open spec fn leader_with(self, worker: usize, fitness: Fitness) -> Rated {
        match self.leader {
            Some(leader) => if fitness.rank() > leader.fitness.rank() {
                Rated { worker, fitness }
            } else {
                leader
            },
            None => Rated { worker, fitness },
        }
    }

    /// Whether the rating at hand completes a generation.
    pub open spec fn completes(self) -> bool {
        self.rated + 1 >= self.population
    }

    /// The number of generations completed since the last synchronisation,
    /// the one that the rating at hand completes counted in.
    pub open spec fn completed(self) -> usize {
        if self.generations < usize::MAX {
            (self.generations + 1) as usize
        } else {
            usize::MAX
        }
    }

    /// The worker to synchronise with once `worker` was rated `fitness`,
    /// `seconds` seconds after the last synchronisation: the leader, if the
    /// rating completes a generation and a synchronisation is due.
    pub open spec fn verdict(self, worker: usize, fitness: Fitness, seconds: usize) -> Option<
        usize,
    > {
        if self.completes() && self.condition.is_due(seconds, self.completed()) {
            Some(self.leader_with(worker, fitness).worker)
        } else {
            None
        }
    }

    /// The watch once `worker` was rated `fitness`, `seconds` seconds after
    /// the last synchronisation.
    pub open spec fn after(self, worker: usize, fitness: Fitness, seconds: usize) -> Synchronizer {
        if !self.completes() {
            Synchronizer {
                rated: (self.rated + 1) as usize,
                leader: Some(self.leader_with(worker, fitness)),
                ..self
            }
        } else if self.condition.is_due(seconds, self.completed()) {
            Synchronizer { rated: 0, generations: 0, leader: None, ..self }
        } else {
            Synchronizer { rated: 0, generations: self.completed(), leader: None, ..self }
        }
    }

    /// The watch over a run with generations of `population` ratings, or of
    /// one if none is asked for, at its start.
    pub fn new(condition: SynchronizeCondition, population: usize) -> (watch: Self)
        ensures
            watch == (Synchronizer {
                condition,
                population: if population == 0 {
                    1
                } else {
                    population
                },
                rated: 0,
                generations: 0,
                leader: None,
            }),
    {
        Synchronizer {
            condition,
            population: if population == 0 {
                1
            } else {
                population
            },
            rated: 0,
            generations: 0,
            leader: None,
        }
    }

    /// Takes note that the proxy of `worker` was rated `fitness`, `seconds`
    /// seconds after the last synchronisation, and names the worker to
    /// synchronise with if a synchronisation is due now.
    pub fn rated(&mut self, worker: usize, fitness: Fitness, seconds: usize) -> (source: Option<
        usize,
    >)
        ensures
            source == old(self).verdict(worker, fitness, seconds),
            *final(self) == old(self).after(worker, fitness, seconds),
    {
        let leader = match self.leader {
            Some(leader) => if fitness.exceeds(&leader.fitness) {
                Rated { worker, fitness }
            } else {
                leader
            },
            None => Rated { worker, fitness },
        };
        if self.population > 0 && self.rated < self.population - 1 {
            self.rated = self.rated + 1;
            self.leader = Some(leader);
            return None;
        }
        let completed = if self.generations < usize::MAX {
            self.generations + 1
        } else {
            usize::MAX
        };
        self.rated = 0;
        self.leader = None;
        if self.condition.due(seconds, completed) {
            self.generations = 0;
            Some(leader.worker)
        } else {
            self.generations = completed;
            None
        }
    }
}

/// What happened at the listening socket.
#[derive(Clone, Copy, Debug, PartialEq, Eq, Structural)]
pub enum Arrival {
    /// A worker connected.
    Connected,
    /// A connection attempt failed.
    Failed,
    /// Nothing happened; the last connection lies that many seconds back.
    Quiet(usize),
}

/// What the master does next.
#[derive(Clone, Copy, Debug, PartialEq, Eq, Structural)]
pub enum Step {
    /// Go on listening.
    Listen,
    /// Stop listening and start the run.
    Begin,
}

/// The master while it gathers workers.
pub struct Acceptance {
    /// When to start.
    condition: StartCondition,
    /// A proxy for each worker connected so far; a worker's index is its place
    /// here.
    workers: Vec<NetworkEvolvable>,
    /// Whether the run was started. Nothing is accepted after that.
    begun: bool,
}

/// What matters of a gathering master: its condition, the number of workers
/// it holds, and whether it has started the run.
pub struct Gathering {
    pub condition: StartCondition,
    pub held: nat,
    pub begun: bool,
}

/// The proxies of the first `count` workers.
pub open spec fn fresh_proxies(count: nat) -> Seq<NetworkEvolvable> {
    Seq::new(
        count,
        |i: int| NetworkEvolvable { client: i as usize, fitness: None, cross_with: None },
    )
}

/// The number of workers that connected among `arrivals`.
pub open spec fn connections(arrivals: Seq<Arrival>) -> nat
    decreases arrivals.len(),
{
    if arrivals.len() == 0 {
        0
    } else {
        connections(arrivals.drop_last()) + if arrivals.last() is Connected {
            1nat
        } else {
            0nat
        }
    }
}

impl Gathering {
    /// The master that has no worker yet.
    pub open spec fn fresh(condition: StartCondition) -> Gathering {
        Gathering { condition, held: 0, begun: false }
    }

    /// The master after one more arrival. A connection adds a worker, and the
    /// run begins when exactly the wanted number is held; a quiet spell
    /// begins the run when it is long enough and there is a worker at all; a
    /// failed attempt changes nothing, and nothing changes once the run has
    /// begun.
    pub open spec fn step(self, arrival: Arrival) -> Gathering {
        if self.begun {
            self
        } else {
            match arrival {
                Arrival::Connected => Gathering {
                    condition: self.condition,
                    held: self.held + 1,
                    begun: self.condition matches StartCondition::AmountClientsReady(wanted)
                        && self.held + 1 == wanted,
                },
                Arrival::Failed => self,
                Arrival::Quiet(seconds) => Gathering {
                    condition: self.condition,
                    held: self.held,
                    begun: self.condition matches StartCondition::NoConnectsSinceSeconds(wanted)
                        && self.held > 0 && seconds >= wanted,
                },
            }
        }
    }

    /// The master after all of `arrivals`, in their order.
    pub open spec fn after(self, arrivals: Seq<Arrival>) -> Gathering
        decreases arrivals.len(),
    {
        if arrivals.len() == 0 {
            self
        } else {
            self.after(arrivals.drop_last()).step(arrivals.last())
        }
    }
}

impl View for Acceptance {
    type V = Gathering;

    closed spec fn view(&self) -> Gathering {
        Gathering { condition: self.condition, held: self.workers@.len(), begun: self.begun }
    }
}

impl Acceptance {
    /// Every worker's proxy is fresh and stands at its index.
    #[verifier::type_invariant]
    spec fn proxies_are_fresh(self) -> bool {
        self.workers@ == fresh_proxies(self.workers@.len())
    }

    /// A master that has no worker yet.
    pub fn new(condition: StartCondition) -> (acceptance: Self)
        ensures
            acceptance@ == Gathering::fresh(condition),
    {
        let workers: Vec<NetworkEvolvable> = Vec::new();
        assert(workers@ =~= fresh_proxies(0));
        Acceptance { condition, workers, begun: false }
    }

    /// The start condition.
    pub fn condition(&self) -> (condition: StartCondition)
        ensures
            condition == self@.condition,
    {
        self.condition
    }

    /// The number of workers held.
    pub fn held(&self) -> (held: usize)
        ensures
            held == self@.held,
    {
        self.workers.len()
    }

    /// Whether the run has begun.
    pub fn has_begun(&self) -> (begun: bool)
        ensures
            begun == self@.begun,
    {
        self.begun
    }

    /// The proxies of the workers held: a fresh one for each, at the worker's
    /// index.
    pub fn workers(&self) -> (workers: &Vec<NetworkEvolvable>)
        ensures
            workers@ == fresh_proxies(self@.held),
    {
        proof {
            use_type_invariant(self);
        }
        &self.workers
    }

    /// Takes note of what happened at the socket and says what to do next:
    /// to begin the run if the start condition is met, now or earlier, and to
    /// go on listening otherwise. A connection that is taken in gets a proxy
    /// with the next index.
    pub fn on(&mut self, arrival: Arrival) -> (step: Step)
        ensures
            final(self)@ == old(self)@.step(arrival),
            step == if final(self)@.begun {
                Step::Begin
            } else {
                Step::Listen
            },
    {
        proof {
            use_type_invariant(&*self);
        }
        if self.begun {
            return Step::Begin;
        }
        match arrival {
            Arrival::Connected => {
                let mut workers: Vec<NetworkEvolvable> = Vec::new();
                assert(workers@ =~= fresh_proxies(0));
                core::mem::swap(&mut self.workers, &mut workers);
                let index = workers.len();
                workers.push(NetworkEvolvable::new(index));
                assert(workers@ =~= fresh_proxies(workers@.len()));
                core::mem::swap(&mut self.workers, &mut workers);
                match self.condition {
                    StartCondition::AmountClientsReady(wanted) => {
                        if self.workers.len() == wanted {
                            self.begun = true;
                        }
                    },
                    _ => {},
                }
            },
            Arrival::Failed => {},
            Arrival::Quiet(seconds) => {
                match self.condition {
                    StartCondition::NoConnectsSinceSeconds(wanted) => {
                        if self.workers.len() > 0 && seconds >= wanted {
                            self.begun = true;
                        }
                    },
                    _ => {},
                }
            },
        }
        if self.begun {
            Step::Begin
        } else {
            Step::Listen
        }
    }
}

/// A master that waits for `wanted` workers, at least one, begins the run
/// exactly upon the `wanted`-th connection: it has begun if and only if that
/// many workers have connected, and it holds the workers that connected up to
/// then and none that came later.
pub proof fn lemma_begins_upon_the_wanted_connection(wanted: usize, arrivals: Seq<Arrival>)
    requires
        wanted >= 1,
    ensures
        ({
            let gathering = Gathering::fresh(StartCondition::AmountClientsReady(wanted)).after(
                arrivals,
            );
            &&& gathering.condition == StartCondition::AmountClientsReady(wanted)
            &&& gathering.begun <==> connections(arrivals) >= wanted
            &&& gathering.held == if connections(arrivals) >= wanted {
                wanted as nat
            } else {
                connections(arrivals)
            }
        }),
    decreases arrivals.len(),
{
    if arrivals.len() > 0 {
        lemma_begins_upon_the_wanted_connection(wanted, arrivals.drop_last());
    }
}

} // verus!
