//! The generational loop.
//!
//! A generation is scored, its two leaders are found, the stop rule is asked,
//! and unless it fires the leaders alone are kept and the population is
//! refilled with their offspring.

use crate::evolution::selection::{select_elites, Leaders};
use crate::evolution::stop::{lemma_observe_records, Progress, StopRule};
use crate::fitness::Fitness;
use vstd::prelude::*;

verus! {

/// What the engine asks of an individual: that it can be combined with
/// another of its kind, and that it can change itself a little.
pub trait Evolvable: Sized {
    /// A new individual that combines this one with `other`.
    fn cross_over(&self, other: &Self) -> Self;

    /// Changes this individual slightly.
    fn mutate(&mut self);
}

/// The knobs of a run.
#[derive(Clone, Copy, Debug, PartialEq, Eq, Structural)]
pub struct EvolutionOptions {
    /// The number of slices into which a generation's scores are cut when the
    /// leaders are looked for.
    pub threads: usize,
}

impl EvolutionOptions {
    /// The options of a run that was given none: six threads.
    pub fn defaults() -> (options: Self)
        ensures
            options.threads == 6,
    {
        EvolutionOptions { threads: 6 }
    }
}

/// The smallest population the engine works with: it keeps two leaders.
pub const MIN_POPULATION: usize = 2;

/// The size of the population that a run with the requested size has.
pub open spec fn effective_size(requested: usize) -> usize {
    if requested < MIN_POPULATION {
        MIN_POPULATION
    } else {
        requested
    }
}

/// The size of the population that a run with the requested size has: the
/// requested one, or two if fewer are asked for.
pub fn population_size(requested: usize) -> (size: usize)
    ensures
        size == effective_size(requested),
{
    if requested < MIN_POPULATION {
        MIN_POPULATION
    } else {
        requested
    }
}

/// A population of `size` fresh individuals, each from one call of `new`.
pub fn populate<T, Fnew: Fn() -> T>(size: usize, new: &Fnew) -> (population: Vec<T>)
    requires
        call_requires(*new, ()),
    ensures
        population@.len() == size,
        forall|i: int| 0 <= i < size ==> call_ensures(*new, (), #[trigger] population@[i]),
{
    let mut population: Vec<T> = Vec::new();
    while population.len() < size
        invariant
            population@.len() <= size,
            call_requires(*new, ()),
            forall|i: int|
                0 <= i < population@.len() ==> call_ensures(*new, (), #[trigger] population@[i]),
        decreases size - population@.len(),
    {
        population.push(new());
    }
    population
}

/// The score that `rate` gives to each individual, in the population's order.
pub fn score<T, Frate: FnMut(&T) -> Fitness>(population: &Vec<T>, rate: &mut Frate) -> (scores:
    Vec<Fitness>)
    requires
        forall|i: int|
            0 <= i < population@.len() ==> call_requires(
                *old(rate),
                (&#[trigger] population@[i],),
            ),
    ensures
        scores@.len() == population@.len(),
        forall|i: int|
            0 <= i < population@.len() ==> call_ensures(
                *old(rate),
                (&population@[i],),
                #[trigger] scores@[i],
            ),
        *final(rate) == *old(rate),
{
    let mut scores: Vec<Fitness> = Vec::new();
    while scores.len() < population.len()
        invariant
            scores@.len() <= population@.len(),
            *rate == *old(rate),
            forall|i: int|
                0 <= i < population@.len() ==> call_requires(
                    *rate,
                    (&#[trigger] population@[i],),
                ),
            forall|i: int|
                0 <= i < scores@.len() ==> call_ensures(
                    *old(rate),
                    (&population@[i],),
                    #[trigger] scores@[i],
                ),
        decreases population@.len() - scores@.len(),
    {
        let fitness = rate(&population[scores.len()]);
        scores.push(fitness);
    }
    scores
}

/// Whether `place` is one of the places `from..size` of a population.
pub open spec fn within(place: int, from: int, size: int) -> bool {
    from <= place < size
}

/// Fills `population` up to `size` individuals with children of its first
/// two: each one crossed over from them and then mutated.
fn refill<T: Evolvable>(population: &mut Vec<T>, size: usize)
    requires
        2 <= old(population)@.len() <= size,
    ensures
        final(population)@.len() == size,
        forall|k: int|
            0 <= k < old(population)@.len() ==> final(population)@[k] == old(population)@[k],
        forall|k: int| #[trigger]
            within(k, old(population)@.len() as int, size as int) ==> exists|child: &mut T|
                #![trigger call_ensures(T::mutate, (child,), ())]
                {
                    &&& call_ensures(
                        T::cross_over,
                        (&old(population)@[0], &old(population)@[1]),
                        *child,
                    )
                    &&& call_ensures(T::mutate, (child,), ())
                    &&& *final(child) == final(population)@[k]
                },
{
    while population.len() < size
        invariant
            2 <= old(population)@.len() <= population@.len() <= size,
            forall|k: int|
                0 <= k < old(population)@.len() ==> population@[k] == old(population)@[k],
            forall|k: int| #[trigger]
                within(k, old(population)@.len() as int, population@.len() as int) ==> exists|
                    child: &mut T,
                |
                    #![trigger call_ensures(T::mutate, (child,), ())]
                    {
                        &&& call_ensures(
                            T::cross_over,
                            (&old(population)@[0], &old(population)@[1]),
                            *child,
                        )
                        &&& call_ensures(T::mutate, (child,), ())
                        &&& *final(child) == population@[k]
                    },
        decreases size - population@.len(),
    {
        let ghost filled = population@.len() as int;
        let mut child = population[0].cross_over(&population[1]);
        child.mutate();
        population.push(child);
        assert(forall|k: int| #[trigger]
            within(k, old(population)@.len() as int, filled + 1) ==> k == filled || within(
                k,
                old(population)@.len() as int,
                filled,
            ));
    }
}

/// Replaces a generation by the next: the individuals at `best` and `second`
/// survive unchanged and come first, in the order in which they stood, and
/// every other one gives way to a child of the two: the earlier survivor
/// crossed over with the later one, then mutated.
pub fn replace_generation<T: Evolvable>(population: &mut Vec<T>, best: usize, second: usize)
    requires
        best < old(population)@.len(),
        second < old(population)@.len(),
        best != second,
    ensures
        final(population)@.len() == old(population)@.len(),
        final(population)@[0] == old(population)@[if best < second {
            best as int
        } else {
            second as int
        }],
        final(population)@[1] == old(population)@[if best < second {
            second as int
        } else {
            best as int
        }],
        forall|k: int| #[trigger]
            within(k, 2, old(population)@.len() as int) ==> exists|child: &mut T|
                #![trigger call_ensures(T::mutate, (child,), ())]
                {
                    &&& call_ensures(
                        T::cross_over,
                        (&final(population)@[0], &final(population)@[1]),
                        *child,
                    )
                    &&& call_ensures(T::mutate, (child,), ())
                    &&& *final(child) == final(population)@[k]
                },
{
    let size = population.len();
    let (earlier, later) = if best < second {
        (best, second)
    } else {
        (second, best)
    };
    let late = population.remove(later);
    let early = population.remove(earlier);
    population.clear();
    population.push(early);
    population.push(late);
    refill(population, size);
}

/// One generation of a run as it stood when it was scored.
pub struct Generation<T> {
    /// The individuals, in the order of the population.
    pub individuals: Seq<T>,
    /// The score of each individual.
    pub scores: Seq<Fitness>,
    /// The index of the best individual.
    pub best: int,
    /// The index of the second-best individual.
    pub second: int,
}

impl<T> Generation<T> {
    /// The best score of the generation.
    pub open spec fn top(self) -> Fitness {
        self.scores[self.best]
    }

    /// Each score is one that `rate` may give to the individual, and `best`
    /// and `second` are the leaders of the scores.
    pub open spec fn scored_by<Frate: FnMut(&T) -> Fitness>(self, rate: Frate) -> bool {
        &&& self.scores.len() == self.individuals.len()
        &&& forall|i: int|
            0 <= i < self.individuals.len() ==> call_ensures(
                rate,
                (&self.individuals[i],),
                #[trigger] self.scores[i],
            )
        &&& 0 <= self.best <= usize::MAX
        &&& 0 <= self.second <= usize::MAX
        &&& (Leaders { best: Some(self.best as usize), second: Some(self.second as usize) }).lead(
            self.scores,
            0,
            self.scores.len() as int,
        )
    }

    /// The population `next` is as large as this generation and opens with
    /// its two leaders, unchanged and in the order in which they stood.
    pub open spec fn survives_into(self, next: Seq<T>) -> bool {
        &&& next.len() == self.individuals.len()
        &&& next[0] == self.individuals[if self.best < self.second {
            self.best
        } else {
            self.second
        }]
        &&& next[1] == self.individuals[if self.best < self.second {
            self.second
        } else {
            self.best
        }]
    }
}

/// The best score of each generation of a trace.
pub open spec fn best_scores<T>(trace: Seq<Generation<T>>) -> Seq<Fitness> {
    Seq::new(trace.len(), |n: int| trace[n].top())
}

/// The trace is that of a run with populations of `size`: the first
/// generation was made by `new`, every generation was scored by `rate`, and
/// the two leaders of each generation survived into the next.
pub open spec fn is_run<T, Fnew: Fn() -> T, Frate: FnMut(&T) -> Fitness>(
    trace: Seq<Generation<T>>,
    size: int,
    new: Fnew,
    rate: Frate,
) -> bool {
    &&& forall|n: int|
        0 <= n < trace.len() ==> (#[trigger] trace[n]).individuals.len() == size
            && trace[n].scored_by(rate)
    &&& trace.len() > 0 ==> forall|i: int|
        0 <= i < size ==> call_ensures(new, (), #[trigger] trace[0].individuals[i])
    &&& forall|n: int|
        0 < n < trace.len() ==> trace[n - 1].survives_into((#[trigger] trace[n]).individuals)
}

/// How a run ended.
pub struct Evolved<T> {
    /// The last generation.
    pub population: Vec<T>,
    /// The score of each individual of the last generation.
    pub scores: Vec<Fitness>,
    /// The index of the best individual of the last generation.
    pub best: usize,
    /// The index of its second-best individual.
    pub second: usize,
    /// The number of completed generations, the best score of the last one
    /// and the streak without a rise.
    pub progress: Progress,
    /// Every generation of the run as it was scored, oldest first.
    pub trace: Ghost<Seq<Generation<T>>>,
}

/// Runs the engine and reports how the run ended.
///
/// The population has `population` individuals, or two if fewer are asked
/// for. Every generation is scored by `rate`; its two leaders survive, and
/// the rest is replaced by their offspring. The run ends with the first
/// generation whose best score makes `stop_rule` hold; a run that no rule
/// ends stops when its generation counter can count no further.
pub fn run_evolution<T: Evolvable, Fnew, Frate>(
    population: usize,
    stop_rule: StopRule,
    new: Fnew,
    rate: &mut Frate,
    opt_options: Option<EvolutionOptions>,
) -> (evolved: Evolved<T>) where Fnew: Fn() -> T, Frate: FnMut(&T) -> Fitness
    requires
        call_requires(new, ()),
        forall|individual: T| call_requires(*old(rate), (&individual,)),
    ensures
        evolved.population@.len() == effective_size(population),
        is_run(evolved.trace@, effective_size(population) as int, new, *old(rate)),
        evolved.trace@.len() > 0,
        evolved.trace@.last() == (Generation {
            individuals: evolved.population@,
            scores: evolved.scores@,
            best: evolved.best as int,
            second: evolved.second as int,
        }),
        forall|n: int, k: int|
            0 < n < evolved.trace@.len() && #[trigger] within(
                k,
                2,
                evolved.trace@[n].individuals.len() as int,
            ) ==> exists|child: &mut T|
                #![trigger call_ensures(T::mutate, (child,), ())]
                {
                    &&& call_ensures(
                        T::cross_over,
                        (&evolved.trace@[n].individuals[0], &evolved.trace@[n].individuals[1]),
                        *child,
                    )
                    &&& call_ensures(T::mutate, (child,), ())
                    &&& *final(child) == evolved.trace@[n].individuals[k]
                },
        evolved.progress.records(best_scores(evolved.trace@)),
        forall|n: int|
            0 <= n < evolved.trace@.len() ==> !stop_rule.holds(
                #[trigger] best_scores(evolved.trace@).take(n),
            ),
        stop_rule.holds(best_scores(evolved.trace@)) || evolved.progress.generation
            == usize::MAX,
        stop_rule matches StopRule::GenerationReached(count) ==> evolved.progress.generation
            == count,
        *final(rate) == *old(rate),
{
    let options = match opt_options {
        Some(options) => options,
        None => EvolutionOptions::defaults(),
    };
    let size = population_size(population);
    let mut individuals = populate(size, &new);
    let mut progress = Progress::start();
    let ghost mut trace: Seq<Generation<T>> = Seq::empty();
    loop
        invariant
            size == effective_size(population),
            individuals@.len() == size,
            is_run(trace, size as int, new, *old(rate)),
            trace.len() == 0 ==> forall|i: int|
                0 <= i < size ==> call_ensures(new, (), #[trigger] individuals@[i]),
            trace.len() > 0 ==> trace.last().survives_into(individuals@),
            forall|n: int, k: int|
                0 < n < trace.len() && #[trigger] within(
                    k,
                    2,
                    trace[n].individuals.len() as int,
                ) ==> exists|child: &mut T|
                    #![trigger call_ensures(T::mutate, (child,), ())]
                    {
                        &&& call_ensures(
                            T::cross_over,
                            (&trace[n].individuals[0], &trace[n].individuals[1]),
                            *child,
                        )
                        &&& call_ensures(T::mutate, (child,), ())
                        &&& *final(child) == trace[n].individuals[k]
                    },
            trace.len() > 0 ==> forall|k: int| #[trigger]
                within(k, 2, size as int) ==> exists|child: &mut T|
                    #![trigger call_ensures(T::mutate, (child,), ())]
                    {
                        &&& call_ensures(
                            T::cross_over,
                            (&individuals@[0], &individuals@[1]),
                            *child,
                        )
                        &&& call_ensures(T::mutate, (child,), ())
                        &&& *final(child) == individuals@[k]
                    },
            progress.records(best_scores(trace)),
            trace.len() > 0 ==> progress.generation < usize::MAX,
            forall|n: int|
                0 <= n <= trace.len() ==> !stop_rule.holds(#[trigger] best_scores(trace).take(n)),
            *rate == *old(rate),
            forall|individual: T| call_requires(*rate, (&individual,)),
        decreases usize::MAX + 1 - trace.len(),
    {
        let scores = score(&individuals, rate);
        let leaders = select_elites(&scores, options.threads);
        let best = leaders.best.unwrap();
        let second = leaders.second.unwrap();
        let fitness = scores[best];
        proof {
            let history = best_scores(trace);
            let generation = Generation {
                individuals: individuals@,
                scores: scores@,
                best: best as int,
                second: second as int,
            };
            let longer = trace.push(generation);
            lemma_observe_records(progress, history, fitness);
            assert(best_scores(longer) =~= history.push(fitness));
            assert forall|n: int| 0 <= n < longer.len() implies !stop_rule.holds(
                #[trigger] best_scores(longer).take(n),
            ) by {
                assert(best_scores(longer).take(n) =~= history.take(n));
            }
            assert(best_scores(longer).take(longer.len() as int) =~= best_scores(longer));
            assert(is_run(longer, size as int, new, *old(rate))) by {
                assert forall|n: int| 0 <= n < longer.len() implies (
                #[trigger] longer[n]).individuals.len() == size && longer[n].scored_by(
                    *old(rate),
                ) by {
                    if n < trace.len() {
                        assert(longer[n] == trace[n]);
                    }
                }
                assert forall|n: int| 0 < n < longer.len() implies longer[n - 1].survives_into(
                    (#[trigger] longer[n]).individuals,
                ) by {
                    if n < trace.len() {
                        assert(longer[n] == trace[n]);
                        assert(longer[n - 1] == trace[n - 1]);
                    } else {
                        assert(longer[n - 1] == trace.last());
                    }
                }
            }
            assert forall|n: int, k: int|
                0 < n < longer.len() && #[trigger] within(
                    k,
                    2,
                    longer[n].individuals.len() as int,
                ) implies exists|child: &mut T|
                #![trigger call_ensures(T::mutate, (child,), ())]
                {
                    &&& call_ensures(
                        T::cross_over,
                        (&longer[n].individuals[0], &longer[n].individuals[1]),
                        *child,
                    )
                    &&& call_ensures(T::mutate, (child,), ())
                    &&& *final(child) == longer[n].individuals[k]
                } by {
                if n < trace.len() {
                    assert(longer[n] == trace[n]);
                    assert(within(k, 2, trace[n].individuals.len() as int));
                } else {
                    assert(longer[n].individuals == individuals@);
                    assert(within(k, 2, size as int));
                }
            }
            trace = longer;
        }
        progress.observe(fitness);
        if stop_rule.fires(&progress) || progress.generation == usize::MAX {
            assert(stop_rule matches StopRule::GenerationReached(count) ==> progress.generation
                == count) by {
                let history = best_scores(trace);
                if history.len() >= 2 {
                    assert(!stop_rule.holds(history.take(history.len() - 1)));
                }
            }
            return Evolved {
                population: individuals,
                scores,
                best,
                second,
                progress,
                trace: Ghost(trace),
            };
        }
        replace_generation(&mut individuals, best, second);
    }
}

/// Evolves a population and returns its best individual.
///
/// The population has `population` individuals, or two if fewer are asked
/// for, each made by `new`. Every generation is scored by `rate`; its two
/// leaders survive, and the rest is replaced by their offspring. The
/// individual returned is the best of the first generation whose best score
/// makes `stop_rule` hold; a run that no rule ends stops when its generation
/// counter can count no further.
pub fn genetic_evolution<T: Evolvable, Fnew, Frate>(
    population: usize,
    stop_rule: StopRule,
    new: Fnew,
    rate: &mut Frate,
    opt_options: Option<EvolutionOptions>,
) -> (fittest: T) where Fnew: Fn() -> T, Frate: FnMut(&T) -> Fitness
    requires
        call_requires(new, ()),
        forall|individual: T| call_requires(*old(rate), (&individual,)),
    ensures
        exists|trace: Seq<Generation<T>>|
            {
                &&& #[trigger] is_run(trace, effective_size(population) as int, new, *old(rate))
                &&& trace.len() > 0
                &&& fittest == trace.last().individuals[trace.last().best]
                &&& forall|n: int, k: int|
                    0 < n < trace.len() && #[trigger] within(
                        k,
                        2,
                        trace[n].individuals.len() as int,
                    ) ==> exists|child: &mut T|
                        #![trigger call_ensures(T::mutate, (child,), ())]
                        {
                            &&& call_ensures(
                                T::cross_over,
                                (&trace[n].individuals[0], &trace[n].individuals[1]),
                                *child,
                            )
                            &&& call_ensures(T::mutate, (child,), ())
                            &&& *final(child) == trace[n].individuals[k]
                        }
                &&& forall|n: int|
                    0 <= n < trace.len() ==> !stop_rule.holds(
                        #[trigger] best_scores(trace).take(n),
                    )
                &&& stop_rule.holds(best_scores(trace)) || trace.len() == usize::MAX + 1
            },
        *final(rate) == *old(rate),
{
    let evolved = run_evolution(population, stop_rule, new, rate, opt_options);
    let mut last = evolved.population;
    last.swap_remove(evolved.best)
}

} // verus!
