//! When a run stops.
//!
//! A run is judged by its history: the best score of each generation scored so
//! far, oldest first. The engine keeps of that history only what the rules
//! read, in a `Progress`.

use crate::fitness::Fitness;
use vstd::prelude::*;

verus! {

/// The rule by which a run ends.
#[derive(Clone, Copy, Debug, PartialEq, Eq, Structural)]
pub enum StopRule {
    /// Stop once the best score is at least the given one.
    FitnessReached(Fitness),
    /// Stop once that many generations have been completed.
    GenerationReached(usize),
    /// Stop once the best score has failed to rise for that many generations
    /// in a row.
    HasNotImprovedSince(usize),
    /// Never stop.
    Never,
}

/// How many of the latest generations, counted back from the last one without
/// a gap, had a best score that did not exceed that of the generation before.
/// The first generation has none before it and never counts.
pub open spec fn stagnation(history: Seq<Fitness>) -> nat
    decreases history.len(),
{
    if history.len() < 2 {
        0
    } else if history[history.len() - 1].rank() > history[history.len() - 2].rank() {
        0
    } else {
        stagnation(history.drop_last()) + 1
    }
}

/// What a run remembers of its history.
#[derive(Clone, Copy, Debug, PartialEq, Eq, Structural)]
pub struct Progress {
    /// The number of completed generations: the index of the generation that
    /// was scored last.
    pub generation: usize,
    /// The best score of the generation that was scored last, if any was.
    pub best: Option<Fitness>,
    /// The number of generations in a row, up to the last one, that failed to
    /// raise the best score.
    pub stagnant: usize,
}

impl Progress {
    /// This is what a run with the given history remembers.
    pub open spec fn records(self, history: Seq<Fitness>) -> bool {
        if history.len() == 0 {
            self == (Progress { generation: 0, best: None, stagnant: 0 })
        } else {
            &&& self.generation == history.len() - 1
            &&& self.best == Some(history.last())
            &&& self.stagnant == stagnation(history)
        }
    }

    /// What a run remembers after one more generation was scored, with `best`
    /// as its best score.
    pub open spec fn after(self, best: Fitness) -> Progress {
        match self.best {
            None => Progress { generation: 0, best: Some(best), stagnant: 0 },
            Some(previous) => Progress {
                generation: (self.generation + 1) as usize,
                best: Some(best),
                stagnant: if best.rank() > previous.rank() {
                    0
                } else if self.stagnant < usize::MAX {
                    (self.stagnant + 1) as usize
                } else {
                    usize::MAX
                },
            },
        }
    }

    /// The progress of a run that has scored nothing yet.
    pub fn start() -> (progress: Progress)
        ensures
            progress == (Progress { generation: 0, best: None, stagnant: 0 }),
            progress.records(Seq::empty()),
    {
        Progress { generation: 0, best: None, stagnant: 0 }
    }

    /// Takes note of the best score of the generation scored next. The first
    /// score opens generation 0; each later one closes a generation, as long
    /// as the counter of generations can count it.
    pub fn observe(&mut self, best: Fitness)
        requires
            old(self).best is Some ==> old(self).generation < usize::MAX,
        ensures
            *final(self) == old(self).after(best),
    {
        match self.best {
            None => {
                self.generation = 0;
                self.stagnant = 0;
            },
            Some(previous) => {
                self.generation = self.generation + 1;
                if best.exceeds(&previous) {
                    self.stagnant = 0;
                } else if self.stagnant < usize::MAX {
                    self.stagnant = self.stagnant + 1;
                }
            },
        }
        self.best = Some(best);
    }
}

impl StopRule {
    /// Whether the rule asks to stop, given the number of completed
    /// generations, the best score of the last one and the length of the
    /// streak without a rise.
    pub open spec fn met(self, generation: nat, best: Fitness, stagnant: nat) -> bool {
        match self {
            StopRule::FitnessReached(threshold) => !threshold.is_nan() && best.rank()
                >= threshold.rank(),
            StopRule::GenerationReached(count) => generation >= count,
            StopRule::HasNotImprovedSince(count) => stagnant >= count,
            StopRule::Never => false,
        }
    }

    /// Whether the rule asks to stop after the given history.
    pub open spec fn holds(self, history: Seq<Fitness>) -> bool {
        &&& history.len() > 0
        &&& self.met((history.len() - 1) as nat, history.last(), stagnation(history))
    }

    /// Whether a run with the given history stops at its end and did not stop
    /// before.
    pub open spec fn stops_at_end_of(self, history: Seq<Fitness>) -> bool {
        &&& self.holds(history)
        &&& forall|n: int| 0 <= n < history.len() ==> !self.holds(#[trigger] history.take(n))
    }

    /// Whether the rule asks to stop a run at the given progress. A run that
    /// has scored nothing is never stopped.
    pub fn fires(&self, progress: &Progress) -> (stop: bool)
        ensures
            stop == (progress.best matches Some(best) && self.met(
                progress.generation as nat,
                best,
                progress.stagnant as nat,
            )),
    {
        match progress.best {
            None => false,
            Some(best) => match self {
                StopRule::FitnessReached(threshold) => best.reaches(threshold),
                StopRule::GenerationReached(count) => progress.generation >= *count,
                StopRule::HasNotImprovedSince(count) => progress.stagnant >= *count,
                StopRule::Never => false,
            },
        }
    }
}

/// A streak is shorter than the history it is counted in.
pub proof fn lemma_stagnation_bound(history: Seq<Fitness>)
    ensures
        history.len() > 0 ==> stagnation(history) < history.len(),
        history.len() == 0 ==> stagnation(history) == 0,
    decreases history.len(),
{
    if history.len() >= 2 {
        lemma_stagnation_bound(history.drop_last());
    }
}

/// Observing one more score keeps the progress in step with the history.
pub proof fn lemma_observe_records(progress: Progress, history: Seq<Fitness>, best: Fitness)
    requires
        progress.records(history),
        history.len() <= usize::MAX,
    ensures
        history.len() > 0 ==> progress.generation < usize::MAX,
        progress.after(best).records(history.push(best)),
{
    let longer = history.push(best);
    lemma_stagnation_bound(history);
    lemma_stagnation_bound(longer);
    if history.len() > 0 {
        assert(longer.drop_last() =~= history);
        assert(longer[longer.len() - 2] == history.last());
    }
}

/// With `fires` answering for a progress that records a history, the answer
/// is whether the rule holds after that history.
pub proof fn lemma_fires_is_holds(rule: StopRule, progress: Progress, history: Seq<Fitness>)
    requires
        progress.records(history),
    ensures
        rule.holds(history) <==> (progress.best matches Some(best) && rule.met(
            progress.generation as nat,
            best,
            progress.stagnant as nat,
        )),
{
}

/// A run under `GenerationReached(count)` stops after exactly `count`
/// completed generations: at the end of a history of `count + 1` scored
/// generations, not sooner and not later.
pub proof fn lemma_generation_reached_is_exact(count: usize, history: Seq<Fitness>)
    ensures
        StopRule::GenerationReached(count).stops_at_end_of(history) <==> history.len() == count
            + 1,
{
    let rule = StopRule::GenerationReached(count);
    if history.len() == count + 1 {
        assert forall|n: int| 0 <= n < history.len() implies !rule.holds(
            #[trigger] history.take(n),
        ) by {}
    }
    if history.len() > count + 1 {
        assert(rule.holds(history.take(count + 1)));
    }
}

/// A run under `HasNotImprovedSince(count)` whose best score rises strictly
/// over its first `rise` generations and then fails to rise for `count`
/// generations stops at the last of these, not sooner.
pub proof fn lemma_plateau_stops_at_its_end(count: usize, rise: nat, history: Seq<Fitness>)
    requires
        count >= 1,
        rise >= 1,
        history.len() == rise + count,
        forall|i: int| 0 < i < rise ==> (#[trigger] history[i]).rank() > history[i - 1].rank(),
        forall|i: int|
            rise <= i < rise + count ==> (#[trigger] history[i]).rank() <= history[i - 1].rank(),
    ensures
        StopRule::HasNotImprovedSince(count).stops_at_end_of(history),
{
    let rule = StopRule::HasNotImprovedSince(count);
    assert forall|n: int| 0 <= n <= history.len() implies stagnation(#[trigger] history.take(n))
        == if n <= rise {
        0
    } else {
        n - rise
    } by {
        lemma_stagnation_of_rise_and_plateau(rise, history, n);
    }
    assert(history.take(history.len() as int) =~= history);
}

/// The streak after `n` generations of a history that rises strictly over its
/// first `rise` generations and does not rise after them.
proof fn lemma_stagnation_of_rise_and_plateau(rise: nat, history: Seq<Fitness>, n: int)
    requires
        rise >= 1,
        0 <= n <= history.len(),
        forall|i: int| 0 < i < rise ==> (#[trigger] history[i]).rank() > history[i - 1].rank(),
        forall|i: int|
            rise <= i < history.len() ==> (#[trigger] history[i]).rank() <= history[i - 1].rank(),
    ensures
        stagnation(history.take(n)) == if n <= rise {
            0
        } else {
            n - rise
        },
    decreases n,
{
    let prefix = history.take(n);
    if n >= 2 {
        lemma_stagnation_of_rise_and_plateau(rise, history, n - 1);
        assert(prefix.drop_last() =~= history.take(n - 1));
        assert(prefix[n - 1] == history[n - 1]);
        assert(prefix[n - 2] == history[n - 2]);
    }
}

} // verus!
