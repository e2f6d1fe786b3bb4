//! The driver that restarts the algorithm while its runs keep improving.
use vstd::prelude::*;
use crate::float_bits::{le, less_eq};
use crate::individual::Individual;

verus! {

/// State of a sequence of independent runs. The caller makes a first run and
/// hands each result to `offer`, launching another run while it answers
/// `true`. A result is accepted as the new best when its fitness is not below
/// the best so far; the first result that falls below it, or the end of the
/// run budget, stops the sequence.
pub struct Restarts {
    /// The best accepted so far; before any is accepted, an empty individual
    /// of fitness `0.0`.
    pub best: Individual,
    /// How many more results may still be accepted.
    pub runs_left: u64,
    /// The sequence has ended; nothing more is accepted.
    pub stopped: bool,
}

impl Restarts {
    /// A sequence that accepts at most `budget` results.
    pub fn new(budget: u64) -> (r: Restarts)
        ensures
            r.best.chromosome@.len() == 0,
            r.best.fitness == 0,
            r.runs_left == budget,
            !r.stopped,
    {
        Restarts { best: Individual::new(Vec::new()), runs_left: budget, stopped: false }
    }

    /// Takes the result of the latest run and says whether to launch another.
    pub fn offer(&mut self, last: Individual) -> (go_on: bool)
        ensures
            go_on == (!old(self).stopped && old(self).runs_left > 0 && less_eq(
                old(self).best.fitness,
                last.fitness,
            )),
            go_on ==> final(self).best == last && final(self).runs_left == old(self).runs_left - 1
                && !final(self).stopped,
            !go_on ==> final(self).best == old(self).best && final(self).stopped
                && final(self).runs_left == old(self).runs_left,
    {
        if self.stopped || self.runs_left == 0 || !le(self.best.fitness, last.fitness) {
            self.stopped = true;
            false
        } else {
            self.best = last;
            self.runs_left = self.runs_left - 1;
            true
        }
    }

    /// The best result accepted.
    pub fn into_best(self) -> (r: Individual)
        ensures
            r == self.best,
    {
        self.best
    }
}

} // verus!
