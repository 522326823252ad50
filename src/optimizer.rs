use vstd::prelude::*;
use crate::measure::{self, Sample};
use crate::align::{align_up, checked_align, align_to_preferred_multiple, lemma_align_up_is_multiple, lemma_align_monotonic};

verus! {

/// Relies on rand::random: a value drawn from the thread-local generator.
/// Nothing is known of the value.
pub assume_specification<T>[ rand::random::<T> ]() -> (r: T)
    where
        rand::distributions::Standard: rand::distributions::Distribution<T>,
;

/// The batch sizes a search may try: aligned bounds `from` and `to` and the
/// multiple all sizes respect.
#[derive(Clone, Copy, PartialEq, Eq, Structural, Debug)]
pub struct SearchSpace {
    pub multiple: usize,
    pub from: usize,
    pub to: usize,
}

impl SearchSpace {
    pub open spec fn wf(&self) -> bool {
        &&& self.multiple > 0
        &&& self.from % self.multiple == 0
        &&& self.to % self.multiple == 0
    }

    /// The space for the requested `min` and `max`, where a `max` of 0 means
    /// `device_max`. Both bounds are rounded up to `multiple`. `None` where
    /// `multiple` is 0 or a rounded bound does not fit in a `usize`.
    pub fn new(min: usize, max: usize, multiple: usize, device_max: usize) -> (r: Option<SearchSpace>)
        ensures
            ({
                let upper = if max == 0 { device_max } else { max };
                match r {
                    Some(s) => {
                        &&& multiple > 0
                        &&& s.wf()
                        &&& s.multiple == multiple
                        &&& s.from == align_up(min as int, multiple as int)
                        &&& s.to == align_up(upper as int, multiple as int)
                        &&& (min <= upper ==> s.from <= s.to)
                    },
                    None => multiple == 0
                        || align_up(min as int, multiple as int) > usize::MAX
                        || align_up(upper as int, multiple as int) > usize::MAX,
                }
            }),
    {
        if multiple == 0 {
            return None;
        }
        let upper = if max == 0 { device_max } else { max };
        proof {
            lemma_align_up_is_multiple(min as int, multiple as int);
            lemma_align_up_is_multiple(upper as int, multiple as int);
            if min <= upper {
                lemma_align_monotonic(min as int, upper as int, multiple as int);
            }
        }
        match checked_align(min, multiple) {
            None => None,
            Some(from) => match checked_align(upper, multiple) {
                None => None,
                Some(to) => Some(SearchSpace { multiple, from, to }),
            },
        }
    }

    /// The size after `current` in an ordered sweep, if it does not pass `to`.
    pub open spec fn successor(&self, current: int) -> Option<int> {
        if current + self.multiple <= self.to {
            Some(current + self.multiple)
        } else {
            None
        }
    }

    /// The next size of an ordered sweep: one multiple further, or `None` once
    /// that would pass the upper bound.
    pub fn next_ordered(&self, current: usize) -> (r: Option<usize>)
        ensures
            r matches Some(n) ==> self.successor(current as int) == Some(n as int),
            r is None ==> self.successor(current as int) is None,
    {
        if current <= self.to && self.multiple <= self.to - current {
            Some(current + self.multiple)
        } else {
            None
        }
    }

    /// The random offset for a draw `rnd`: `rnd` modulo the width of the
    /// space, or 0 where the space is a single point.
    pub open spec fn offset(&self, rnd: int) -> int {
        if self.from < self.to {
            rnd % (self.to - self.from)
        } else {
            0
        }
    }

    /// The batch size for a random draw `rnd`: the lower bound plus the
    /// offset, rounded up to the multiple.
    pub fn random_candidate(&self, rnd: usize) -> (r: usize)
        requires
            self.wf(),
        ensures
            r == align_up(self.from + self.offset(rnd as int), self.multiple as int),
            r % self.multiple == 0,
            self.from <= r,
            self.from < self.to ==> r <= self.to,
            self.from >= self.to ==> r == self.from,
    {
        let val: usize = if self.from < self.to { rnd % (self.to - self.from) } else { 0 };
        let v = val + self.from;
        proof {
            lemma_align_up_is_multiple(v as int, self.multiple as int);
            if self.from < self.to {
                assert(v < self.to);
            }
        }
        align_to_preferred_multiple(v, self.multiple)
    }
}

/// An ordered sweep only yields multiples inside the space, each one
/// multiple above the one before.
pub proof fn lemma_ordered_sweep(s: SearchSpace, current: int)
    requires
        s.wf(),
        s.from <= current <= s.to,
        current % (s.multiple as int) == 0,
    ensures
        s.from % s.multiple == 0,
        s.from <= s.to,
        s.successor(current) matches Some(n) ==> {
            &&& n == current + s.multiple
            &&& n % (s.multiple as int) == 0
            &&& s.from <= n <= s.to
            &&& current < n
        },
        s.successor(current) is None ==> current + s.multiple > s.to,
{
    if s.successor(current) is Some {
        vstd::arithmetic::div_mod::lemma_mod_add_multiples_vanish(current, s.multiple as int);
    }
}

/// Random draws stay inside the space and on the multiple.
pub proof fn lemma_random_in_space(s: SearchSpace, rnd: int)
    requires
        s.wf(),
        s.from <= s.to,
        rnd >= 0,
    ensures
        ({
            let c = align_up(s.from + s.offset(rnd), s.multiple as int);
            &&& c % (s.multiple as int) == 0
            &&& s.from <= c <= s.to
        }),
{
    let v = s.from + s.offset(rnd);
    lemma_align_up_is_multiple(v, s.multiple as int);
    if s.from == s.to {
        assert(s.offset(rnd) == 0);
    }
}

/// The best batch size seen so far and the measurement that made it best.
#[derive(Clone, Copy, PartialEq, Eq, Structural, Debug)]
pub struct Best {
    pub batch_size: usize,
    pub sample: Sample,
}

impl Best {
    /// Nothing measured yet.
    pub fn new() -> (r: Best)
        ensures
            r == (Best { batch_size: 0, sample: Sample { total: 0, nanos: 1 } }),
    {
        Best { batch_size: 0, sample: Sample::zero() }
    }

    /// The best after a trial of `batch_size` measured as `sample`.
    pub open spec fn offered(self, batch_size: usize, sample: Sample) -> Best {
        if sample.faster_than(self.sample) {
            Best { batch_size, sample }
        } else {
            self
        }
    }

    /// Offers a trial's result. It replaces the best only where its rate is
    /// strictly higher; returns whether it did.
    pub fn offer(&mut self, batch_size: usize, sample: Sample) -> (r: bool)
        ensures
            *final(self) == old(self).offered(batch_size, sample),
            r == sample.faster_than(old(self).sample),
            !old(self).sample.faster_than(final(self).sample),
    {
        if sample.beats(&self.sample) {
            self.batch_size = batch_size;
            self.sample = sample;
            true
        } else {
            false
        }
    }
}

/// The best after offering each of `trials`, as (batch size, measurement)
/// pairs, in order, starting from `start`.
pub open spec fn best_after(start: Best, trials: Seq<(usize, Sample)>) -> Best
    decreases trials.len(),
{
    if trials.len() == 0 {
        start
    } else {
        best_after(start, trials.drop_last()).offered(trials.last().0, trials.last().1)
    }
}

/// Every measurement in `trials` took some time.
pub open spec fn timed(trials: Seq<(usize, Sample)>) -> bool {
    forall|k: int| 0 <= k < trials.len() ==> (#[trigger] trials[k]).1.nanos > 0
}

proof fn lemma_best_after_timed(start: Best, trials: Seq<(usize, Sample)>)
    requires
        start.sample.nanos > 0,
        timed(trials),
    ensures
        best_after(start, trials).sample.nanos > 0,
    decreases trials.len(),
{
    if trials.len() > 0 {
        let rest = trials.drop_last();
        assert(timed(rest)) by {
            assert forall|k: int| 0 <= k < rest.len() implies (#[trigger] rest[k]).1.nanos > 0 by {
                assert(rest[k] == trials[k]);
            }
        }
        lemma_best_after_timed(start, rest);
        assert(trials.last() == trials[trials.len() - 1]);
    }
}

/// Across the trials of one run, the best rate never decreases: after more
/// trials the best is at least as fast as after fewer.
pub proof fn lemma_best_monotonic(start: Best, trials: Seq<(usize, Sample)>, i: int, j: int)
    requires
        0 <= i <= j <= trials.len(),
        start.sample.nanos > 0,
        timed(trials),
    ensures
        !best_after(start, trials.take(i)).sample.faster_than(best_after(start, trials.take(j)).sample),
    decreases j - i,
{
    let bi = best_after(start, trials.take(i));
    if i == j {
        assert(!bi.sample.faster_than(bi.sample)) by (nonlinear_arith);
    } else {
        lemma_best_monotonic(start, trials, i, j - 1);
        let t = trials.take(j);
        assert(t.drop_last() == trials.take(j - 1));
        assert(t.last() == trials[j - 1]);
        let prev = best_after(start, trials.take(j - 1));
        let next = best_after(start, t);
        assert(timed(trials.take(i))) by {
            assert forall|k: int| 0 <= k < trials.take(i).len() implies (#[trigger] trials.take(i)[k]).1.nanos > 0 by {
                assert(trials.take(i)[k] == trials[k]);
            }
        }
        assert(timed(trials.take(j - 1))) by {
            assert forall|k: int| 0 <= k < trials.take(j - 1).len() implies (#[trigger] trials.take(j - 1)[k]).1.nanos > 0 by {
                assert(trials.take(j - 1)[k] == trials[k]);
            }
        }
        lemma_best_after_timed(start, trials.take(i));
        lemma_best_after_timed(start, trials.take(j - 1));
        assert(trials[j - 1].1.nanos > 0);
        if !trials[j - 1].1.faster_than(prev.sample) {
            assert(next == prev);
        } else {
            assert(next.sample == trials[j - 1].1);
            let (pt, pn, nt, nn) = (prev.sample.total as int, prev.sample.nanos as int, next.sample.total as int, next.sample.nanos as int);
            assert(nt * pn > pt * nn);
            assert(!prev.sample.faster_than(next.sample));
        }
        measure::lemma_not_faster_transitive(next.sample, prev.sample, bi.sample);
    }
}

/// What to report of a finished trial.
#[derive(Clone, Copy, PartialEq, Eq, Structural, Debug)]
pub enum TrialReport {
    /// The trial set a new best.
    NewBest,
    /// The trial did not improve, and every trial is listed.
    Listed,
    /// The trial did not improve, and only improvements are listed.
    Quiet,
}

/// A batch-size search: an ordered sweep from the lower to the upper bound,
/// or random sampling without end.
pub struct Optimizer {
    pub space: SearchSpace,
    pub ordered: bool,
    pub all: bool,
    pub current: usize,
    pub finished: bool,
    pub best: Best,
}

impl Optimizer {
    pub open spec fn wf(&self) -> bool {
        &&& self.space.wf()
        &&& self.current % self.space.multiple == 0
        &&& self.space.from <= self.current
        &&& (!self.ordered ==> !self.finished)
        &&& (self.ordered && self.space.from <= self.space.to ==> self.current <= self.space.to)
        &&& self.best.sample.nanos > 0
    }

    /// A search over `space` that starts at its lower bound with no best.
    pub fn new(space: SearchSpace, ordered: bool, all: bool) -> (r: Optimizer)
        requires
            space.wf(),
        ensures
            r.wf(),
            r.space == space,
            r.ordered == ordered,
            r.all == all,
            r.current == space.from,
            !r.finished,
            r.best == (Best { batch_size: 0, sample: Sample { total: 0, nanos: 1 } }),
    {
        Optimizer { space, ordered, all, current: space.from, finished: false, best: Best::new() }
    }

    /// The batch size of the next trial for a random draw `rnd`, which only
    /// random sampling uses; `None` once an ordered sweep is complete.
    pub fn pick(&mut self, rnd: usize) -> (r: Option<usize>)
        requires
            old(self).wf(),
        ensures
            final(self).wf(),
            final(self).space == old(self).space,
            final(self).ordered == old(self).ordered,
            final(self).all == old(self).all,
            final(self).finished == old(self).finished,
            final(self).best == old(self).best,
            old(self).ordered ==> final(self).current == old(self).current,
            !old(self).ordered ==> final(self).current == align_up(
                old(self).space.from + old(self).space.offset(rnd as int),
                old(self).space.multiple as int,
            ),
            r == (if old(self).finished { None::<usize> } else { Some(final(self).current) }),
    {
        if self.finished {
            return None;
        }
        if !self.ordered {
            self.current = self.space.random_candidate(rnd);
        }
        Some(self.current)
    }

    /// The batch size of the next trial, drawing a random size where the
    /// search samples; `None` once an ordered sweep is complete.
    pub fn next_batch_size(&mut self) -> (r: Option<usize>)
        requires
            old(self).wf(),
        ensures
            final(self).wf(),
            final(self).space == old(self).space,
            final(self).ordered == old(self).ordered,
            final(self).finished == old(self).finished,
            final(self).best == old(self).best,
            old(self).ordered ==> final(self).current == old(self).current,
            r == (if old(self).finished { None::<usize> } else { Some(final(self).current) }),
            r matches Some(b) ==> b % final(self).space.multiple == 0 && final(self).space.from <= b,
            r matches Some(b) ==> (old(self).space.from <= old(self).space.to ==> b <= old(self).space.to),
    {
        let rnd: usize = if self.ordered { 0 } else { rand::random::<usize>() };
        proof {
            if !self.ordered && self.space.from <= self.space.to {
                lemma_random_in_space(self.space, rnd as int);
            }
        }
        self.pick(rnd)
    }

    /// Records the throughput of the trial at the current size: updates the
    /// best, advances an ordered sweep, and says what to report.
    pub fn record(&mut self, sample: Sample) -> (r: TrialReport)
        requires
            old(self).wf(),
            !old(self).finished,
            sample.nanos > 0,
        ensures
            final(self).wf(),
            final(self).space == old(self).space,
            final(self).ordered == old(self).ordered,
            final(self).all == old(self).all,
            final(self).best == old(self).best.offered(old(self).current, sample),
            !old(self).best.sample.faster_than(final(self).best.sample),
            r == (if sample.faster_than(old(self).best.sample) {
                TrialReport::NewBest
            } else if old(self).all {
                TrialReport::Listed
            } else {
                TrialReport::Quiet
            }),
            old(self).ordered ==> match old(self).space.successor(old(self).current as int) {
                Some(n) => final(self).current == n && !final(self).finished,
                None => final(self).current == old(self).current && final(self).finished,
            },
            !old(self).ordered ==> final(self).current == old(self).current && !final(self).finished,
    {
        let improved = self.best.offer(self.current, sample);
        if self.ordered {
            match self.space.next_ordered(self.current) {
                Some(n) => {
                    proof {
                        vstd::arithmetic::div_mod::lemma_mod_add_multiples_vanish(
                            self.current as int,
                            self.space.multiple as int,
                        );
                    }
                    self.current = n;
                },
                None => {
                    self.finished = true;
                },
            }
        }
        if improved {
            TrialReport::NewBest
        } else if self.all {
            TrialReport::Listed
        } else {
            TrialReport::Quiet
        }
    }
}

} // verus!
