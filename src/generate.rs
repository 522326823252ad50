use vstd::prelude::*;
use crate::measure::{sat_add, rate, throughput, NANOS_PER_SEC};

verus! {

/// What the driver does after a step of the runner.
#[derive(Clone, Copy, PartialEq, Eq, Structural, Debug)]
pub enum StepAction {
    /// Step again.
    Continue,
    /// Report throughput, then step again.
    Report,
    /// The runner is done: stop stepping.
    Stop,
}

/// A generation run: the candidates processed so far, and whether the runner
/// has reported that it is done.
pub struct Generation {
    pub total: usize,
    pub stopped: bool,
    pub benchmark: bool,
}

/// Throughput figures of a generation run, for its benchmark report.
pub struct BenchmarkFigures {
    pub elapsed_secs: u64,
    pub elapsed_millis: u64,
    pub total: usize,
    /// Candidates per second over the whole run; `None` before any time passed.
    pub average: Option<u128>,
    /// Candidates per second of the last step; `None` if it took no time.
    pub last: Option<u128>,
}

impl Generation {
    /// A run that has not stepped yet; `benchmark` asks for throughput reports.
    pub fn new(benchmark: bool) -> (r: Generation)
        ensures
            r.total == 0,
            !r.stopped,
            r.benchmark == benchmark,
    {
        Generation { total: 0, stopped: false, benchmark }
    }

    /// Takes the result of one step: `processed` candidates, and whether the
    /// runner is done. A step that processed nothing is no error.
    pub fn step(&mut self, processed: usize, done: bool) -> (r: StepAction)
        requires
            !old(self).stopped,
        ensures
            final(self).total == sat_add(old(self).total, processed),
            final(self).stopped == done,
            final(self).benchmark == old(self).benchmark,
            r == (if done {
                StepAction::Stop
            } else if old(self).benchmark && final(self).total > 0 {
                StepAction::Report
            } else {
                StepAction::Continue
            }),
    {
        self.total = self.total.saturating_add(processed);
        self.stopped = done;
        if done {
            StepAction::Stop
        } else if self.benchmark && self.total > 0 {
            StepAction::Report
        } else {
            StepAction::Continue
        }
    }

    /// The benchmark figures, `run_nanos` after the run started, for a last
    /// step of `batch_size` candidates that took `step_nanos`.
    pub fn figures(&self, batch_size: usize, run_nanos: u64, step_nanos: u64) -> (r: BenchmarkFigures)
        ensures
            r.elapsed_secs == run_nanos / NANOS_PER_SEC,
            r.elapsed_millis == (run_nanos % NANOS_PER_SEC) / 1_000_000,
            r.total == self.total,
            r.average == (if run_nanos > 0 {
                Some(rate(self.total as int, run_nanos as int) as u128)
            } else {
                None::<u128>
            }),
            r.last == (if step_nanos > 0 {
                Some(rate(batch_size as int, step_nanos as int) as u128)
            } else {
                None::<u128>
            }),
    {
        let average = if run_nanos > 0 { Some(throughput(self.total, run_nanos)) } else { None };
        let last = if step_nanos > 0 { Some(throughput(batch_size, step_nanos)) } else { None };
        BenchmarkFigures {
            elapsed_secs: run_nanos / NANOS_PER_SEC,
            elapsed_millis: (run_nanos % NANOS_PER_SEC) / 1_000_000,
            total: self.total,
            average,
            last,
        }
    }
}

} // verus!
