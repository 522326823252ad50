use vstd::prelude::*;

verus! {

/// Nanoseconds in one second.
pub const NANOS_PER_SEC: u64 = 1_000_000_000;

/// Items per second, rounded down, for `count` items in `nanos` nanoseconds.
pub open spec fn rate(count: int, nanos: int) -> int {
    count * NANOS_PER_SEC / nanos
}

/// `a + b`, held at `usize::MAX` instead of wrapping.
pub open spec fn sat_add(a: usize, b: usize) -> usize {
    if a + b <= usize::MAX {
        (a + b) as usize
    } else {
        usize::MAX
    }
}

/// Throughput of `count` items processed in `nanos` nanoseconds, in items per
/// second rounded down.
pub fn throughput(count: usize, nanos: u64) -> (r: u128)
    requires
        nanos > 0,
    ensures
        r == rate(count as int, nanos as int),
{
    let c = count as u128;
    assert(c * 1_000_000_000 <= u128::MAX) by (nonlinear_arith)
        requires c <= usize::MAX;
    (c * (NANOS_PER_SEC as u128)) / (nanos as u128)
}

/// A measurement is stable once the work done is at least one second's worth
/// at the observed rate, and that rate is at least one item per second.
pub open spec fn stable(total: int, nanos: int) -> bool {
    rate(total, nanos) > 0 && total * nanos >= total * NANOS_PER_SEC
}

/// A stable measurement: `total` items processed in `nanos` nanoseconds.
#[derive(Clone, Copy, PartialEq, Eq, Structural, Debug)]
pub struct Sample {
    pub total: usize,
    pub nanos: u64,
}

impl Sample {
    /// No work in a nominal nanosecond: slower than any measurement.
    pub fn zero() -> (r: Sample)
        ensures
            r == (Sample { total: 0, nanos: 1 }),
    {
        Sample { total: 0, nanos: 1 }
    }

    /// `self` shows a strictly higher rate than `other`, compared exactly.
    pub open spec fn faster_than(self, other: Sample) -> bool {
        self.total * other.nanos > other.total * self.nanos
    }

    /// Whether `self` shows a strictly higher rate than `other`.
    pub fn beats(&self, other: &Sample) -> (r: bool)
        ensures
            r == self.faster_than(*other),
    {
        let a = self.total as u128;
        let b = other.nanos as u128;
        let c = other.total as u128;
        let d = self.nanos as u128;
        assert(a * b <= u128::MAX) by (nonlinear_arith)
            requires a <= usize::MAX, b <= u64::MAX;
        assert(c * d <= u128::MAX) by (nonlinear_arith)
            requires c <= usize::MAX, d <= u64::MAX;
        a * b > c * d
    }

    /// The rate in items per second, rounded down.
    pub fn per_second(&self) -> (r: u128)
        requires
            self.nanos > 0,
        ensures
            r == rate(self.total as int, self.nanos as int),
    {
        throughput(self.total, self.nanos)
    }
}

/// Of two samples with time elapsed, neither slower than the next, the first
/// is not slower than the last.
pub proof fn lemma_not_faster_transitive(x: Sample, y: Sample, z: Sample)
    requires
        x.nanos > 0,
        y.nanos > 0,
        z.nanos > 0,
        !y.faster_than(x),
        !z.faster_than(y),
    ensures
        !z.faster_than(x),
{
    let (xt, xn, yt, yn, zt, zn) = (x.total as int, x.nanos as int, y.total as int, y.nanos as int, z.total as int, z.nanos as int);
    assert(yt * xn <= xt * yn);
    assert(zt * yn <= yt * zn);
    assert(zt * xn * yn <= xt * zn * yn) by (nonlinear_arith)
        requires
            yt * xn <= xt * yn,
            zt * yn <= yt * zn,
            xn > 0,
            zn > 0,
    {
        assert(zt * yn * xn <= yt * zn * xn);
        assert(yt * xn * zn <= xt * yn * zn);
    }
    assert(zt * xn <= xt * zn) by (nonlinear_arith)
        requires
            zt * xn * yn <= xt * zn * yn,
            yn > 0,
    ;
}

/// The state of one throughput trial on a runner of a fixed batch size: a
/// warm-up phase whose work is discarded, then a timed phase.
pub struct Trial {
    pub batch_size: usize,
    pub preheated: usize,
    pub total: usize,
    pub warm: bool,
}

impl Trial {
    /// A trial that has not stepped yet.
    pub fn new(batch_size: usize) -> (r: Trial)
        ensures
            r.batch_size == batch_size,
            r.preheated == 0,
            r.total == 0,
            !r.warm,
    {
        Trial { batch_size, preheated: 0, total: 0, warm: false }
    }

    /// Counts one warm-up step. Returns `true` once the warm-up has processed
    /// more than two batches; timing starts after that step.
    pub fn preheat(&mut self, processed: usize) -> (r: bool)
        requires
            !old(self).warm,
        ensures
            final(self).batch_size == old(self).batch_size,
            final(self).total == old(self).total,
            final(self).preheated == sat_add(old(self).preheated, processed),
            r == (final(self).preheated > 2 * final(self).batch_size),
            final(self).warm == r,
    {
        self.preheated = self.preheated.saturating_add(processed);
        let done = (self.preheated as u128) > 2 * (self.batch_size as u128);
        self.warm = done;
        done
    }

    /// Counts one timed step, `elapsed_nanos` after timing started. Returns
    /// the measurement once it is stable; a step with no elapsed time is
    /// skipped.
    pub fn measure(&mut self, processed: usize, elapsed_nanos: u64) -> (r: Option<Sample>)
        requires
            old(self).warm,
        ensures
            final(self).batch_size == old(self).batch_size,
            final(self).preheated == old(self).preheated,
            final(self).warm,
            final(self).total == sat_add(old(self).total, processed),
            r == (if elapsed_nanos > 0 && stable(final(self).total as int, elapsed_nanos as int) {
                Some(Sample { total: final(self).total, nanos: elapsed_nanos })
            } else {
                None::<Sample>
            }),
    {
        self.total = self.total.saturating_add(processed);
        if elapsed_nanos == 0 {
            return None;
        }
        let perf = throughput(self.total, elapsed_nanos);
        let t = self.total as u128;
        let n = elapsed_nanos as u128;
        assert(t * n <= u128::MAX) by (nonlinear_arith)
            requires t <= usize::MAX, n <= u64::MAX;
        assert(t * 1_000_000_000 <= u128::MAX) by (nonlinear_arith)
            requires t <= usize::MAX;
        if perf > 0 && t * n >= t * (NANOS_PER_SEC as u128) {
            Some(Sample { total: self.total, nanos: elapsed_nanos })
        } else {
            None
        }
    }
}

} // verus!
