use bacon::align::{align_to_preferred_multiple, checked_align};
use bacon::generate::{Generation, StepAction};
use bacon::measure::{throughput, Sample, Trial};
use bacon::optimizer::{Best, Optimizer, SearchSpace, TrialReport};
use bacon::sink::{credentials, CredentialError, ResultSink};

fn per_sec(n: usize) -> Sample {
    Sample { total: n, nanos: 1_000_000_000 }
}

#[test]
fn align_rounds_up_to_multiple() {
    assert_eq!(align_to_preferred_multiple(1, 64), 64);
    assert_eq!(align_to_preferred_multiple(64, 64), 64);
    assert_eq!(align_to_preferred_multiple(65, 64), 128);
    assert_eq!(align_to_preferred_multiple(0, 64), 0);
}

#[test]
fn align_is_idempotent() {
    for x in [0usize, 1, 7, 31, 32, 33, 1000] {
        let a = align_to_preferred_multiple(x, 32);
        assert_eq!(align_to_preferred_multiple(a, 32), a);
    }
}

#[test]
fn checked_align_overflow_is_none() {
    assert_eq!(checked_align(usize::MAX, 64), None);
    assert_eq!(checked_align(100, 64), Some(128));
}

#[test]
fn space_aligns_bounds() {
    let s = SearchSpace::new(1, 1000, 64, 4096).unwrap();
    assert_eq!((s.from, s.to, s.multiple), (64, 1024, 64));
}

#[test]
fn space_max_zero_uses_device_max() {
    let s = SearchSpace::new(1, 0, 64, 4000).unwrap();
    assert_eq!(s.to, 4032);
}

#[test]
fn space_rejects_zero_multiple() {
    assert!(SearchSpace::new(1, 10, 0, 100).is_none());
}

#[test]
fn ordered_sweep_single_point_runs_one_trial() {
    let s = SearchSpace::new(256, 256, 256, 8192).unwrap();
    let mut o = Optimizer::new(s, true, false);
    assert_eq!(o.next_batch_size(), Some(256));
    assert_eq!(o.record(per_sec(1000)), TrialReport::NewBest);
    assert!(o.finished);
    assert_eq!(o.next_batch_size(), None);
}

#[test]
fn ordered_sweep_steps_by_multiple() {
    let s = SearchSpace::new(30, 100, 32, 0).unwrap();
    let mut o = Optimizer::new(s, true, true);
    let mut seen = Vec::new();
    while let Some(b) = o.next_batch_size() {
        seen.push(b);
        o.record(per_sec(5));
    }
    assert_eq!(seen, vec![32, 64, 96, 128]);
    for w in seen.windows(2) {
        assert_eq!(w[1] - w[0], 32);
    }
}

#[test]
fn random_candidates_stay_in_space() {
    let s = SearchSpace::new(100, 1000, 64, 0).unwrap();
    for rnd in [0usize, 1, 63, 64, 500, 895, 896, usize::MAX] {
        let c = s.random_candidate(rnd);
        assert_eq!(c % 64, 0);
        assert!(c >= 128 && c <= 1024);
    }
    let mut o = Optimizer::new(s, false, false);
    for _ in 0..50 {
        let b = o.next_batch_size().unwrap();
        assert!(b % 64 == 0 && b >= 128 && b <= 1024);
        o.record(per_sec(1));
    }
}

#[test]
fn random_candidate_single_point() {
    let s = SearchSpace::new(64, 64, 64, 0).unwrap();
    assert_eq!(s.random_candidate(12345), 64);
}

#[test]
fn best_never_decreases() {
    let mut b = Best::new();
    assert!(b.offer(64, per_sec(100)));
    assert!(!b.offer(128, per_sec(50)));
    assert_eq!((b.batch_size, b.sample.per_second()), (64, 100));
    assert!(!b.offer(192, per_sec(100)));
    assert!(b.offer(256, per_sec(101)));
    assert_eq!((b.batch_size, b.sample.per_second()), (256, 101));
}

#[test]
fn best_compares_exact_rates() {
    let mut b = Best::new();
    let slow = Sample { total: 1000, nanos: 1_000_000_000 };
    let fast = Sample { total: 1001, nanos: 1_000_500_000 };
    assert_eq!(slow.per_second(), fast.per_second());
    assert!(b.offer(64, slow));
    assert!(b.offer(128, fast));
    assert_eq!(b.batch_size, 128);
    assert!(!b.offer(192, Sample { total: 2002, nanos: 2_001_000_000 }));
}

#[test]
fn optimizer_reports_listed_when_all() {
    let s = SearchSpace::new(32, 96, 32, 0).unwrap();
    let mut o = Optimizer::new(s, true, true);
    o.next_batch_size();
    assert_eq!(o.record(per_sec(10)), TrialReport::NewBest);
    o.next_batch_size();
    assert_eq!(o.record(per_sec(5)), TrialReport::Listed);
    assert_eq!((o.best.batch_size, o.best.sample.per_second()), (32, 10));
    let mut q = Optimizer::new(s, true, false);
    q.next_batch_size();
    q.record(per_sec(10));
    assert_eq!(q.record(per_sec(5)), TrialReport::Quiet);
}

#[test]
fn throughput_exact_values() {
    assert_eq!(throughput(1000, 1_000_000_000), 1000);
    assert_eq!(throughput(3, 2_000_000_000), 1);
    assert_eq!(throughput(1, 3), 333_333_333);
}

#[test]
fn preheat_needs_more_than_two_batches() {
    let mut t = Trial::new(32);
    assert!(!t.preheat(0));
    assert!(!t.preheat(64));
    assert!(t.preheat(1));
    assert_eq!(t.preheated, 65);
}

#[test]
fn measure_skips_zero_elapsed_and_waits_one_second() {
    let mut t = Trial::new(32);
    t.preheat(100);
    assert_eq!(t.measure(500, 0), None);
    assert_eq!(t.measure(500, 500_000_000), None);
    assert_eq!(t.total, 1000);
    let m = t.measure(1000, 1_000_000_000).unwrap();
    assert_eq!(m, Sample { total: 2000, nanos: 1_000_000_000 });
    assert_eq!(m.per_second(), 2000);
}

#[test]
fn measure_needs_nonzero_rate() {
    let mut t = Trial::new(1);
    t.preheat(3);
    assert_eq!(t.measure(1, 2_000_000_000), None);
    assert_eq!(t.measure(1, 2_000_000_000), Some(Sample { total: 2, nanos: 2_000_000_000 }));
}

#[test]
fn sink_stops_after_count() {
    let mut s = ResultSink::reporting(3);
    assert!(s.found());
    assert!(s.found());
    assert!(!s.found());
    assert_eq!(s, ResultSink::Report { found: 3, count: 3 });
}

#[test]
fn sink_count_zero_stops_at_first() {
    let mut s = ResultSink::reporting(0);
    assert!(!s.found());
}

#[test]
fn sink_count_one_stops_at_first() {
    let mut s = ResultSink::reporting(1);
    assert!(!s.found());
}

#[test]
fn discarding_sink_never_stops() {
    let mut s = ResultSink::discarding();
    for _ in 0..10 {
        assert!(s.found());
    }
}

#[test]
fn generation_first_empty_step_is_not_an_error() {
    let mut g = Generation::new(true);
    assert_eq!(g.step(0, false), StepAction::Continue);
    assert!(!g.stopped);
    assert_eq!(g.step(32, false), StepAction::Report);
    assert_eq!(g.step(32, true), StepAction::Stop);
    assert_eq!(g.total, 64);
    assert!(g.stopped);
}

#[test]
fn generation_without_benchmark_never_reports() {
    let mut g = Generation::new(false);
    assert_eq!(g.step(100, false), StepAction::Continue);
}

#[test]
fn benchmark_figures() {
    let mut g = Generation::new(true);
    g.step(3000, false);
    let f = g.figures(1000, 1_500_000_000, 250_000_000);
    assert_eq!((f.elapsed_secs, f.elapsed_millis, f.total), (1, 500, 3000));
    assert_eq!(f.average, Some(2000));
    assert_eq!(f.last, Some(4000));
    let z = g.figures(1000, 0, 0);
    assert_eq!((z.average, z.last), (None, None));
}

#[test]
fn credentials_of_valid_key() {
    let key = [7u8; 32];
    let c = credentials(&key).unwrap();
    assert_eq!(c.phrase.split(' ').count(), 25);
    assert_eq!(c.phrase, algonaut_crypto::mnemonic::from_key(&key).unwrap());
    assert_eq!(c.address.len(), 58);
    assert!(!c.address.is_empty() && !c.phrase.is_empty());
}

#[test]
fn credentials_of_short_key() {
    assert!(matches!(credentials(&[1u8; 31]), Err(CredentialError::InvalidKey)));
    assert!(matches!(credentials(&[]), Err(CredentialError::InvalidKey)));
}
