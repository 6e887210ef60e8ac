use analog_spectral::IterationTracker;

#[test]
fn new_tracker_is_not_converged() {
    let t = IterationTracker::new(1000);
    // Nothing recorded: there is no residual below the tolerance.
    assert!(!t.is_converged(false));
    assert_eq!(t.iteration(), 0);
}

#[test]
fn record_increments_iteration() {
    let mut t = IterationTracker::new(1000);
    t.record();
    assert_eq!(t.iteration(), 1);
}

#[test]
fn converged_below_tolerance() {
    let tolerance = 1e-8;
    let mut t = IterationTracker::new(1000).with_min_iterations(5);
    let mut last = f64::INFINITY;
    for _ in 0..5 {
        last = 1e-10;
        t.record();
    }
    assert!(t.is_converged(last < tolerance));
}

#[test]
fn not_converged_above_tolerance() {
    let tolerance = 1e-8;
    let mut t = IterationTracker::new(1000).with_min_iterations(5);
    let mut last = f64::INFINITY;
    for _ in 0..20 {
        last = 1.0;
        t.record();
    }
    assert!(!t.is_converged(last < tolerance));
}

#[test]
fn exhausted_check() {
    let mut t = IterationTracker::new(5);
    for _ in 0..5 {
        t.record();
    }
    assert!(t.exhausted());
}

#[test]
fn finalize_converged() {
    let tolerance = 1e-6;
    let mut t = IterationTracker::new(1000).with_min_iterations(10);
    let mut last = f64::INFINITY;
    for _ in 0..20 {
        last = 1e-8;
        t.record();
    }
    assert!(t.is_converged(last < tolerance));
    assert_eq!(t.iteration(), 20);
    assert!(last < 1e-6);
}

#[test]
fn default_warmup_is_ten() {
    let t = IterationTracker::new(100);
    assert_eq!(t.min_iterations(), 10);
    assert_eq!(t.max_iterations(), 100);
}

#[test]
fn no_convergence_before_warmup() {
    let mut t = IterationTracker::new(1000);
    for _ in 0..9 {
        t.record();
    }
    assert!(!t.is_converged(true));
    t.record();
    assert!(t.is_converged(true));
}

#[test]
fn not_exhausted_before_limit_and_stays_exhausted() {
    let mut t = IterationTracker::new(3);
    t.record();
    t.record();
    assert!(!t.exhausted());
    t.record();
    assert!(t.exhausted());
    t.record();
    assert!(t.exhausted());
}

#[test]
fn zero_limit_is_exhausted_at_once() {
    let t = IterationTracker::new(0);
    assert!(t.exhausted());
}
