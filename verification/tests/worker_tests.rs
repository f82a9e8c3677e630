use cpu_eater::worker::{Worker, COUNTER_STEP};

#[test]
fn fresh_worker_has_nothing_pending() {
    let w = Worker::new();
    assert_eq!(w.pending_iterations(), 0);
    assert_eq!(w.busy_value(), 0);
}

#[test]
fn unit_completes_on_the_thousandth_iteration() {
    let mut w = Worker::new();
    for i in 1..COUNTER_STEP {
        assert!(!w.tick());
        assert_eq!(w.pending_iterations(), i);
    }
    assert!(w.tick());
    assert_eq!(w.pending_iterations(), 0);
    assert_eq!(w.busy_value(), 0);
}

#[test]
fn units_after_almost_a_million_iterations() {
    let mut w = Worker::new();
    let mut units: u64 = 0;
    for _ in 1..1_000_000usize {
        if w.tick() {
            units += 1;
        }
    }
    assert_eq!(w.pending_iterations(), 999);
    assert_eq!(units, 999);
    assert_eq!(w.busy_value(), 0);
}
