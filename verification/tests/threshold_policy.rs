use hello_pubsub::threshold::CountedListener;
use hello_pubsub::threshold::ThresholdRegistry;

#[test]
fn threshold_counts_failures_across_passes() {
    let mut reg = ThresholdRegistry::new(3);
    reg.register(9);
    reg.finish_pass(&vec![false]);
    assert_eq!(reg.get(0), CountedListener { handle: 9, failures: 1 });
    reg.finish_pass(&vec![false]);
    assert_eq!(reg.get(0), CountedListener { handle: 9, failures: 2 });
    reg.finish_pass(&vec![false]);
    assert_eq!(reg.len(), 0);
}

#[test]
fn threshold_success_resets_count() {
    let mut reg = ThresholdRegistry::new(2);
    reg.register(5);
    reg.finish_pass(&vec![false]);
    assert_eq!(reg.get(0), CountedListener { handle: 5, failures: 1 });
    reg.finish_pass(&vec![true]);
    assert_eq!(reg.get(0), CountedListener { handle: 5, failures: 0 });
    reg.finish_pass(&vec![false]);
    assert_eq!(reg.len(), 1);
    reg.finish_pass(&vec![false]);
    assert_eq!(reg.len(), 0);
}

#[test]
fn threshold_five_consecutive_failures_evict() {
    let mut reg = ThresholdRegistry::new(5);
    reg.register(1);
    for pass in 1u32..5 {
        reg.finish_pass(&vec![false]);
        assert_eq!(reg.len(), 1);
        assert_eq!(reg.get(0).failures, pass);
    }
    reg.finish_pass(&vec![false]);
    assert_eq!(reg.len(), 0);
}

#[test]
fn threshold_mixed_pass_evicts_only_exhausted_listener() {
    let mut reg = ThresholdRegistry::new(2);
    reg.register(1);
    reg.register(2);
    reg.register(3);
    assert_eq!(reg.snapshot_handles(), vec![1, 2, 3]);
    reg.finish_pass(&vec![false, true, false]);
    assert_eq!(reg.snapshot_handles(), vec![1, 2, 3]);
    reg.finish_pass(&vec![false, false, true]);
    assert_eq!(reg.snapshot_handles(), vec![2, 3]);
    assert_eq!(reg.get(0), CountedListener { handle: 2, failures: 1 });
    assert_eq!(reg.get(1), CountedListener { handle: 3, failures: 0 });
}

#[test]
fn threshold_one_behaves_like_immediate_eviction() {
    let mut reg = ThresholdRegistry::new(1);
    reg.register(8);
    reg.register(9);
    reg.finish_pass(&vec![true, false]);
    assert_eq!(reg.snapshot_handles(), vec![8]);
}

#[test]
fn threshold_registration_during_pass_is_kept() {
    let mut reg = ThresholdRegistry::new(1);
    reg.register(1);
    let snapshot = reg.snapshot_handles();
    assert_eq!(snapshot, vec![1]);
    reg.register(2);
    reg.finish_pass(&vec![false]);
    assert_eq!(reg.snapshot_handles(), vec![2]);
}
