//! The client's clock.

use oxrdp::client::clock::{saturated, ClientClock};

#[test]
fn copies_share_one_epoch() {
    // A decode worker holds a copy; its timestamps must be comparable with the session
    // task's, not offset by however long the worker took to start.
    let clock = ClientClock::new();
    let copy = clock;
    let before = clock.now_us();
    let middle = copy.now_us();
    let after = clock.now_us();

    assert!(before <= middle && middle <= after);
}

#[test]
fn a_clock_rebuilt_from_its_epoch_reads_alike() {
    let clock = ClientClock::new();
    let again = ClientClock::from_epoch(clock.epoch());
    let before = clock.now_us();
    let middle = again.now_us();
    let after = clock.now_us();
    assert!(before <= middle && middle <= after);
}

#[test]
fn a_span_past_the_counter_saturates() {
    assert_eq!(saturated(0), 0);
    assert_eq!(saturated(u128::from(u64::MAX)), u64::MAX);
    assert_eq!(saturated(u128::from(u64::MAX) + 1), u64::MAX);
}
