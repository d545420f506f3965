//! Which ping exchange the clock offset comes from.

use oxrdp::client::session::{OffsetEstimate, OffsetSample, OFFSET_CANDIDATES};

fn sample(rtt_us: u64, offset_us: i64, taken_at_us: u64) -> OffsetSample {
    OffsetSample {
        rtt_us,
        offset_us,
        taken_at_us,
    }
}

/// One congested exchange must not become the estimate simply by being last: a 100 ms round
/// trip would put a +/-50 ms bound on a stage with a 7 ms median.
#[test]
fn a_congested_exchange_does_not_displace_a_good_one() {
    let mut estimate = OffsetEstimate::new();
    estimate.push(sample(1_000, 4_000, 1_000_000));
    estimate.push(sample(100_000, 9_999, 1_500_000));

    let best = estimate.best(2_000_000).expect("a sample exists");

    assert_eq!(best.offset_us, 4_000, "the fast exchange should win");
    // Half of 1 ms, plus 1 s of drift at 100 ppm.
    assert_eq!(best.error_bound_us(2_000_000), 500 + 100);
}

/// And the part plain lowest-RTT selection gets wrong: a very old best sample is not best
/// any more, because the clocks have drifted apart since it was taken.
#[test]
fn a_stale_fast_sample_loses_to_a_fresh_slower_one() {
    let mut estimate = OffsetEstimate::new();
    // Excellent round trip, but taken 100 seconds ago: 10 ms of possible drift since.
    estimate.push(sample(200, -1_000, 0));
    // Ten times the round trip, but taken just now.
    estimate.push(sample(2_000, -1_200, 100_000_000));

    let best = estimate.best(100_000_000).expect("a sample exists");

    assert_eq!(
        best.offset_us, -1_200,
        "10 ms of drift beats 0.9 ms of round-trip asymmetry"
    );
    assert_eq!(best.error_bound_us(100_000_000), 1_000);
}

#[test]
fn the_bound_is_the_selected_sample_s_own_and_grows_as_it_ages() {
    let one = sample(1_000, 0, 0);

    assert_eq!(one.error_bound_us(0), 500, "half the round trip, no age");
    assert_eq!(one.error_bound_us(10_000_000), 500 + 1_000, "10 s of drift");
    assert_eq!(one.error_bound_us(60_000_000), 500 + 6_000, "60 s of drift");
}

#[test]
fn candidates_are_bounded_and_the_estimate_survives_eviction() {
    let mut estimate = OffsetEstimate::new();
    for i in 0..(OFFSET_CANDIDATES as u64 + 20) {
        estimate.push(sample(5_000, i as i64, i * 1_000_000));
    }

    assert_eq!(estimate.len(), OFFSET_CANDIDATES);
    assert!(
        estimate.best(100_000_000).is_some(),
        "eviction must not empty the estimate"
    );
}

#[test]
fn nothing_is_claimed_before_the_first_pong() {
    assert!(OffsetEstimate::new().best(1_000_000).is_none());
}
