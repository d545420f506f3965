//! Round-trip samples and the clock offset estimate.

use oxrdp::proto::latency::{ClockSync, Samples};

#[test]
fn samples_window_evicts_oldest() {
    let mut s = Samples::new(3);
    for v in [10, 20, 30, 40] {
        s.push(v);
    }
    assert_eq!(s.len(), 3);
    assert_eq!(s.last(), Some(40));
    assert_eq!(s.min(), Some(20));
    assert_eq!(s.max(), Some(40));
    assert_eq!(s.mean(), Some(30));
}

#[test]
fn empty_samples_report_nothing() {
    let s = Samples::new(4);
    assert!(s.is_empty());
    assert_eq!(s.mean(), None);
    assert_eq!(s.percentile(50), None);
}

#[test]
fn percentiles_use_nearest_rank() {
    let mut s = Samples::new(10);
    for v in [10, 20, 30, 40, 50] {
        s.push(v);
    }
    assert_eq!(s.percentile(0), Some(10));
    assert_eq!(s.percentile(50), Some(30));
    assert_eq!(s.percentile(100), Some(50));
}

#[test]
fn clock_sync_estimates_rtt_and_offset_when_the_agent_is_ahead() {
    let mut c = ClockSync::new(8);
    // Client sends at 1000, agent replies stamped 5100, client receives at 1200.
    // rtt = 200, offset = 5100 - (1000 + 100) = 4000.
    c.on_ping_sent(1, 1000);
    assert_eq!(c.on_pong(1, 5100, 1200), Some(200));
    assert_eq!(c.rtt().last(), Some(200));
    assert_eq!(c.offset_us(), Some(4000));
    assert_eq!(c.offset_error_bound_us(), Some(100), "half the 200us RTT");
    // An agent timestamp of 5100 corresponds to client time 1100.
    assert_eq!(c.agent_to_client(5100), Some(1100));
}

/// Computing the offset as an unsigned difference would floor it at zero instead of going
/// negative, and every agent-behind-client session would report no clock skew at all.
#[test]
fn clock_sync_estimates_a_negative_offset_when_the_agent_is_behind() {
    let mut c = ClockSync::new(8);
    // Client sends at 10_000, agent replies stamped 8_000 (2000us behind), client receives
    // at 10_200. rtt = 200, offset = 8000 - (10000 + 100) = -2100.
    c.on_ping_sent(1, 10_000);
    assert_eq!(c.on_pong(1, 8_000, 10_200), Some(200));
    assert_eq!(c.offset_us(), Some(-2_100));
    // An agent timestamp of 8_000 corresponds to client time 10_100 — later than the agent
    // timestamp's own numeric value, because the agent's clock reads behind.
    assert_eq!(c.agent_to_client(8_000), Some(10_100));
}

#[test]
fn an_unsolicited_pong_is_ignored() {
    let mut c = ClockSync::new(4);
    assert_eq!(c.on_pong(99, 1, 2), None);
    assert!(c.rtt().is_empty());
    assert_eq!(c.offset_us(), None);
    // A replayed pong for an already-answered ping is also ignored.
    c.on_ping_sent(1, 100);
    assert!(c.on_pong(1, 500, 200).is_some());
    assert_eq!(c.on_pong(1, 500, 200), None);
}

/// A Pong answering an older Ping than the one behind the current estimate must not replace
/// a good estimate with a worse one — it still counts for RTT statistics, just not for
/// `offset_us`. An ordered transport never delivers one, but the estimator does not assume that.
#[test]
fn a_pong_for_an_older_ping_updates_rtt_but_not_the_stale_offset() {
    let mut c = ClockSync::new(8);
    c.on_ping_sent(2, 2_000);
    c.on_ping_sent(1, 1_000);
    // The newer ping (seq 2, sent later) is answered first.
    assert_eq!(c.on_pong(2, 6_000, 2_200), Some(200));
    assert_eq!(c.offset_us(), Some(3_900)); // 6000 - (2000 + 100)

    // Now the older ping's reply arrives, with a wildly different (implausible) offset. If
    // applied, this would corrupt the estimate with stale data.
    assert_eq!(
        c.on_pong(1, 50_000, 1_200),
        Some(200),
        "still a valid RTT sample"
    );
    assert_eq!(
        c.offset_us(),
        Some(3_900),
        "the older ping's reply must not overwrite the newer estimate"
    );
    assert_eq!(
        c.rtt().len(),
        2,
        "both round trips still count as RTT samples"
    );
}

#[test]
fn a_window_holds_the_most_recent_samples() {
    let mut s = Samples::new(3);
    for n in 1..=10u64 {
        s.push(n * 10);
        let k = n.min(3);
        assert_eq!(s.len() as u64, k);
        assert_eq!(s.last(), Some(n * 10));
        assert_eq!(s.min(), Some((n - k + 1) * 10));
        assert_eq!(s.max(), Some(n * 10));
    }
    assert_eq!(s.to_vec(), vec![80, 90, 100]);
    assert_eq!(s.mean(), Some(90));
}
