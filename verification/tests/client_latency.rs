//! Where a frame's time goes.

use oxrdp::client::latency::{LatencyMonitor, MAX_IN_FLIGHT};

#[test]
fn a_disabled_monitor_records_nothing() {
    let mut monitor = LatencyMonitor::disabled();
    monitor.on_arrival(1, 1, 0, 0, 0);
    monitor.on_decoded(1, 1, 0);

    assert_eq!(monitor.on_presented(1, 1, 100, 0), None);
    assert!(!monitor.has_samples());
}

#[test]
fn the_stages_split_the_journey_and_add_up() {
    let mut monitor = LatencyMonitor::enabled();
    // The agent's clock reads 10_000 us ahead of the client's.
    // Captured at agent 15_000 (client 5_000), encoded at agent 15_400 (client 5_400).
    // Arrived on the client at 6_000, decoded at 9_000, presented at 9_500.
    monitor.on_arrival(1, 7, 15_000, 15_400, 6_000);
    monitor.on_decoded(1, 7, 9_000);

    let stages = monitor
        .on_presented(1, 7, 9_500, 10_000)
        .expect("the frame was seen arriving");

    assert_eq!(stages.capture_to_encode_us, 400);
    assert_eq!(
        stages.encode_to_arrival_us, 600,
        "client 6000 - client 5400"
    );
    assert_eq!(stages.arrival_to_decode_us, 3_000);
    assert_eq!(stages.decode_to_present_us, 500);
    assert_eq!(
        stages.client_us, 3_500,
        "arrival to present, no agent clock"
    );
    assert_eq!(stages.total_us, 4_500, "client 9500 - client 5000");
    // The four stages account for the whole of the end-to-end figure.
    assert_eq!(
        stages.capture_to_encode_us
            + stages.encode_to_arrival_us
            + stages.arrival_to_decode_us
            + stages.decode_to_present_us,
        stages.total_us
    );
}

#[test]
fn the_client_only_span_does_not_move_with_the_clock_estimate() {
    // The point of separating them: a wrong offset must not corrupt what the client measured
    // entirely with its own clock.
    let mut monitor = LatencyMonitor::enabled();
    for (frame_id, offset) in [(1u64, 0i64), (2, 10_000), (3, -250_000)] {
        monitor.on_arrival(1, frame_id, 15_000, 15_400, 6_000);
        monitor.on_decoded(1, frame_id, 9_000);
        let stages = monitor
            .on_presented(1, frame_id, 9_500, offset)
            .expect("recorded");
        assert_eq!(stages.client_us, 3_500, "offset {offset} changed it");
        assert_eq!(stages.arrival_to_decode_us, 3_000);
        assert_eq!(stages.decode_to_present_us, 500);
        assert_eq!(stages.capture_to_encode_us, 400, "agent-only, also exact");
    }
}

#[test]
fn an_agent_clock_behind_the_client_is_handled() {
    let mut monitor = LatencyMonitor::enabled();
    // Agent clock 2_000 us *behind*: agent 3_000 is client 5_000.
    monitor.on_arrival(1, 1, 3_000, 3_200, 5_400);
    monitor.on_decoded(1, 1, 5_500);

    let stages = monitor.on_presented(1, 1, 5_600, -2_000).expect("recorded");

    assert_eq!(
        stages.encode_to_arrival_us, 200,
        "client 5400 - client 5200"
    );
    assert_eq!(stages.total_us, 600, "client 5600 - client 5000");
}

#[test]
fn a_frame_never_seen_arriving_is_not_invented() {
    let mut monitor = LatencyMonitor::enabled();
    assert_eq!(monitor.on_presented(1, 1, 100, 0), None);
    assert_eq!(monitor.on_presented(9, 9, 100, 0), None);
}

#[test]
fn a_frame_presented_without_a_decode_report_still_accounts() {
    // The passthrough path presents without a separate decode step.
    let mut monitor = LatencyMonitor::enabled();
    monitor.on_arrival(1, 1, 1_000, 1_100, 2_000);

    let stages = monitor.on_presented(1, 1, 2_500, 0).expect("recorded");

    assert_eq!(stages.arrival_to_decode_us, 0);
    assert_eq!(stages.decode_to_present_us, 500);
    assert_eq!(stages.client_us, 500);
}

#[test]
fn frames_that_never_complete_are_bounded_and_counted() {
    let mut monitor = LatencyMonitor::enabled();
    for frame_id in 0..(MAX_IN_FLIGHT as u64 + 50) {
        monitor.on_arrival(1, frame_id, 0, 0, 0);
    }

    let window = monitor.window(1).expect("window exists");
    assert!(window.in_flight.len() <= MAX_IN_FLIGHT);
    assert_eq!(window.dropped, 50, "evicted frames are counted, not lost");
}

#[test]
fn dropped_frames_are_counted_rather_than_left_in_flight() {
    let mut monitor = LatencyMonitor::enabled();
    monitor.on_arrival(1, 1, 0, 0, 0);
    monitor.on_dropped(1, 1);

    let window = monitor.window(1).expect("window exists");
    assert_eq!(window.dropped, 1);
    assert!(window.in_flight.is_empty());
    // And it cannot then be presented.
    assert_eq!(monitor.on_presented(1, 1, 100, 0), None);
}

#[test]
fn windows_are_accounted_separately() {
    let mut monitor = LatencyMonitor::enabled();
    monitor.on_arrival(1, 1, 0, 0, 0);
    monitor.on_decoded(1, 1, 100);
    monitor.on_presented(1, 1, 200, 0);
    monitor.on_arrival(2, 1, 0, 0, 0);
    monitor.on_decoded(2, 1, 900);
    monitor.on_presented(2, 1, 1_000, 0);

    assert_eq!(monitor.window(1).expect("window 1").total.last(), Some(200));
    assert_eq!(monitor.window(2).expect("window 2").total.last(), Some(1_000));

    monitor.forget(1);
    assert!(monitor.window(1).is_none());
    assert!(monitor.window(2).is_some());
}

#[test]
fn the_report_says_when_the_clock_is_unknown() {
    let mut monitor = LatencyMonitor::enabled();
    monitor.on_arrival(1, 1, 0, 0, 0);
    monitor.on_decoded(1, 1, 100);
    monitor.on_presented(1, 1, 200, 0);

    let without = monitor.report(None, None);
    assert!(without.contains("no pong yet"), "{without}");

    let with = monitor.report(Some(800), Some(4_000));
    assert!(with.contains("round trip 800"), "{with}");
    assert!(with.contains("+/-400"), "half the round trip: {with}");
    assert!(with.contains("window 1"), "{with}");
    assert!(with.contains("END TO END"), "{with}");
}

#[test]
fn percentiles_come_from_the_samples_not_the_mean() {
    let mut monitor = LatencyMonitor::enabled();
    // Ninety-nine fast frames and one very slow one: the mean would hide it, p99 must not.
    for frame_id in 0..99 {
        monitor.on_arrival(1, frame_id, 0, 0, 0);
        monitor.on_decoded(1, frame_id, 0);
        monitor.on_presented(1, frame_id, 1_000, 0);
    }
    monitor.on_arrival(1, 99, 0, 0, 0);
    monitor.on_decoded(1, 99, 0);
    monitor.on_presented(1, 99, 500_000, 0);

    let window = monitor.window(1).expect("window 1");
    assert_eq!(window.total.percentile(50), Some(1_000));
    assert_eq!(window.total.max(), Some(500_000));
    let report = monitor.report(Some(100), Some(0));
    assert!(
        report.contains("500000"),
        "the outlier must appear: {report}"
    );
}

#[test]
fn a_forgotten_window_takes_its_samples_with_it() {
    let mut monitor = LatencyMonitor::enabled();
    monitor.on_arrival(1, 1, 0, 0, 0);
    assert!(!monitor.has_samples(), "nothing was presented yet");
    assert!(monitor.on_presented(1, 1, 100, 0).is_some());
    assert!(monitor.has_samples());
    monitor.forget(2);
    assert!(monitor.has_samples());
    monitor.forget(1);
    assert!(!monitor.has_samples());
    assert_eq!(monitor.on_presented(1, 1, 200, 0), None);
    assert!(!monitor.has_samples());
}
