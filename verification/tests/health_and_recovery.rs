use audioleaf::health::{
    classify_stream_error, health_after_report, should_fall_back_to_default, stream_health_label,
    summarize_visualizer_status, LiveVisualizerRecoveryState, StreamErrorCounts, StreamErrorKind,
    StreamErrorSource, StreamErrorTelemetry, StreamHealth,
};

#[test]
fn health_labels() {
    assert_eq!(stream_health_label(StreamHealth::Starting), "Starting");
    assert_eq!(stream_health_label(StreamHealth::Healthy), "Healthy");
    assert_eq!(stream_health_label(StreamHealth::Degraded), "Degraded");
    assert_eq!(stream_health_label(StreamHealth::Restarting), "Restarting");
    assert_eq!(stream_health_label(StreamHealth::Stopped), "Stopped");
}

#[test]
fn status_summary() {
    assert_eq!(summarize_visualizer_status(false, StreamHealth::Healthy, 0), "Restarting");
    assert_eq!(summarize_visualizer_status(true, StreamHealth::Healthy, 0), "Healthy");
    assert_eq!(summarize_visualizer_status(true, StreamHealth::Healthy, 2), "Degraded");
    assert_eq!(summarize_visualizer_status(true, StreamHealth::Degraded, 0), "Degraded");
    assert_eq!(summarize_visualizer_status(true, StreamHealth::Starting, 0), "Restarting");
    assert_eq!(summarize_visualizer_status(true, StreamHealth::Stopped, 0), "Restarting");
}

#[test]
fn stream_error_classes() {
    assert_eq!(classify_stream_error(StreamErrorSource::DeviceNotAvailable, ""), StreamErrorKind::DeviceUnavailable);
    assert_eq!(classify_stream_error(StreamErrorSource::StreamInvalidated, ""), StreamErrorKind::DeviceUnavailable);
    assert_eq!(classify_stream_error(StreamErrorSource::BufferUnderrun, ""), StreamErrorKind::XRun);
    assert_eq!(
        classify_stream_error(StreamErrorSource::BackendSpecific, "alsa: Buffer underrun/overrun occurred."),
        StreamErrorKind::XRun
    );
    assert_eq!(classify_stream_error(StreamErrorSource::BackendSpecific, "poll: POLLERR"), StreamErrorKind::PollErr);
    assert_eq!(
        classify_stream_error(StreamErrorSource::BackendSpecific, "the device is no longer available"),
        StreamErrorKind::DeviceUnavailable
    );
    assert_eq!(classify_stream_error(StreamErrorSource::BackendSpecific, "device not available"), StreamErrorKind::DeviceUnavailable);
    assert_eq!(classify_stream_error(StreamErrorSource::BackendSpecific, "something else"), StreamErrorKind::Other);
}

#[test]
fn telemetry_reports_every_ten_seconds() {
    let mut t = StreamErrorTelemetry::new(1000);
    t.record(StreamErrorKind::XRun);
    t.record(StreamErrorKind::XRun);
    t.record(StreamErrorKind::PollErr);
    assert_eq!(t.take_report_if_due(5000), None);
    assert_eq!(t.take_report_if_due(500), None);
    let (interval, lifetime) = t.take_report_if_due(11000).unwrap();
    assert_eq!(interval.xrun, 2);
    assert_eq!(interval.pollerr, 1);
    assert_eq!(interval.total(), 3);
    assert_eq!(lifetime.total(), 3);
    assert_eq!(health_after_report(interval), StreamHealth::Degraded);
    t.record(StreamErrorKind::Other);
    assert_eq!(t.interval.total(), 1);
    assert_eq!(t.lifetime.total(), 4);
    let (interval, _) = t.take_report_if_due(21000).unwrap();
    assert_eq!(interval.other, 1);
    let (interval, lifetime) = t.take_report_if_due(31000).unwrap();
    assert_eq!(interval, StreamErrorCounts::zero());
    assert_eq!(lifetime.total(), 4);
    assert_eq!(health_after_report(interval), StreamHealth::Healthy);
}

#[test]
fn interval_stays_within_lifetime() {
    let mut t = StreamErrorTelemetry::new(0);
    for kind in [StreamErrorKind::XRun, StreamErrorKind::DeviceUnavailable, StreamErrorKind::XRun] {
        t.record(kind);
        assert!(t.interval.xrun <= t.lifetime.xrun);
        assert!(t.interval.device_unavailable <= t.lifetime.device_unavailable);
    }
}

#[test]
fn restart_cooldown_doubles_up_to_a_minute() {
    let mut s = LiveVisualizerRecoveryState::new();
    assert_eq!(s.restart_cooldown_ms(), 1000);
    let expected = [2000, 4000, 8000, 16000, 32000, 60000, 60000];
    for e in expected {
        s.mark_recovery_failure();
        assert_eq!(s.restart_cooldown_ms(), e);
    }
    s.consecutive_restart_failures = 25;
    assert_eq!(s.restart_cooldown_ms(), 60000);
    s.consecutive_restart_failures = u32::MAX;
    assert_eq!(s.mark_recovery_failure(), u32::MAX);
}

#[test]
fn cooldown_remaining() {
    let mut s = LiveVisualizerRecoveryState::new();
    assert_eq!(s.restart_cooldown_remaining(5000), None);
    s.mark_restart_attempt(10_000);
    assert_eq!(s.restart_cooldown_remaining(10_400), Some(600));
    assert_eq!(s.restart_cooldown_remaining(9_000), Some(1000));
    assert_eq!(s.restart_cooldown_remaining(11_000), None);
    s.mark_recovery_failure();
    assert_eq!(s.restart_cooldown_remaining(11_000), Some(1000));
}

#[test]
fn two_healthy_pings_clear_failures() {
    let mut s = LiveVisualizerRecoveryState::new();
    assert!(!s.mark_watchdog_healthy());
    assert_eq!(s.healthy_ping_streak, 0);
    s.mark_recovery_failure();
    s.mark_recovery_failure();
    assert_eq!(s.consecutive_restart_failures, 2);
    assert!(!s.mark_watchdog_healthy());
    assert_eq!(s.healthy_ping_streak, 1);
    assert!(s.mark_watchdog_healthy());
    assert_eq!(s.consecutive_restart_failures, 0);
    assert_eq!(s.healthy_ping_streak, 0);
}

#[test]
fn success_and_attempt_bookkeeping() {
    let mut s = LiveVisualizerRecoveryState::new();
    s.mark_recovery_failure();
    s.mark_recovery_success(true, 77);
    assert!(s.auto_fallback_to_default_active);
    assert_eq!(s.last_restart_at_ms, Some(77));
    assert_eq!(s.consecutive_restart_failures, 1);
}

#[test]
fn fallback_to_default_backend() {
    assert!(!should_fall_back_to_default("default", 10));
    assert!(!should_fall_back_to_default("hw:1", 2));
    assert!(should_fall_back_to_default("hw:1", 3));
}
