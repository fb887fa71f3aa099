use presto::clock::NANOS_PER_SECOND;
use presto::monitor::{
    start_activity_monitoring, stop_activity_monitoring, update_activity_timeout, ActivityMonitor,
    MonitorError, PollOutcome, ProbeSupport, StartOutcome, ACTIVE_IDLE_LIMIT_NANOS,
    POLL_INTERVAL_MILLIS,
};

const SECOND: u64 = 1_000_000_000;

fn running(last_activity: u64, threshold: u64) -> ActivityMonitor {
    ActivityMonitor { last_activity, is_monitoring: true, inactivity_threshold: threshold, run: 1 }
}

fn stopped(last_activity: u64, threshold: u64, run: u64) -> ActivityMonitor {
    ActivityMonitor { last_activity, is_monitoring: false, inactivity_threshold: threshold, run }
}

#[test]
fn monitor_constants() {
    assert_eq!(POLL_INTERVAL_MILLIS, 500);
    assert_eq!(ACTIVE_IDLE_LIMIT_NANOS, SECOND);
    assert_eq!(NANOS_PER_SECOND, SECOND);
}

#[test]
fn new_monitor_is_stopped() {
    let monitor = ActivityMonitor::new(17, 30);
    assert_eq!(monitor, stopped(17, 30, 0));
}

#[test]
fn start_of_a_stopped_monitor_takes_now_as_baseline() {
    let mut monitor = ActivityMonitor::new(17, 30);
    assert_eq!(monitor.start_monitoring(5 * SECOND), StartOutcome::Started { run: 1 });
    assert_eq!(monitor, running(5 * SECOND, 30));
}

#[test]
fn start_of_a_running_monitor_is_a_no_op() {
    let mut monitor = running(5 * SECOND, 30);
    assert_eq!(monitor.start_monitoring(9 * SECOND), StartOutcome::AlreadyRunning);
    assert_eq!(monitor, running(5 * SECOND, 30));
}

#[test]
fn stop_then_start_resets_the_baseline() {
    let mut monitor = running(5 * SECOND, 30);
    monitor.stop_monitoring();
    assert_eq!(monitor, stopped(5 * SECOND, 30, 1));
    assert_eq!(monitor.start_monitoring(40 * SECOND), StartOutcome::Started { run: 2 });
    assert_eq!(
        monitor,
        ActivityMonitor {
            last_activity: 40 * SECOND,
            is_monitoring: true,
            inactivity_threshold: 30,
            run: 2,
        }
    );
}

#[test]
fn threshold_can_be_updated_in_either_state() {
    let mut monitor = ActivityMonitor::new(0, 30);
    monitor.update_threshold(60);
    assert_eq!(monitor.inactivity_threshold, 60);
    assert!(!monitor.is_monitoring);
    monitor.start_monitoring(1);
    monitor.update_threshold(90);
    assert_eq!(monitor, running(1, 90));
    monitor.stop_monitoring();
    monitor.update_threshold(15);
    assert_eq!(monitor, stopped(1, 15, 1));
}

#[test]
fn idle_below_one_second_is_activity() {
    assert!(ActivityMonitor::check_system_activity(0));
    assert!(ActivityMonitor::check_system_activity(SECOND - 1));
    assert!(!ActivityMonitor::check_system_activity(SECOND));
    assert!(!ActivityMonitor::check_system_activity(u64::MAX));
}

#[test]
fn poll_of_a_stopped_monitor_leaves_the_loop() {
    let mut monitor = ActivityMonitor::new(3, 30);
    assert_eq!(monitor.poll(0, 0, 100 * SECOND), PollOutcome::Exit);
    assert_eq!(monitor, ActivityMonitor::new(3, 30));
}

#[test]
fn activity_moves_the_baseline() {
    let mut monitor = running(0, 30);
    assert_eq!(monitor.poll(1, 200_000_000, 12 * SECOND), PollOutcome::Activity);
    assert_eq!(monitor, running(12 * SECOND, 30));
}

#[test]
fn idle_system_below_the_threshold_is_quiet() {
    let mut monitor = running(10 * SECOND, 30);
    assert_eq!(monitor.poll(1, 5 * SECOND, 40 * SECOND - 1), PollOutcome::Quiet);
    assert_eq!(monitor, running(10 * SECOND, 30));
}

#[test]
fn inactivity_fires_at_the_threshold_and_resets_the_baseline() {
    let mut monitor = running(10 * SECOND, 30);
    assert_eq!(monitor.poll(1, 30 * SECOND, 40 * SECOND), PollOutcome::Inactivity);
    assert_eq!(monitor, running(40 * SECOND, 30));
}

#[test]
fn inactivity_fires_once_per_threshold_interval() {
    let mut monitor = running(0, 2);
    let mut fired = Vec::new();
    for tick in 1..=12u64 {
        let now = tick * 500_000_000;
        if monitor.poll(1, 5 * SECOND, now) == PollOutcome::Inactivity {
            fired.push(now);
        }
    }
    assert_eq!(fired, vec![2 * SECOND, 4 * SECOND, 6 * SECOND]);
}

#[test]
fn updated_threshold_holds_from_the_next_sample() {
    let mut monitor = running(0, 60);
    assert_eq!(monitor.poll(1, 5 * SECOND, 10 * SECOND), PollOutcome::Quiet);
    monitor.update_threshold(10);
    assert_eq!(monitor.poll(1, 5 * SECOND, 10 * SECOND), PollOutcome::Inactivity);
}

#[test]
fn threshold_of_zero_reports_inactivity_at_every_idle_sample() {
    let mut monitor = running(7, 0);
    assert_eq!(monitor.poll(1, SECOND, 7), PollOutcome::Inactivity);
    assert_eq!(monitor.poll(1, SECOND, 8), PollOutcome::Inactivity);
}

#[test]
fn huge_threshold_does_not_overflow() {
    let mut monitor = running(0, u64::MAX);
    assert_eq!(monitor.poll(1, u64::MAX, u64::MAX), PollOutcome::Quiet);
    let mut monitor = running(0, 18_446_744_073);
    assert_eq!(monitor.poll(1, u64::MAX, u64::MAX), PollOutcome::Inactivity);
    let mut monitor = running(0, 18_446_744_074);
    assert_eq!(monitor.poll(1, u64::MAX, u64::MAX), PollOutcome::Quiet);
}

#[test]
fn clock_reading_before_the_baseline_counts_as_no_time_passed() {
    let mut monitor = running(50 * SECOND, 1);
    assert_eq!(monitor.poll(1, 2 * SECOND, 10 * SECOND), PollOutcome::Quiet);
    assert_eq!(monitor, running(50 * SECOND, 1));
}

#[test]
fn first_start_request_makes_and_starts_the_monitor() {
    let mut slot = None;
    let outcome = start_activity_monitoring(&mut slot, ProbeSupport::Supported, 30, 11);
    assert_eq!(outcome, Ok(StartOutcome::Started { run: 1 }));
    assert_eq!(slot, Some(running(11, 30)));
}

#[test]
fn second_start_request_ignores_its_threshold() {
    let mut slot = Some(running(11, 30));
    let outcome = start_activity_monitoring(&mut slot, ProbeSupport::Supported, 120, 99);
    assert_eq!(outcome, Ok(StartOutcome::AlreadyRunning));
    assert_eq!(slot, Some(running(11, 30)));
}

#[test]
fn start_request_after_stop_keeps_the_threshold_and_resets_the_baseline() {
    let mut slot = Some(running(11, 30));
    stop_activity_monitoring(&mut slot);
    assert_eq!(slot, Some(stopped(11, 30, 1)));
    let outcome = start_activity_monitoring(&mut slot, ProbeSupport::Supported, 120, 99);
    assert_eq!(outcome, Ok(StartOutcome::Started { run: 2 }));
    assert_eq!(
        slot,
        Some(ActivityMonitor {
            last_activity: 99,
            is_monitoring: true,
            inactivity_threshold: 30,
            run: 2,
        })
    );
}

#[test]
fn start_request_fails_explicitly_without_a_probe() {
    let mut slot = None;
    let outcome = start_activity_monitoring(&mut slot, ProbeSupport::Unsupported, 30, 11);
    assert_eq!(outcome, Err(MonitorError::Unsupported));
    assert_eq!(slot, Some(ActivityMonitor::new(11, 30)));
    assert_eq!(
        MonitorError::Unsupported.message(),
        "Activity monitoring is only supported on macOS"
    );
}

#[test]
fn stop_request_without_a_monitor_does_nothing() {
    let mut slot: Option<ActivityMonitor> = None;
    stop_activity_monitoring(&mut slot);
    assert_eq!(slot, None);
}

#[test]
fn threshold_update_needs_a_monitor() {
    let mut slot: Option<ActivityMonitor> = None;
    assert_eq!(update_activity_timeout(&mut slot, 60), Err(MonitorError::NotInitialized));
    assert_eq!(slot, None);
    assert_eq!(MonitorError::NotInitialized.message(), "Activity monitor not initialized");
    let mut slot = Some(ActivityMonitor::new(1, 30));
    assert_eq!(update_activity_timeout(&mut slot, 60), Ok(()));
    assert_eq!(slot, Some(ActivityMonitor::new(1, 60)));
}

#[test]
fn loop_asks_at_the_top_of_each_turn_whether_its_run_goes_on() {
    let mut monitor = ActivityMonitor::new(0, 30);
    assert!(!monitor.keeps_running(0));
    assert_eq!(monitor.start_monitoring(1), StartOutcome::Started { run: 1 });
    assert!(monitor.keeps_running(1));
    assert!(!monitor.keeps_running(0));
    assert!(!monitor.keeps_running(2));
    monitor.stop_monitoring();
    assert!(!monitor.keeps_running(1));
}

#[test]
fn stop_retires_the_loop_even_if_a_start_follows_at_once() {
    let mut monitor = ActivityMonitor::new(0, 30);
    let first = monitor.start_monitoring(SECOND);
    assert_eq!(first, StartOutcome::Started { run: 1 });
    monitor.stop_monitoring();
    let second = monitor.start_monitoring(2 * SECOND);
    assert_eq!(second, StartOutcome::Started { run: 2 });
    let before = monitor;
    // The loop of the first run wakes up: it must leave and change nothing.
    assert!(!monitor.keeps_running(1));
    assert_eq!(monitor.poll(1, 0, 3 * SECOND), PollOutcome::Exit);
    assert_eq!(monitor, before);
    // The loop of the second run is the one that emits.
    assert!(monitor.keeps_running(2));
    assert_eq!(monitor.poll(2, 0, 3 * SECOND), PollOutcome::Activity);
    assert_eq!(monitor.last_activity, 3 * SECOND);
}

#[test]
fn run_numbers_wrap() {
    let mut monitor = stopped(0, 30, u64::MAX);
    assert_eq!(monitor.start_monitoring(5), StartOutcome::Started { run: 0 });
    assert!(monitor.keeps_running(0));
    assert!(!monitor.keeps_running(u64::MAX));
}
