//! Activity monitor: the state machine behind the idle-detection loop.
//!
//! The monitor is either stopped or running. While it runs, a polling loop
//! samples the idle time of the system at a fixed cadence and hands each
//! sample to `ActivityMonitor::poll`, which decides what to emit. Every
//! start opens a new run, and a polling loop serves the run in which it was
//! spawned: a stop retires the loop for good, also when a start follows
//! before the loop has looked, so that one loop at most emits. Times are
//! readings of a monotonic clock in nanoseconds.

use crate::clock::{elapsed, elapsed_since, NANOS_PER_SECOND};
use vstd::prelude::*;
use vstd::string::StringExecFns;

verus! {

/// Pause of the polling loop between two samples, in milliseconds.
pub const POLL_INTERVAL_MILLIS: u64 = 500;

/// A system that was idle for less than this many nanoseconds is in use.
pub const ACTIVE_IDLE_LIMIT_NANOS: u64 = 1_000_000_000;

/// State shared by the polling loop and the command handlers.
#[derive(Clone, Copy, Debug, PartialEq, Eq, Structural)]
pub struct ActivityMonitor {
    /// Clock reading of the last activity, or of the last inactivity notice.
    pub last_activity: u64,
    /// Whether the monitor is running.
    pub is_monitoring: bool,
    /// Seconds without activity after which inactivity is reported.
    pub inactivity_threshold: u64,
    /// Number of the current run: every start of a stopped monitor takes the
    /// next number.
    pub run: u64,
}

/// What a start request did.
#[derive(Clone, Copy, Debug, PartialEq, Eq, Structural)]
pub enum StartOutcome {
    /// The monitor was stopped and now runs: a polling loop must be spawned
    /// for the run of this number.
    Started { run: u64 },
    /// The monitor already ran: nothing changed.
    AlreadyRunning,
}

/// What the polling loop must do after a sample.
#[derive(Clone, Copy, Debug, PartialEq, Eq, Structural)]
pub enum PollOutcome {
    /// The run of the loop is over: leave the loop.
    Exit,
    /// The system is in use: emit an activity notification.
    Activity,
    /// The threshold passed without activity: emit an inactivity notification.
    Inactivity,
    /// Nothing to emit.
    Quiet,
}

/// Whether the platform has an idle-time probe.
#[derive(Clone, Copy, Debug, PartialEq, Eq, Structural)]
pub enum ProbeSupport {
    Supported,
    Unsupported,
}

/// Why a command on the monitor failed.
#[derive(Clone, Copy, Debug, PartialEq, Eq, Structural)]
pub enum MonitorError {
    /// The platform has no idle-time probe.
    Unsupported,
    /// No monitor was ever started.
    NotInitialized,
}

/// Whether a system that was idle for `idle_nanos` counts as in use.
pub open spec fn is_active(idle_nanos: u64) -> bool {
    idle_nanos < ACTIVE_IDLE_LIMIT_NANOS
}

/// Whether, at `now`, the inactivity threshold of `state` has passed since
/// its last activity.
pub open spec fn threshold_passed(state: ActivityMonitor, now: u64) -> bool {
    elapsed_since(state.last_activity, now) >= state.inactivity_threshold * NANOS_PER_SECOND
}

/// The number of the run that follows the run `run`; the numbers wrap.
pub open spec fn next_run(run: u64) -> u64 {
    if run == u64::MAX {
        0
    } else {
        (run + 1) as u64
    }
}

/// Whether the run of number `run` is the one that `state` is in: the
/// monitor runs, and it was last started for that run.
pub open spec fn is_live(state: ActivityMonitor, run: u64) -> bool {
    state.is_monitoring && state.run == run
}

/// The monitor after a start request at `now`.
pub open spec fn started(state: ActivityMonitor, now: u64) -> ActivityMonitor {
    if state.is_monitoring {
        state
    } else {
        ActivityMonitor {
            last_activity: now,
            is_monitoring: true,
            run: next_run(state.run),
            ..state
        }
    }
}

/// What a start request answers.
pub open spec fn start_outcome(state: ActivityMonitor) -> StartOutcome {
    if state.is_monitoring {
        StartOutcome::AlreadyRunning
    } else {
        StartOutcome::Started { run: next_run(state.run) }
    }
}

/// The monitor after a stop request.
pub open spec fn stopped(state: ActivityMonitor) -> ActivityMonitor {
    ActivityMonitor { is_monitoring: false, ..state }
}

/// What a sample of `idle_nanos`, taken at `now`, asks of the polling loop
/// of the run `run`.
pub open spec fn poll_outcome(
    state: ActivityMonitor,
    run: u64,
    idle_nanos: u64,
    now: u64,
) -> PollOutcome {
    if !is_live(state, run) {
        PollOutcome::Exit
    } else if is_active(idle_nanos) {
        PollOutcome::Activity
    } else if threshold_passed(state, now) {
        PollOutcome::Inactivity
    } else {
        PollOutcome::Quiet
    }
}

/// The monitor after a sample taken at `now`: activity and an inactivity
/// notice both move the baseline to `now`, so that inactivity is reported
/// once per threshold and not at every poll.
pub open spec fn polled(
    state: ActivityMonitor,
    run: u64,
    idle_nanos: u64,
    now: u64,
) -> ActivityMonitor {
    match poll_outcome(state, run, idle_nanos, now) {
        PollOutcome::Activity | PollOutcome::Inactivity => ActivityMonitor {
            last_activity: now,
            ..state
        },
        _ => state,
    }
}

impl ActivityMonitor {
    /// A stopped monitor whose baseline is `now`, before its first run.
    pub fn new(now: u64, timeout_seconds: u64) -> (monitor: ActivityMonitor)
        ensures
            monitor == (ActivityMonitor {
                last_activity: now,
                is_monitoring: false,
                inactivity_threshold: timeout_seconds,
                run: 0,
            }),
    {
        ActivityMonitor {
            last_activity: now,
            is_monitoring: false,
            inactivity_threshold: timeout_seconds,
            run: 0,
        }
    }

    /// Starts the monitor. A running monitor is left as it is. A stopped one
    /// takes `now` as its baseline and opens its next run; the caller then
    /// spawns the polling loop of that run.
    pub fn start_monitoring(&mut self, now: u64) -> (outcome: StartOutcome)
        ensures
            *final(self) == started(*old(self), now),
            outcome == start_outcome(*old(self)),
    {
        if self.is_monitoring {
            StartOutcome::AlreadyRunning
        } else {
            self.last_activity = now;
            self.is_monitoring = true;
            self.run = self.run.wrapping_add(1);
            StartOutcome::Started { run: self.run }
        }
    }

    /// Whether the polling loop of the run `run` goes on: what the loop asks
    /// at the top of each turn, before it samples.
    pub fn keeps_running(&self, run: u64) -> (live: bool)
        ensures
            live == is_live(*self, run),
    {
        self.is_monitoring && self.run == run
    }

    /// Whether a system that was idle for `idle_nanos` is in use.
    pub fn check_system_activity(idle_nanos: u64) -> (active: bool)
        ensures
            active == is_active(idle_nanos),
    {
        idle_nanos < ACTIVE_IDLE_LIMIT_NANOS
    }

    /// Stops the monitor. The polling loop leaves at its next sample.
    pub fn stop_monitoring(&mut self)
        ensures
            *final(self) == stopped(*old(self)),
    {
        self.is_monitoring = false;
    }

    /// Sets the inactivity threshold, in either state; it holds from the next
    /// sample on.
    pub fn update_threshold(&mut self, timeout_seconds: u64)
        ensures
            *final(self) == (ActivityMonitor {
                inactivity_threshold: timeout_seconds,
                ..*old(self)
            }),
    {
        self.inactivity_threshold = timeout_seconds;
    }

    /// One turn of the polling loop of the run `run`: decides on a sample of
    /// `idle_nanos` taken at `now`.
    pub fn poll(&mut self, run: u64, idle_nanos: u64, now: u64) -> (outcome: PollOutcome)
        ensures
            outcome == poll_outcome(*old(self), run, idle_nanos, now),
            *final(self) == polled(*old(self), run, idle_nanos, now),
    {
        if !self.keeps_running(run) {
            PollOutcome::Exit
        } else if Self::check_system_activity(idle_nanos) {
            self.last_activity = now;
            PollOutcome::Activity
        } else {
            let idle_for: u64 = elapsed(self.last_activity, now);
            let threshold: u128 = self.inactivity_threshold as u128 * NANOS_PER_SECOND as u128;
            if idle_for as u128 >= threshold {
                self.last_activity = now;
                PollOutcome::Inactivity
            } else {
                PollOutcome::Quiet
            }
        }
    }
}

impl MonitorError {
    /// The message shown to the caller.
    pub fn message(&self) -> (text: String)
        ensures
            text@ == match *self {
                MonitorError::Unsupported => "Activity monitoring is only supported on macOS"@,
                MonitorError::NotInitialized => "Activity monitor not initialized"@,
            },
    {
        match self {
            MonitorError::Unsupported => String::from_str(
                "Activity monitoring is only supported on macOS",
            ),
            MonitorError::NotInitialized => String::from_str("Activity monitor not initialized"),
        }
    }
}

/// The monitor that a start request finds or makes: the one in the slot, or
/// a new stopped one with the requested threshold.
pub open spec fn found_or_made(
    slot: Option<ActivityMonitor>,
    timeout_seconds: u64,
    now: u64,
) -> ActivityMonitor {
    match slot {
        Some(monitor) => monitor,
        None => ActivityMonitor {
            last_activity: now,
            is_monitoring: false,
            inactivity_threshold: timeout_seconds,
            run: 0,
        },
    }
}

/// Handles a start request on the process-wide monitor slot.
///
/// An empty slot is filled with a new monitor of threshold
/// `timeout_seconds`; for a monitor that is there, `timeout_seconds` is
/// ignored. On a platform without a probe the request fails, and says so.
/// Otherwise the monitor is started.
pub fn start_activity_monitoring(
    slot: &mut Option<ActivityMonitor>,
    support: ProbeSupport,
    timeout_seconds: u64,
    now: u64,
) -> (outcome: Result<StartOutcome, MonitorError>)
    ensures
        support == ProbeSupport::Unsupported ==> outcome == Err::<StartOutcome, MonitorError>(
            MonitorError::Unsupported,
        ) && *final(slot) == Some(found_or_made(*old(slot), timeout_seconds, now)),
        support == ProbeSupport::Supported ==> *final(slot) == Some(
            started(found_or_made(*old(slot), timeout_seconds, now), now),
        ) && outcome == Ok::<StartOutcome, MonitorError>(
            start_outcome(found_or_made(*old(slot), timeout_seconds, now)),
        ),
{
    let mut monitor = match *slot {
        Some(monitor) => monitor,
        None => ActivityMonitor::new(now, timeout_seconds),
    };
    match support {
        ProbeSupport::Unsupported => {
            *slot = Some(monitor);
            Err(MonitorError::Unsupported)
        },
        ProbeSupport::Supported => {
            let outcome = monitor.start_monitoring(now);
            *slot = Some(monitor);
            Ok(outcome)
        },
    }
}

/// Handles a stop request: stops the monitor if there is one.
pub fn stop_activity_monitoring(slot: &mut Option<ActivityMonitor>)
    ensures
        *final(slot) == match *old(slot) {
            Some(monitor) => Some(stopped(monitor)),
            None => None,
        },
{
    match *slot {
        Some(mut monitor) => {
            monitor.stop_monitoring();
            *slot = Some(monitor);
        },
        None => {},
    }
}

/// Handles a threshold update: sets the threshold of the monitor, or fails
/// if no monitor was ever started.
pub fn update_activity_timeout(slot: &mut Option<ActivityMonitor>, timeout_seconds: u64) -> (outcome:
    Result<(), MonitorError>)
    ensures
        match *old(slot) {
            Some(monitor) => {
                &&& outcome is Ok
                &&& *final(slot) == Some(
                    ActivityMonitor { inactivity_threshold: timeout_seconds, ..monitor },
                )
            },
            None => {
                &&& outcome == Err::<(), MonitorError>(MonitorError::NotInitialized)
                &&& *final(slot) == None::<ActivityMonitor>
            },
        },
{
    match *slot {
        Some(mut monitor) => {
            monitor.update_threshold(timeout_seconds);
            *slot = Some(monitor);
            Ok(())
        },
        None => Err(MonitorError::NotInitialized),
    }
}

/// Starting a running monitor changes nothing, whatever the time.
pub proof fn lemma_start_is_idempotent(state: ActivityMonitor, first: u64, second: u64)
    ensures
        started(started(state, first), second) == started(state, first),
        state.is_monitoring ==> started(state, first) == state,
        started(state, first).inactivity_threshold == state.inactivity_threshold,
{
}

/// A start request that finds a running monitor changes nothing: the
/// threshold that it carries is ignored, and so is the time.
pub proof fn lemma_start_request_keeps_running_monitor(
    monitor: ActivityMonitor,
    timeout_seconds: u64,
    now: u64,
)
    requires
        monitor.is_monitoring,
    ensures
        started(found_or_made(Some(monitor), timeout_seconds, now), now) == monitor,
{
}

/// A stop followed by a start at `now` leaves a running monitor whose
/// activity baseline is `now`, with the threshold that it had, in its next
/// run.
pub proof fn lemma_restart_resets_baseline(state: ActivityMonitor, now: u64)
    ensures
        started(stopped(state), now) == (ActivityMonitor {
            last_activity: now,
            is_monitoring: true,
            inactivity_threshold: state.inactivity_threshold,
            run: next_run(state.run),
        }),
{
}

/// A stop retires the polling loop for good: the loop of the run that was
/// stopped leaves at its next turn, whether or not the monitor was started
/// again in between, and it changes nothing on leaving.
pub proof fn lemma_stop_retires_the_loop(
    state: ActivityMonitor,
    idle_nanos: u64,
    now: u64,
    later: u64,
)
    ensures
        poll_outcome(stopped(state), state.run, idle_nanos, later) == PollOutcome::Exit,
        poll_outcome(started(stopped(state), now), state.run, idle_nanos, later)
            == PollOutcome::Exit,
        polled(started(stopped(state), now), state.run, idle_nanos, later) == started(
            stopped(state),
            now,
        ),
{
}

/// One polling loop at most emits: of the loops of two different runs, one
/// at least is told to leave.
pub proof fn lemma_one_loop_is_live(
    state: ActivityMonitor,
    run: u64,
    other_run: u64,
    idle_nanos: u64,
    now: u64,
)
    requires
        run != other_run,
    ensures
        poll_outcome(state, run, idle_nanos, now) == PollOutcome::Exit || poll_outcome(
            state,
            other_run,
            idle_nanos,
            now,
        ) == PollOutcome::Exit,
{
}

/// The loop that a start asks for is the live one: after a start that
/// answers `Started`, the run that it names is the run of the monitor.
pub proof fn lemma_started_run_is_live(state: ActivityMonitor, now: u64)
    ensures
        start_outcome(state) matches StartOutcome::Started { run } ==> is_live(
            started(state, now),
            run,
        ),
{
}

/// After an inactivity notice at `now`, no further notice comes before the
/// threshold has passed again: a sample of an idle system taken at or after
/// `now`, and less than the threshold after it, is quiet.
pub proof fn lemma_inactivity_fires_once_per_threshold(
    state: ActivityMonitor,
    run: u64,
    idle_nanos: u64,
    now: u64,
    next_idle_nanos: u64,
    later: u64,
)
    requires
        poll_outcome(state, run, idle_nanos, now) == PollOutcome::Inactivity,
        !is_active(next_idle_nanos),
        now <= later,
        later - now < state.inactivity_threshold * NANOS_PER_SECOND,
    ensures
        poll_outcome(polled(state, run, idle_nanos, now), run, next_idle_nanos, later)
            == PollOutcome::Quiet,
{
}

} // verus!
