//! Debounce registry: suppresses rapid repeated triggers of a named action.
//!
//! Times are readings of a monotonic clock in nanoseconds. The registry is a
//! hash map from action name to the time of its last accepted firing, and
//! its model is the mathematical map that the hash map stands for.

use crate::clock::{elapsed, elapsed_since};
use vstd::hash_map::StringHashMap;
use vstd::prelude::*;

verus! {

/// Minimum spacing, in nanoseconds, between two accepted firings of one action.
pub const DEBOUNCE_WINDOW_NANOS: u64 = 500_000_000;

/// Whether a trigger of `action` at `now` falls inside the debounce window.
/// An action that never fired is never suppressed.
pub open spec fn suppressed(last_fired: Map<Seq<char>, u64>, action: Seq<char>, now: u64) -> bool {
    last_fired.dom().contains(action) && elapsed_since(last_fired[action], now)
        < DEBOUNCE_WINDOW_NANOS
}

/// The registry after a trigger of `action` at `now`: unchanged when the
/// trigger is suppressed, otherwise `action` is recorded as fired at `now`.
pub open spec fn after_trigger(
    last_fired: Map<Seq<char>, u64>,
    action: Seq<char>,
    now: u64,
) -> Map<Seq<char>, u64> {
    if suppressed(last_fired, action, now) {
        last_fired
    } else {
        last_fired.insert(action, now)
    }
}

/// The registry after triggers of `action` at each of `times`, in order.
pub open spec fn after_triggers(
    last_fired: Map<Seq<char>, u64>,
    action: Seq<char>,
    times: Seq<u64>,
) -> Map<Seq<char>, u64>
    decreases times.len(),
{
    if times.len() == 0 {
        last_fired
    } else {
        after_trigger(after_triggers(last_fired, action, times.drop_last()), action, times.last())
    }
}

/// Whether the call number `i` of a run of triggers of `action` at `times` is
/// suppressed, the run starting from `last_fired`.
pub open spec fn suppressed_in_run(
    last_fired: Map<Seq<char>, u64>,
    action: Seq<char>,
    times: Seq<u64>,
    i: int,
) -> bool {
    suppressed(after_triggers(last_fired, action, times.take(i)), action, times[i])
}

/// Last accepted firing time of every action that fired so far.
pub struct DebounceRegistry {
    last_fired: StringHashMap<u64>,
}

impl DebounceRegistry {
    /// The registry as a map from action name to last accepted firing time.
    pub closed spec fn view(&self) -> Map<Seq<char>, u64> {
        self.last_fired@
    }

    /// A registry in which no action has fired.
    pub fn new() -> (registry: DebounceRegistry)
        ensures
            registry@ == Map::<Seq<char>, u64>::empty(),
    {
        DebounceRegistry { last_fired: StringHashMap::new() }
    }

    /// The time at which `action` last fired, if it ever did.
    pub fn last_fired(&self, action: &str) -> (time: Option<u64>)
        ensures
            time == (if self@.dom().contains(action@) {
                Some(self@[action@])
            } else {
                None
            }),
    {
        match self.last_fired.get(action) {
            Some(time) => Some(*time),
            None => None,
        }
    }
}

/// Decides whether a trigger of `action` at time `now` must be suppressed.
///
/// Returns `true`, leaving the registry as it was, when `action` last fired
/// less than `DEBOUNCE_WINDOW_NANOS` before `now`. Otherwise records `now` as
/// the last firing of `action` and returns `false`.
pub fn should_debounce_shortcut(registry: &mut DebounceRegistry, action: &str, now: u64) -> (debounced:
    bool)
    ensures
        debounced == suppressed(old(registry)@, action@, now),
        final(registry)@ == after_trigger(old(registry)@, action@, now),
{
    let within_window = match registry.last_fired.get(action) {
        Some(last) => elapsed(*last, now) < DEBOUNCE_WINDOW_NANOS,
        None => false,
    };
    if within_window {
        return true;
    }
    registry.last_fired.insert(action.to_owned(), now);
    false
}

proof fn lemma_burst_keeps_first_time(
    last_fired: Map<Seq<char>, u64>,
    action: Seq<char>,
    times: Seq<u64>,
    n: int,
)
    requires
        1 <= n <= times.len(),
        !suppressed(last_fired, action, times[0]),
        forall|i: int|
            0 < i < times.len() ==> #[trigger] times[i] - times[0] < DEBOUNCE_WINDOW_NANOS,
    ensures
        after_triggers(last_fired, action, times.take(n)).dom().contains(action),
        after_triggers(last_fired, action, times.take(n))[action] == times[0],
    decreases n,
{
    assert(times.take(n).drop_last() =~= times.take(n - 1));
    assert(times.take(n).last() == times[n - 1]);
    if n > 1 {
        lemma_burst_keeps_first_time(last_fired, action, times, n - 1);
    } else {
        assert(after_triggers(last_fired, action, times.take(0)) == last_fired);
    }
}

/// Of a run of triggers of one action that all come less than the debounce
/// window after the first of them, only the first is accepted, provided that
/// the first is not itself suppressed by an earlier firing.
pub proof fn lemma_burst_fires_once(
    last_fired: Map<Seq<char>, u64>,
    action: Seq<char>,
    times: Seq<u64>,
)
    requires
        times.len() > 0,
        !suppressed(last_fired, action, times[0]),
        forall|i: int|
            0 < i < times.len() ==> #[trigger] times[i] - times[0] < DEBOUNCE_WINDOW_NANOS,
    ensures
        !suppressed_in_run(last_fired, action, times, 0),
        forall|i: int| 0 < i < times.len() ==> suppressed_in_run(last_fired, action, times, i),
{
    assert forall|i: int| 0 < i < times.len() implies suppressed_in_run(
        last_fired,
        action,
        times,
        i,
    ) by {
        lemma_burst_keeps_first_time(last_fired, action, times, i);
    }
}

proof fn lemma_spaced_keeps_latest_time(
    last_fired: Map<Seq<char>, u64>,
    action: Seq<char>,
    times: Seq<u64>,
    n: int,
)
    requires
        1 <= n <= times.len(),
        !suppressed(last_fired, action, times[0]),
        forall|i: int, j: int|
            0 <= i && j == i + 1 && j < times.len() ==> #[trigger] times[j] - #[trigger] times[i]
                >= DEBOUNCE_WINDOW_NANOS,
    ensures
        after_triggers(last_fired, action, times.take(n)).dom().contains(action),
        after_triggers(last_fired, action, times.take(n))[action] == times[n - 1],
    decreases n,
{
    assert(times.take(n).drop_last() =~= times.take(n - 1));
    assert(times.take(n).last() == times[n - 1]);
    if n > 1 {
        lemma_spaced_keeps_latest_time(last_fired, action, times, n - 1);
        assert(times[n - 1] - times[n - 2] >= DEBOUNCE_WINDOW_NANOS);
    } else {
        assert(after_triggers(last_fired, action, times.take(0)) == last_fired);
    }
}

/// Of a run of triggers of one action in which each comes at least the
/// debounce window after the one before it, every trigger is accepted,
/// provided that the first is not suppressed by an earlier firing.
pub proof fn lemma_spaced_triggers_all_fire(
    last_fired: Map<Seq<char>, u64>,
    action: Seq<char>,
    times: Seq<u64>,
)
    requires
        times.len() > 0 ==> !suppressed(last_fired, action, times[0]),
        forall|i: int, j: int|
            0 <= i && j == i + 1 && j < times.len() ==> #[trigger] times[j] - #[trigger] times[i]
                >= DEBOUNCE_WINDOW_NANOS,
    ensures
        forall|i: int| 0 <= i < times.len() ==> !suppressed_in_run(last_fired, action, times, i),
{
    assert forall|i: int| 0 <= i < times.len() implies !suppressed_in_run(
        last_fired,
        action,
        times,
        i,
    ) by {
        if i > 0 {
            lemma_spaced_keeps_latest_time(last_fired, action, times, i);
            assert(times[i] - times[i - 1] >= DEBOUNCE_WINDOW_NANOS);
        }
    }
}

proof fn lemma_accepted_time_is_kept(
    last_fired: Map<Seq<char>, u64>,
    action: Seq<char>,
    times: Seq<u64>,
    i: int,
    n: int,
)
    requires
        0 <= i < n <= times.len(),
        !suppressed_in_run(last_fired, action, times, i),
    ensures
        after_triggers(last_fired, action, times.take(n)).dom().contains(action),
        after_triggers(last_fired, action, times.take(n))[action] >= times[i],
    decreases n,
{
    assert(times.take(n).drop_last() =~= times.take(n - 1));
    assert(times.take(n).last() == times[n - 1]);
    if n > i + 1 {
        lemma_accepted_time_is_kept(last_fired, action, times, i, n - 1);
    }
}

/// An action fires at most once per debounce window: of the triggers of a
/// run, in whatever order their times come, any two that are accepted lie at
/// least the debounce window apart, the later call at the later time.
pub proof fn lemma_accepted_triggers_are_spaced(
    last_fired: Map<Seq<char>, u64>,
    action: Seq<char>,
    times: Seq<u64>,
    i: int,
    j: int,
)
    requires
        0 <= i < j < times.len(),
        !suppressed_in_run(last_fired, action, times, i),
        !suppressed_in_run(last_fired, action, times, j),
    ensures
        times[j] - times[i] >= DEBOUNCE_WINDOW_NANOS,
{
    lemma_accepted_time_is_kept(last_fired, action, times, i, j);
}

} // verus!
