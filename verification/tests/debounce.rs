use presto::debounce::{should_debounce_shortcut, DebounceRegistry, DEBOUNCE_WINDOW_NANOS};

const MS: u64 = 1_000_000;

#[test]
fn window_is_half_a_second() {
    assert_eq!(DEBOUNCE_WINDOW_NANOS, 500 * MS);
}

#[test]
fn first_trigger_of_an_action_is_never_debounced() {
    let mut registry = DebounceRegistry::new();
    assert_eq!(registry.last_fired("start-stop"), None);
    assert!(!should_debounce_shortcut(&mut registry, "start-stop", 0));
    assert_eq!(registry.last_fired("start-stop"), Some(0));
    assert_eq!(registry.last_fired("reset"), None);
}

#[test]
fn burst_within_the_window_fires_once() {
    let mut registry = DebounceRegistry::new();
    let verdicts: Vec<bool> = [1_000 * MS, 1_100 * MS, 1_250 * MS, 1_499 * MS]
        .iter()
        .map(|now| should_debounce_shortcut(&mut registry, "skip", *now))
        .collect();
    assert_eq!(verdicts, vec![false, true, true, true]);
    assert_eq!(registry.last_fired("skip"), Some(1_000 * MS));
}

#[test]
fn triggers_spaced_by_the_window_all_fire() {
    let mut registry = DebounceRegistry::new();
    for step in 0..6u64 {
        let now = 7 * MS + step * 500 * MS;
        assert!(!should_debounce_shortcut(&mut registry, "reset", now));
        assert_eq!(registry.last_fired("reset"), Some(now));
    }
}

#[test]
fn window_is_measured_from_the_last_accepted_trigger() {
    let mut registry = DebounceRegistry::new();
    assert!(!should_debounce_shortcut(&mut registry, "start-stop", 0));
    assert!(should_debounce_shortcut(&mut registry, "start-stop", 400 * MS));
    // 400 ms after a suppressed trigger, 800 ms after the accepted one.
    assert!(!should_debounce_shortcut(&mut registry, "start-stop", 800 * MS));
    assert_eq!(registry.last_fired("start-stop"), Some(800 * MS));
}

#[test]
fn window_boundary_is_exclusive() {
    let mut registry = DebounceRegistry::new();
    assert!(!should_debounce_shortcut(&mut registry, "skip", 10));
    assert!(should_debounce_shortcut(&mut registry, "skip", 10 + DEBOUNCE_WINDOW_NANOS - 1));
    assert!(!should_debounce_shortcut(&mut registry, "skip", 10 + DEBOUNCE_WINDOW_NANOS));
}

#[test]
fn suppressed_trigger_leaves_the_registry_unchanged() {
    let mut registry = DebounceRegistry::new();
    assert!(!should_debounce_shortcut(&mut registry, "reset", 5 * MS));
    assert!(should_debounce_shortcut(&mut registry, "reset", 6 * MS));
    assert_eq!(registry.last_fired("reset"), Some(5 * MS));
}

#[test]
fn actions_are_debounced_independently() {
    let mut registry = DebounceRegistry::new();
    assert!(!should_debounce_shortcut(&mut registry, "start-stop", 100 * MS));
    assert!(!should_debounce_shortcut(&mut registry, "reset", 101 * MS));
    assert!(!should_debounce_shortcut(&mut registry, "skip", 102 * MS));
    assert!(should_debounce_shortcut(&mut registry, "start-stop", 103 * MS));
    assert!(should_debounce_shortcut(&mut registry, "reset", 104 * MS));
    assert!(should_debounce_shortcut(&mut registry, "skip", 105 * MS));
    assert!(!should_debounce_shortcut(&mut registry, "start-stop", 600 * MS));
    assert_eq!(registry.last_fired("start-stop"), Some(600 * MS));
    assert_eq!(registry.last_fired("reset"), Some(101 * MS));
    assert_eq!(registry.last_fired("skip"), Some(102 * MS));
}

#[test]
fn clock_reading_before_the_last_firing_counts_as_no_time_passed() {
    let mut registry = DebounceRegistry::new();
    assert!(!should_debounce_shortcut(&mut registry, "skip", 900 * MS));
    assert!(should_debounce_shortcut(&mut registry, "skip", 100 * MS));
    assert_eq!(registry.last_fired("skip"), Some(900 * MS));
}

#[test]
fn unknown_action_names_are_accepted() {
    let mut registry = DebounceRegistry::new();
    assert!(!should_debounce_shortcut(&mut registry, "", u64::MAX));
    assert!(should_debounce_shortcut(&mut registry, "", u64::MAX));
    assert!(!should_debounce_shortcut(&mut registry, "pausa caff\u{e8}", 3));
    assert_eq!(registry.last_fired(""), Some(u64::MAX));
}
