use presto::history::{record_daily, save_daily_stats, HISTORY_LIMIT};
use presto::session::PomodoroSession;
use presto::store::Stored;

fn day(date: &str, completed: u32) -> PomodoroSession {
    PomodoroSession {
        completed_pomodoros: completed,
        total_focus_time: completed * 1500,
        current_session: completed + 1,
        date: date.to_string(),
    }
}

fn dates(history: &[PomodoroSession]) -> Vec<String> {
    history.iter().map(|entry| entry.date.clone()).collect()
}

/// The same steps on std's own retain, sort and drain.
fn recorded_with_std(mut history: Vec<PomodoroSession>, session: PomodoroSession) -> Vec<PomodoroSession> {
    history.retain(|entry| entry.date != session.date);
    history.push(session);
    history.sort_by(|a, b| a.date.cmp(&b.date));
    if history.len() > 30 {
        let start = history.len() - 30;
        history.drain(0..start);
    }
    history
}

#[test]
fn history_limit_is_thirty() {
    assert_eq!(HISTORY_LIMIT, 30);
}

#[test]
fn first_record_makes_a_history_of_one() {
    let updated = record_daily(Vec::new(), day("Wed Oct 28 2026", 2));
    assert_eq!(updated, vec![day("Wed Oct 28 2026", 2)]);
}

#[test]
fn same_date_is_recorded_once_and_last_write_wins() {
    let once = record_daily(vec![day("Mon Oct 26 2026", 1)], day("Tue Oct 27 2026", 2));
    let twice = record_daily(once, day("Tue Oct 27 2026", 5));
    assert_eq!(twice, vec![day("Mon Oct 26 2026", 1), day("Tue Oct 27 2026", 5)]);
    let of_date: Vec<&PomodoroSession> =
        twice.iter().filter(|entry| entry.date == "Tue Oct 27 2026").collect();
    assert_eq!(of_date, vec![&day("Tue Oct 27 2026", 5)]);
}

#[test]
fn every_entry_of_the_recorded_date_gives_way() {
    let history = vec![day("b", 1), day("a", 2), day("b", 3), day("c", 4), day("b", 5)];
    let updated = record_daily(history, day("b", 9));
    assert_eq!(updated, vec![day("a", 2), day("b", 9), day("c", 4)]);
}

#[test]
fn entries_are_ordered_by_date_label() {
    let history = vec![day("2026-03-02", 1), day("2026-01-15", 2), day("2026-02-01", 3)];
    let updated = record_daily(history, day("2026-01-20", 4));
    assert_eq!(dates(&updated), vec!["2026-01-15", "2026-01-20", "2026-02-01", "2026-03-02"]);
}

#[test]
fn order_is_that_of_the_label_text_not_of_the_calendar() {
    let history = vec![day("Wed Oct 28 2026", 1), day("Mon Oct 26 2026", 2)];
    let updated = record_daily(history, day("Fri Oct 30 2026", 3));
    assert_eq!(dates(&updated), vec!["Fri Oct 30 2026", "Mon Oct 26 2026", "Wed Oct 28 2026"]);
}

#[test]
fn entries_of_one_date_keep_their_order() {
    let history = vec![day("b", 1), day("a", 2), day("b", 3), day("a", 4)];
    let updated = record_daily(history, day("c", 5));
    assert_eq!(updated, vec![day("a", 2), day("a", 4), day("b", 1), day("b", 3), day("c", 5)]);
}

#[test]
fn thirty_first_distinct_date_drops_the_oldest() {
    let mut history = Vec::new();
    for number in 1..=30u32 {
        history = record_daily(history, day(&format!("2026-01-{:02}", number), 4));
        assert_eq!(history.len(), number as usize);
    }
    let updated = record_daily(history, day("2026-01-31", 4));
    assert_eq!(updated.len(), 30);
    assert_eq!(updated[0].date, "2026-01-02");
    assert_eq!(updated[29].date, "2026-01-31");
    assert!(updated.iter().all(|entry| entry.date != "2026-01-01"));
    assert!(updated.windows(2).all(|pair| pair[0].date < pair[1].date));
}

#[test]
fn history_never_grows_beyond_the_limit() {
    let mut history = Vec::new();
    for number in 0..100u32 {
        history = record_daily(history, day(&format!("day {:03}", (number * 37) % 101), number));
        assert!(history.len() <= HISTORY_LIMIT);
        assert!(history.windows(2).all(|pair| pair[0].date <= pair[1].date));
    }
    assert_eq!(history.len(), 30);
}

#[test]
fn day_older_than_thirty_later_days_is_crowded_out() {
    let history: Vec<PomodoroSession> =
        (1..=30u32).map(|number| day(&format!("2026-02-{:02}", number), 1)).collect();
    let updated = record_daily(history.clone(), day("2026-01-01", 7));
    assert_eq!(updated, history);
}

#[test]
fn long_unsorted_history_is_cut_to_its_last_thirty() {
    let history: Vec<PomodoroSession> =
        (0..45u32).rev().map(|number| day(&format!("d{:02}", number), number)).collect();
    let updated = record_daily(history, day("d99", 1));
    assert_eq!(updated.len(), 30);
    assert_eq!(updated[0].date, "d16");
    assert_eq!(updated[28].date, "d44");
    assert_eq!(updated[29], day("d99", 1));
}

#[test]
fn recording_agrees_with_retain_sort_and_drain() {
    let labels = ["b", "", "a", "ab", "B", "\u{e9}", "a", "z", "\u{1F319}", "aa", "b"];
    let mut history = Vec::new();
    let mut expected = Vec::new();
    for round in 0..4u32 {
        for (index, label) in labels.iter().enumerate() {
            let session = day(label, round * 20 + index as u32);
            history = record_daily(history, session.clone());
            expected = recorded_with_std(expected, session);
            assert_eq!(history, expected);
        }
    }
    let mixed: Vec<PomodoroSession> =
        (0..40u32).map(|number| day(labels[(number % 11) as usize], number)).collect();
    assert_eq!(
        record_daily(mixed.clone(), day("ab", 1000)),
        recorded_with_std(mixed, day("ab", 1000))
    );
}

#[test]
fn absent_history_counts_as_empty() {
    let updated = save_daily_stats(Stored::Absent, day("Wed Oct 28 2026", 2));
    assert_eq!(updated, vec![day("Wed Oct 28 2026", 2)]);
}

#[test]
fn unparsable_history_counts_as_empty() {
    let updated =
        save_daily_stats(Stored::Corrupt("EOF while parsing".to_string()), day("Wed Oct 28 2026", 2));
    assert_eq!(updated, vec![day("Wed Oct 28 2026", 2)]);
}

#[test]
fn parsed_history_is_recorded_into() {
    let stored = Stored::Parsed(vec![day("b", 1), day("a", 2)]);
    let updated = save_daily_stats(stored, day("a", 3));
    assert_eq!(updated, vec![day("a", 3), day("b", 1)]);
}

#[test]
fn recording_the_same_summary_again_changes_nothing() {
    let history = vec![day("c", 1), day("a", 2), day("b", 3), day("a", 4)];
    let once = record_daily(history, day("b", 9));
    let twice = record_daily(once.clone(), day("b", 9));
    assert_eq!(twice, once);
    let late: Vec<PomodoroSession> =
        (1..=40u32).map(|number| day(&format!("2026-03-{:02}", number), number)).collect();
    let once = record_daily(late, day("2026-01-01", 7));
    assert_eq!(once.len(), 30);
    assert!(once.iter().all(|entry| entry.date != "2026-01-01"));
    let twice = record_daily(once.clone(), day("2026-01-01", 7));
    assert_eq!(twice, once);
    let once = save_daily_stats(Stored::Absent, day("x", 1));
    assert_eq!(save_daily_stats(Stored::Parsed(once.clone()), day("x", 1)), once);
}

#[test]
fn history_with_one_entry_per_date_ascends_strictly() {
    let history = vec![day("d", 1), day("b", 2), day("e", 3), day("a", 4)];
    let updated = record_daily(history, day("c", 5));
    assert_eq!(dates(&updated), vec!["a", "b", "c", "d", "e"]);
    assert!(updated.windows(2).all(|pair| pair[0].date < pair[1].date));
    let replaced = record_daily(updated, day("d", 6));
    assert_eq!(dates(&replaced), vec!["a", "b", "c", "d", "e"]);
    assert_eq!(replaced[3], day("d", 6));
    assert!(replaced.windows(2).all(|pair| pair[0].date < pair[1].date));
}
