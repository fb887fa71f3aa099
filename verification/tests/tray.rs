use presto::tray::{update_tray_icon, TrayPresentation};

#[test]
fn focus_mode_shows_the_session_count() {
    let shown = update_tray_icon("24:59", true, "focus", 3, 10, None);
    assert_eq!(
        shown,
        TrayPresentation {
            title: "\u{1F9E0} 24:59".to_string(),
            tooltip: "Presto - Session 3/10 (Running)".to_string(),
        }
    );
}

#[test]
fn short_break_is_named_in_the_tooltip() {
    let shown = update_tray_icon("04:10", false, "break", 3, 10, None);
    assert_eq!(shown.title, "\u{2615} 04:10");
    assert_eq!(shown.tooltip, "Presto - Short Break (Paused)");
}

#[test]
fn long_break_is_named_in_the_tooltip() {
    let shown = update_tray_icon("19:00", true, "longBreak", 4, 4, None);
    assert_eq!(shown.title, "\u{1F319} 19:00");
    assert_eq!(shown.tooltip, "Presto - Long Break (Running)");
}

#[test]
fn unknown_mode_gets_the_stopwatch_and_counts_as_a_short_break() {
    let shown = update_tray_icon("00:03", false, "custom", 1, 1, None);
    assert_eq!(shown.title, "\u{23F1}\u{FE0F} 00:03");
    assert_eq!(shown.tooltip, "Presto - Short Break (Paused)");
}

#[test]
fn given_icon_takes_the_place_of_the_mode_glyph() {
    let shown = update_tray_icon("10:00", true, "focus", 1, 4, Some("\u{1F4DA}".to_string()));
    assert_eq!(shown.title, "\u{1F4DA} 10:00");
    assert_eq!(shown.tooltip, "Presto - Session 1/4 (Running)");
    let shown = update_tray_icon("", true, "break", 1, 4, Some(String::new()));
    assert_eq!(shown.title, " ");
}

#[test]
fn session_numbers_are_written_in_decimal() {
    let shown = update_tray_icon("1", false, "focus", 0, u32::MAX, None);
    assert_eq!(shown.tooltip, "Presto - Session 0/4294967295 (Paused)");
    let shown = update_tray_icon("1", false, "focus", 120, 1000, None);
    assert_eq!(shown.tooltip, "Presto - Session 120/1000 (Paused)");
}

#[test]
fn mode_names_are_case_sensitive() {
    let shown = update_tray_icon("25:00", true, "Focus", 2, 8, None);
    assert_eq!(shown.title, "\u{23F1}\u{FE0F} 25:00");
    assert_eq!(shown.tooltip, "Presto - Short Break (Running)");
}
