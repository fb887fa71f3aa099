use presto::settings::{
    are_analytics_enabled, complete_settings, default_analytics_enabled, default_weekly_goal,
    load_settings, AdvancedSettings, AppSettings, NotificationSettings, ShortcutSettings,
    StoredAdvancedSettings, StoredNotificationSettings, StoredSettings, StoredTimerSettings,
    TimerSettings, DEFAULT_WEEKLY_GOAL_MINUTES,
};
use presto::store::{RecordKind, StoreError, Stored};

fn old_document() -> StoredSettings {
    StoredSettings {
        shortcuts: ShortcutSettings {
            start_stop: Some("Alt+P".to_string()),
            reset: None,
            skip: Some("CommandOrControl+Shift+K".to_string()),
        },
        timer: StoredTimerSettings {
            focus_duration: 50,
            break_duration: 10,
            long_break_duration: 30,
            total_sessions: 4,
            weekly_goal_minutes: None,
        },
        notifications: StoredNotificationSettings {
            desktop_notifications: false,
            sound_notifications: true,
            auto_start_timer: false,
            auto_start_focus: None,
            allow_continuous_sessions: None,
            smart_pause: true,
            smart_pause_timeout: 45,
        },
        advanced: None,
        autostart: true,
        analytics_enabled: None,
        hide_icon_on_close: None,
    }
}

#[test]
fn default_weekly_goal_is_125_minutes() {
    assert_eq!(default_weekly_goal(), 125);
    assert_eq!(DEFAULT_WEEKLY_GOAL_MINUTES, 125);
}

#[test]
fn analytics_are_enabled_by_default() {
    assert!(default_analytics_enabled());
}

#[test]
fn advanced_settings_default_to_no_debug_mode() {
    assert_eq!(AdvancedSettings::default(), AdvancedSettings { debug_mode: false });
}

#[test]
fn compiled_defaults_are_complete() {
    let expected = AppSettings {
        shortcuts: ShortcutSettings {
            start_stop: Some("CommandOrControl+Alt+Space".to_string()),
            reset: Some("CommandOrControl+Alt+R".to_string()),
            skip: Some("CommandOrControl+Alt+S".to_string()),
        },
        timer: TimerSettings {
            focus_duration: 25,
            break_duration: 5,
            long_break_duration: 20,
            total_sessions: 10,
            weekly_goal_minutes: 125,
        },
        notifications: NotificationSettings {
            desktop_notifications: true,
            sound_notifications: true,
            auto_start_timer: true,
            auto_start_focus: false,
            allow_continuous_sessions: false,
            smart_pause: false,
            smart_pause_timeout: 30,
        },
        advanced: AdvancedSettings { debug_mode: false },
        autostart: false,
        analytics_enabled: true,
        hide_icon_on_close: false,
    };
    assert_eq!(AppSettings::default(), expected);
}

#[test]
fn absent_settings_file_loads_the_defaults() {
    let settings = load_settings(Stored::Absent).unwrap();
    assert_eq!(settings, AppSettings::default());
    assert_eq!(settings.timer.focus_duration, 25);
    assert_eq!(settings.timer.break_duration, 5);
    assert_eq!(settings.timer.long_break_duration, 20);
    assert_eq!(settings.timer.total_sessions, 10);
    assert_eq!(settings.timer.weekly_goal_minutes, 125);
}

#[test]
fn document_without_weekly_goal_gets_the_default_goal() {
    let settings = load_settings(Stored::Parsed(old_document())).unwrap();
    assert_eq!(settings.timer.weekly_goal_minutes, 125);
    assert_eq!(settings.timer.focus_duration, 50);
    assert_eq!(settings.timer.break_duration, 10);
    assert_eq!(settings.timer.long_break_duration, 30);
    assert_eq!(settings.timer.total_sessions, 4);
}

#[test]
fn old_document_is_completed_field_by_field() {
    let settings = complete_settings(old_document());
    let expected = AppSettings {
        shortcuts: ShortcutSettings {
            start_stop: Some("Alt+P".to_string()),
            reset: None,
            skip: Some("CommandOrControl+Shift+K".to_string()),
        },
        timer: TimerSettings {
            focus_duration: 50,
            break_duration: 10,
            long_break_duration: 30,
            total_sessions: 4,
            weekly_goal_minutes: 125,
        },
        notifications: NotificationSettings {
            desktop_notifications: false,
            sound_notifications: true,
            auto_start_timer: false,
            auto_start_focus: false,
            allow_continuous_sessions: false,
            smart_pause: true,
            smart_pause_timeout: 45,
        },
        advanced: AdvancedSettings { debug_mode: false },
        autostart: true,
        analytics_enabled: true,
        hide_icon_on_close: false,
    };
    assert_eq!(settings, expected);
}

#[test]
fn named_optional_fields_are_kept() {
    let mut document = old_document();
    document.timer.weekly_goal_minutes = Some(300);
    document.notifications.auto_start_focus = Some(true);
    document.notifications.allow_continuous_sessions = Some(true);
    document.advanced = Some(StoredAdvancedSettings { debug_mode: Some(true) });
    document.analytics_enabled = Some(false);
    document.hide_icon_on_close = Some(true);
    let settings = complete_settings(document);
    assert_eq!(settings.timer.weekly_goal_minutes, 300);
    assert!(settings.notifications.auto_start_focus);
    assert!(settings.notifications.allow_continuous_sessions);
    assert!(settings.advanced.debug_mode);
    assert!(!settings.analytics_enabled);
    assert!(settings.hide_icon_on_close);
}

#[test]
fn advanced_section_without_debug_mode_defaults_it() {
    let mut document = old_document();
    document.advanced = Some(StoredAdvancedSettings { debug_mode: None });
    assert!(!complete_settings(document).advanced.debug_mode);
}

#[test]
fn weekly_goal_of_zero_is_a_named_value() {
    let mut document = old_document();
    document.timer.weekly_goal_minutes = Some(0);
    assert_eq!(complete_settings(document).timer.weekly_goal_minutes, 0);
}

#[test]
fn corrupt_settings_are_an_error_and_not_the_defaults() {
    let loaded = load_settings(Stored::Corrupt("missing field `timer` at line 3 column 1".to_string()));
    let error = loaded.unwrap_err();
    assert_eq!(
        error,
        StoreError {
            record: RecordKind::Settings,
            detail: "missing field `timer` at line 3 column 1".to_string(),
        }
    );
    assert_eq!(
        error.message(),
        "Failed to parse settings: missing field `timer` at line 3 column 1"
    );
}

#[test]
fn analytics_follow_the_loaded_settings() {
    let mut settings = AppSettings::default();
    assert!(are_analytics_enabled(&Ok(settings.clone())));
    settings.analytics_enabled = false;
    assert!(!are_analytics_enabled(&Ok(settings)));
}

#[test]
fn analytics_are_on_when_settings_cannot_be_loaded() {
    let failed = Err(StoreError { record: RecordKind::Settings, detail: String::new() });
    assert!(are_analytics_enabled(&failed));
}
