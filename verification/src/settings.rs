//! Application settings: the compiled-in defaults, and the completion of a
//! persisted document that was written before some fields existed.

use crate::store::{RecordKind, StoreError, Stored};
use crate::text::optional_text;
use vstd::prelude::*;
use vstd::string::StringExecFns;

verus! {

/// Weekly focus goal, in minutes, of a document that names none.
pub const DEFAULT_WEEKLY_GOAL_MINUTES: u32 = 125;

/// Key combinations bound to the three global actions; `None` leaves an
/// action unbound.
#[derive(Clone, Debug, PartialEq, Eq)]
pub struct ShortcutSettings {
    pub start_stop: Option<String>,
    pub reset: Option<String>,
    pub skip: Option<String>,
}

/// Durations are in minutes.
#[derive(Clone, Copy, Debug, PartialEq, Eq, Structural)]
pub struct TimerSettings {
    pub focus_duration: u32,
    pub break_duration: u32,
    pub long_break_duration: u32,
    pub total_sessions: u32,
    pub weekly_goal_minutes: u32,
}

#[derive(Clone, Copy, Debug, PartialEq, Eq, Structural)]
pub struct NotificationSettings {
    pub desktop_notifications: bool,
    pub sound_notifications: bool,
    pub auto_start_timer: bool,
    pub auto_start_focus: bool,
    pub allow_continuous_sessions: bool,
    pub smart_pause: bool,
    /// Seconds without input after which the timer pauses.
    pub smart_pause_timeout: u32,
}

#[derive(Clone, Copy, Debug, PartialEq, Eq, Structural)]
pub struct AdvancedSettings {
    /// Debug mode runs the timer with very short sessions.
    pub debug_mode: bool,
}

/// The complete configuration record.
#[derive(Clone, Debug, PartialEq, Eq)]
pub struct AppSettings {
    pub shortcuts: ShortcutSettings,
    pub timer: TimerSettings,
    pub notifications: NotificationSettings,
    pub advanced: AdvancedSettings,
    pub autostart: bool,
    pub analytics_enabled: bool,
    pub hide_icon_on_close: bool,
}

/// The timer section of a persisted document.
#[derive(Clone, Copy, Debug, PartialEq, Eq)]
pub struct StoredTimerSettings {
    pub focus_duration: u32,
    pub break_duration: u32,
    pub long_break_duration: u32,
    pub total_sessions: u32,
    pub weekly_goal_minutes: Option<u32>,
}

/// The notification section of a persisted document.
#[derive(Clone, Copy, Debug, PartialEq, Eq)]
pub struct StoredNotificationSettings {
    pub desktop_notifications: bool,
    pub sound_notifications: bool,
    pub auto_start_timer: bool,
    pub auto_start_focus: Option<bool>,
    pub allow_continuous_sessions: Option<bool>,
    pub smart_pause: bool,
    pub smart_pause_timeout: u32,
}

/// The advanced section of a persisted document.
#[derive(Clone, Copy, Debug, PartialEq, Eq)]
pub struct StoredAdvancedSettings {
    pub debug_mode: Option<bool>,
}

/// A persisted settings document. A field that was introduced after the
/// first release is optional: an older document does not name it.
#[derive(Clone, Debug, PartialEq, Eq)]
pub struct StoredSettings {
    pub shortcuts: ShortcutSettings,
    pub timer: StoredTimerSettings,
    pub notifications: StoredNotificationSettings,
    pub advanced: Option<StoredAdvancedSettings>,
    pub autostart: bool,
    pub analytics_enabled: Option<bool>,
    pub hide_icon_on_close: Option<bool>,
}

/// Key combinations as sequences of characters.
pub struct ShortcutBindings {
    pub start_stop: Option<Seq<char>>,
    pub reset: Option<Seq<char>>,
    pub skip: Option<Seq<char>>,
}

impl View for ShortcutSettings {
    type V = ShortcutBindings;

    open spec fn view(&self) -> ShortcutBindings {
        ShortcutBindings {
            start_stop: optional_text(self.start_stop),
            reset: optional_text(self.reset),
            skip: optional_text(self.skip),
        }
    }
}

/// The key combinations bound by default.
pub open spec fn default_shortcuts() -> ShortcutBindings {
    ShortcutBindings {
        start_stop: Some("CommandOrControl+Alt+Space"@),
        reset: Some("CommandOrControl+Alt+R"@),
        skip: Some("CommandOrControl+Alt+S"@),
    }
}

/// The timer durations set by default.
pub open spec fn default_timer() -> TimerSettings {
    TimerSettings {
        focus_duration: 25,
        break_duration: 5,
        long_break_duration: 20,
        total_sessions: 10,
        weekly_goal_minutes: DEFAULT_WEEKLY_GOAL_MINUTES,
    }
}

/// The notification toggles set by default.
pub open spec fn default_notifications() -> NotificationSettings {
    NotificationSettings {
        desktop_notifications: true,
        sound_notifications: true,
        auto_start_timer: true,
        auto_start_focus: false,
        allow_continuous_sessions: false,
        smart_pause: false,
        smart_pause_timeout: 30,
    }
}

/// Whether `settings` are the compiled-in defaults.
pub open spec fn is_default_settings(settings: AppSettings) -> bool {
    &&& settings.shortcuts@ == default_shortcuts()
    &&& settings.timer == default_timer()
    &&& settings.notifications == default_notifications()
    &&& settings.advanced == AdvancedSettings { debug_mode: false }
    &&& !settings.autostart
    &&& settings.analytics_enabled
    &&& !settings.hide_icon_on_close
}

/// The value of an optional field: what the document names, or the default.
pub open spec fn named_or<T>(named: Option<T>, default: T) -> T {
    match named {
        Some(value) => value,
        None => default,
    }
}

/// The settings that a persisted document stands for: every field that the
/// document names is kept, every field that it does not name has its default.
pub open spec fn completed(document: StoredSettings) -> AppSettings {
    AppSettings {
        shortcuts: document.shortcuts,
        timer: TimerSettings {
            focus_duration: document.timer.focus_duration,
            break_duration: document.timer.break_duration,
            long_break_duration: document.timer.long_break_duration,
            total_sessions: document.timer.total_sessions,
            weekly_goal_minutes: named_or(
                document.timer.weekly_goal_minutes,
                DEFAULT_WEEKLY_GOAL_MINUTES,
            ),
        },
        notifications: NotificationSettings {
            desktop_notifications: document.notifications.desktop_notifications,
            sound_notifications: document.notifications.sound_notifications,
            auto_start_timer: document.notifications.auto_start_timer,
            auto_start_focus: named_or(document.notifications.auto_start_focus, false),
            allow_continuous_sessions: named_or(
                document.notifications.allow_continuous_sessions,
                false,
            ),
            smart_pause: document.notifications.smart_pause,
            smart_pause_timeout: document.notifications.smart_pause_timeout,
        },
        advanced: AdvancedSettings {
            debug_mode: match document.advanced {
                Some(advanced) => named_or(advanced.debug_mode, false),
                None => false,
            },
        },
        autostart: document.autostart,
        analytics_enabled: named_or(document.analytics_enabled, true),
        hide_icon_on_close: named_or(document.hide_icon_on_close, false),
    }
}

/// Completion is field by field: a document that names no weekly goal gets
/// the default goal, one that names a goal keeps it, and in both cases the
/// fields that every document names are kept as they are.
pub proof fn lemma_completion_keeps_named_fields(document: StoredSettings)
    ensures
        document.timer.weekly_goal_minutes is None ==> completed(
            document,
        ).timer.weekly_goal_minutes == 125,
        document.timer.weekly_goal_minutes matches Some(minutes) ==> completed(
            document,
        ).timer.weekly_goal_minutes == minutes,
        completed(document).shortcuts == document.shortcuts,
        completed(document).timer.focus_duration == document.timer.focus_duration,
        completed(document).timer.break_duration == document.timer.break_duration,
        completed(document).timer.long_break_duration == document.timer.long_break_duration,
        completed(document).timer.total_sessions == document.timer.total_sessions,
        completed(document).notifications.desktop_notifications
            == document.notifications.desktop_notifications,
        completed(document).notifications.sound_notifications
            == document.notifications.sound_notifications,
        completed(document).notifications.auto_start_timer
            == document.notifications.auto_start_timer,
        completed(document).notifications.smart_pause == document.notifications.smart_pause,
        completed(document).notifications.smart_pause_timeout
            == document.notifications.smart_pause_timeout,
        completed(document).autostart == document.autostart,
{
}

/// The weekly focus goal of a document that names none.
pub fn default_weekly_goal() -> (minutes: u32)
    ensures
        minutes == DEFAULT_WEEKLY_GOAL_MINUTES,
        minutes == 125,
{
    DEFAULT_WEEKLY_GOAL_MINUTES
}

/// Analytics are on in a document that does not say.
pub fn default_analytics_enabled() -> (enabled: bool)
    ensures
        enabled,
{
    true
}

impl Default for AdvancedSettings {
    fn default() -> (advanced: AdvancedSettings)
        ensures
            advanced == (AdvancedSettings { debug_mode: false }),
    {
        AdvancedSettings { debug_mode: false }
    }
}

impl Default for AppSettings {
    /// The compiled-in defaults.
    fn default() -> (settings: AppSettings)
        ensures
            is_default_settings(settings),
    {
        AppSettings {
            shortcuts: ShortcutSettings {
                start_stop: Some(String::from_str("CommandOrControl+Alt+Space")),
                reset: Some(String::from_str("CommandOrControl+Alt+R")),
                skip: Some(String::from_str("CommandOrControl+Alt+S")),
            },
            timer: TimerSettings {
                focus_duration: 25,
                break_duration: 5,
                long_break_duration: 20,
                total_sessions: 10,
                weekly_goal_minutes: default_weekly_goal(),
            },
            notifications: NotificationSettings {
                desktop_notifications: true,
                sound_notifications: true,
                auto_start_timer: true,
                auto_start_focus: false,
                allow_continuous_sessions: false,
                smart_pause: false,
                smart_pause_timeout: 30,
            },
            advanced: AdvancedSettings::default(),
            autostart: false,
            analytics_enabled: default_analytics_enabled(),
            hide_icon_on_close: false,
        }
    }
}

fn or_default_flag(named: Option<bool>, default: bool) -> (value: bool)
    ensures
        value == named_or(named, default),
{
    match named {
        Some(value) => value,
        None => default,
    }
}

/// Completes a persisted document: keeps every field that it names and
/// gives every field that it does not name its default.
pub fn complete_settings(document: StoredSettings) -> (settings: AppSettings)
    ensures
        settings == completed(document),
{
    let weekly_goal_minutes = match document.timer.weekly_goal_minutes {
        Some(minutes) => minutes,
        None => default_weekly_goal(),
    };
    let debug_mode = match document.advanced {
        Some(advanced) => or_default_flag(advanced.debug_mode, false),
        None => AdvancedSettings::default().debug_mode,
    };
    let analytics_enabled = match document.analytics_enabled {
        Some(enabled) => enabled,
        None => default_analytics_enabled(),
    };
    AppSettings {
        shortcuts: document.shortcuts,
        timer: TimerSettings {
            focus_duration: document.timer.focus_duration,
            break_duration: document.timer.break_duration,
            long_break_duration: document.timer.long_break_duration,
            total_sessions: document.timer.total_sessions,
            weekly_goal_minutes,
        },
        notifications: NotificationSettings {
            desktop_notifications: document.notifications.desktop_notifications,
            sound_notifications: document.notifications.sound_notifications,
            auto_start_timer: document.notifications.auto_start_timer,
            auto_start_focus: or_default_flag(document.notifications.auto_start_focus, false),
            allow_continuous_sessions: or_default_flag(
                document.notifications.allow_continuous_sessions,
                false,
            ),
            smart_pause: document.notifications.smart_pause,
            smart_pause_timeout: document.notifications.smart_pause_timeout,
        },
        advanced: AdvancedSettings { debug_mode },
        autostart: document.autostart,
        analytics_enabled,
        hide_icon_on_close: or_default_flag(document.hide_icon_on_close, false),
    }
}

/// Loads the settings from what the store holds.
///
/// With no persisted document the compiled-in defaults are returned. A
/// document that parses is completed field by field. A document that cannot
/// be parsed is an error, never replaced by the defaults.
pub fn load_settings(stored: Stored<StoredSettings>) -> (loaded: Result<AppSettings, StoreError>)
    ensures
        match stored {
            Stored::Absent => loaded matches Ok(settings) && is_default_settings(settings),
            Stored::Corrupt(detail) => loaded matches Err(error) && error.record
                == RecordKind::Settings && error.detail == detail,
            Stored::Parsed(document) => loaded == Ok::<AppSettings, StoreError>(
                completed(document),
            ),
        },
{
    match stored {
        Stored::Absent => Ok(AppSettings::default()),
        Stored::Corrupt(detail) => Err(StoreError { record: RecordKind::Settings, detail }),
        Stored::Parsed(document) => Ok(complete_settings(document)),
    }
}

/// Whether analytics may be sent, given what loading the settings gave:
/// what the settings say, and yes when they could not be loaded.
pub fn are_analytics_enabled(loaded: &Result<AppSettings, StoreError>) -> (enabled: bool)
    ensures
        enabled == match *loaded {
            Ok(settings) => settings.analytics_enabled,
            Err(_) => true,
        },
{
    match loaded {
        Ok(settings) => settings.analytics_enabled,
        Err(_) => true,
    }
}

/// Whether closing the window also hides the application's icon: what the
/// settings say, and no when they could not be loaded. The same answer tells
/// whether showing the window must bring the icon back.
pub fn hides_icon_on_close(loaded: &Result<AppSettings, StoreError>) -> (hides: bool)
    ensures
        hides == match *loaded {
            Ok(settings) => settings.hide_icon_on_close,
            Err(_) => false,
        },
{
    match loaded {
        Ok(settings) => settings.hide_icon_on_close,
        Err(_) => false,
    }
}

/// The shortcuts to register at launch: those of the settings, and the
/// default ones when the settings could not be loaded.
pub fn startup_shortcuts(loaded: Result<AppSettings, StoreError>) -> (shortcuts: ShortcutSettings)
    ensures
        match loaded {
            Ok(settings) => shortcuts == settings.shortcuts,
            Err(_) => shortcuts@ == default_shortcuts(),
        },
{
    match loaded {
        Ok(settings) => settings.shortcuts,
        Err(_) => AppSettings::default().shortcuts,
    }
}

} // verus!
