//! Tray projection: what the tray shows for a state of the timer.

use crate::text::{decimal_string, decimal_text, optional_text, same_text};
use vstd::prelude::*;
use vstd::string::StringExecFns;

verus! {

/// What the tray shows.
#[derive(Clone, Debug, PartialEq, Eq)]
pub struct TrayPresentation {
    /// Text beside the tray icon: a glyph for the mode, then the timer.
    pub title: String,
    /// Text shown when the pointer rests on the tray icon.
    pub tooltip: String,
}

/// The glyph that stands for a session mode.
pub open spec fn mode_glyph(session_mode: Seq<char>) -> Seq<char> {
    if session_mode == "focus"@ {
        "\u{1F9E0}"@
    } else if session_mode == "break"@ {
        "\u{2615}"@
    } else if session_mode == "longBreak"@ {
        "\u{1F319}"@
    } else {
        "\u{23F1}\u{FE0F}"@
    }
}

/// The word for the state of the timer.
pub open spec fn status_word(is_running: bool) -> Seq<char> {
    if is_running {
        "Running"@
    } else {
        "Paused"@
    }
}

/// The title: the given icon, or else the glyph of the mode, then a space
/// and the timer text.
pub open spec fn tray_title(
    timer_text: Seq<char>,
    session_mode: Seq<char>,
    mode_icon: Option<Seq<char>>,
) -> Seq<char> {
    (match mode_icon {
        Some(icon) => icon,
        None => mode_glyph(session_mode),
    }) + " "@ + timer_text
}

/// The tooltip: in focus mode the session count and the status, in any
/// other mode the kind of break and the status.
pub open spec fn tray_tooltip(
    is_running: bool,
    session_mode: Seq<char>,
    current_session: u32,
    total_sessions: u32,
) -> Seq<char> {
    if session_mode == "focus"@ {
        "Presto - Session "@ + decimal_text(current_session as nat) + "/"@ + decimal_text(
            total_sessions as nat,
        ) + " ("@ + status_word(is_running) + ")"@
    } else {
        "Presto - "@ + (if session_mode == "longBreak"@ {
            "Long Break"@
        } else {
            "Short Break"@
        }) + " ("@ + status_word(is_running) + ")"@
    }
}

/// Projects the state of the timer onto the tray: computes the title and
/// the tooltip that the tray must show.
pub fn update_tray_icon(
    timer_text: &str,
    is_running: bool,
    session_mode: &str,
    current_session: u32,
    total_sessions: u32,
    mode_icon: Option<String>,
) -> (shown: TrayPresentation)
    ensures
        shown.title@ == tray_title(timer_text@, session_mode@, optional_text(mode_icon)),
        shown.tooltip@ == tray_tooltip(
            is_running,
            session_mode@,
            current_session,
            total_sessions,
        ),
{
    let in_focus = same_text(session_mode, "focus");
    let in_long_break = same_text(session_mode, "longBreak");
    let mut title = match mode_icon {
        Some(icon) => icon,
        None => if in_focus {
            String::from_str("\u{1F9E0}")
        } else if same_text(session_mode, "break") {
            String::from_str("\u{2615}")
        } else if in_long_break {
            String::from_str("\u{1F319}")
        } else {
            String::from_str("\u{23F1}\u{FE0F}")
        },
    };
    title.append(" ");
    title.append(timer_text);
    let status = if is_running {
        "Running"
    } else {
        "Paused"
    };
    let mut tooltip = String::from_str("Presto - ");
    if in_focus {
        tooltip.append("Session ");
        tooltip.append(decimal_string(current_session as u64).as_str());
        tooltip.append("/");
        tooltip.append(decimal_string(total_sessions as u64).as_str());
        proof {
            reveal_strlit("Presto - ");
            reveal_strlit("Session ");
            reveal_strlit("Presto - Session ");
            assert("Presto - "@ + "Session "@ =~= "Presto - Session "@);
        }
    } else if in_long_break {
        tooltip.append("Long Break");
    } else {
        tooltip.append("Short Break");
    }
    tooltip.append(" (");
    tooltip.append(status);
    tooltip.append(")");
    assert(tooltip@ =~= tray_tooltip(
        is_running,
        session_mode@,
        current_session,
        total_sessions,
    ));
    TrayPresentation { title, tooltip }
}

} // verus!
