//! Tray menu: its entries for a state of the timer, and what choosing an
//! entry leads to.

use crate::text::same_text;
use vstd::prelude::*;

verus! {

/// An entry of the tray menu.
#[derive(Clone, Copy, Debug, PartialEq, Eq)]
pub struct MenuEntry {
    pub id: &'static str,
    pub label: &'static str,
    pub enabled: bool,
}

/// What a `MenuEntry` holds, texts as sequences of characters.
pub struct MenuLine {
    pub id: Seq<char>,
    pub label: Seq<char>,
    pub enabled: bool,
}

impl View for MenuEntry {
    type V = MenuLine;

    open spec fn view(&self) -> MenuLine {
        MenuLine { id: self.id@, label: self.label@, enabled: self.enabled }
    }
}

/// The entries of a menu, each by its view.
pub open spec fn menu_view(menu: Seq<MenuEntry>) -> Seq<MenuLine> {
    menu.map_values(|entry: MenuEntry| entry@)
}

/// The menu for a state of the timer. A session can be started only while
/// none runs, paused only while one runs and is not paused, skipped only
/// while one runs. Cancelling is worded by the mode.
pub open spec fn menu_for(is_running: bool, is_paused: bool, current_mode: Seq<char>) -> Seq<
    MenuLine,
> {
    seq![
        MenuLine { id: "show"@, label: "Mostra Presto"@, enabled: true },
        MenuLine { id: "start_session"@, label: "Inizia sessione"@, enabled: !is_running },
        MenuLine { id: "pause"@, label: "Pausa"@, enabled: is_running && !is_paused },
        MenuLine { id: "skip"@, label: "Salta sessione"@, enabled: is_running },
        MenuLine {
            id: "cancel"@,
            label: if current_mode == "focus"@ {
                "Annulla"@
            } else {
                "Annulla ultima"@
            },
            enabled: true,
        },
        MenuLine { id: "quit"@, label: "Esci"@, enabled: true },
    ]
}

/// The menu with which the tray starts: only showing the window and
/// quitting are enabled.
pub open spec fn first_menu() -> Seq<MenuLine> {
    seq![
        MenuLine { id: "show"@, label: "Mostra Presto"@, enabled: true },
        MenuLine { id: "start_session"@, label: "Inizia sessione"@, enabled: false },
        MenuLine { id: "pause"@, label: "Pausa"@, enabled: false },
        MenuLine { id: "skip"@, label: "Salta sessione"@, enabled: false },
        MenuLine { id: "cancel"@, label: "Annulla"@, enabled: false },
        MenuLine { id: "quit"@, label: "Esci"@, enabled: true },
    ]
}

fn menu_of(
    start_enabled: bool,
    pause_enabled: bool,
    skip_enabled: bool,
    cancel_label: &'static str,
    cancel_enabled: bool,
) -> (menu: Vec<MenuEntry>)
    ensures
        menu_view(menu@) == seq![
            MenuLine { id: "show"@, label: "Mostra Presto"@, enabled: true },
            MenuLine { id: "start_session"@, label: "Inizia sessione"@, enabled: start_enabled },
            MenuLine { id: "pause"@, label: "Pausa"@, enabled: pause_enabled },
            MenuLine { id: "skip"@, label: "Salta sessione"@, enabled: skip_enabled },
            MenuLine { id: "cancel"@, label: cancel_label@, enabled: cancel_enabled },
            MenuLine { id: "quit"@, label: "Esci"@, enabled: true },
        ],
{
    let mut menu: Vec<MenuEntry> = Vec::new();
    menu.push(MenuEntry { id: "show", label: "Mostra Presto", enabled: true });
    menu.push(MenuEntry { id: "start_session", label: "Inizia sessione", enabled: start_enabled });
    menu.push(MenuEntry { id: "pause", label: "Pausa", enabled: pause_enabled });
    menu.push(MenuEntry { id: "skip", label: "Salta sessione", enabled: skip_enabled });
    menu.push(MenuEntry { id: "cancel", label: cancel_label, enabled: cancel_enabled });
    menu.push(MenuEntry { id: "quit", label: "Esci", enabled: true });
    assert(menu_view(menu@) =~= seq![
        MenuLine { id: "show"@, label: "Mostra Presto"@, enabled: true },
        MenuLine { id: "start_session"@, label: "Inizia sessione"@, enabled: start_enabled },
        MenuLine { id: "pause"@, label: "Pausa"@, enabled: pause_enabled },
        MenuLine { id: "skip"@, label: "Salta sessione"@, enabled: skip_enabled },
        MenuLine { id: "cancel"@, label: cancel_label@, enabled: cancel_enabled },
        MenuLine { id: "quit"@, label: "Esci"@, enabled: true },
    ]);
    menu
}

/// The menu with which the tray starts.
pub fn initial_tray_menu() -> (menu: Vec<MenuEntry>)
    ensures
        menu_view(menu@) == first_menu(),
{
    menu_of(false, false, false, "Annulla", false)
}

/// The menu to show for a state of the timer.
pub fn update_tray_menu(is_running: bool, is_paused: bool, current_mode: &str) -> (menu: Vec<
    MenuEntry,
>)
    ensures
        menu_view(menu@) == menu_for(is_running, is_paused, current_mode@),
{
    let cancel_label = if same_text(current_mode, "focus") {
        "Annulla"
    } else {
        "Annulla ultima"
    };
    menu_of(!is_running, is_running && !is_paused, is_running, cancel_label, true)
}

/// What the interface is told when a menu entry asks the timer to act.
#[derive(Clone, Copy, Debug, PartialEq, Eq, Structural)]
pub enum TrayEvent {
    StartSession,
    Pause,
    Skip,
    Cancel,
}

impl TrayEvent {
    /// The name under which the event is emitted.
    pub fn name(&self) -> (text: &'static str)
        ensures
            text@ == match *self {
                TrayEvent::StartSession => "tray-start-session"@,
                TrayEvent::Pause => "tray-pause"@,
                TrayEvent::Skip => "tray-skip"@,
                TrayEvent::Cancel => "tray-cancel"@,
            },
    {
        match self {
            TrayEvent::StartSession => "tray-start-session",
            TrayEvent::Pause => "tray-pause",
            TrayEvent::Skip => "tray-skip",
            TrayEvent::Cancel => "tray-cancel",
        }
    }
}

/// What choosing a menu entry leads to.
#[derive(Clone, Copy, Debug, PartialEq, Eq, Structural)]
pub enum MenuCommand {
    /// Show and focus the window.
    Show,
    /// Emit the event to the window, then show and focus the window.
    Forward(TrayEvent),
    /// Leave the application.
    Quit,
    /// The entry is not known: do nothing.
    Ignore,
}

/// The command of the menu entry with the id `id`.
pub open spec fn command_of(id: Seq<char>) -> MenuCommand {
    if id == "show"@ {
        MenuCommand::Show
    } else if id == "start_session"@ {
        MenuCommand::Forward(TrayEvent::StartSession)
    } else if id == "pause"@ {
        MenuCommand::Forward(TrayEvent::Pause)
    } else if id == "skip"@ {
        MenuCommand::Forward(TrayEvent::Skip)
    } else if id == "cancel"@ {
        MenuCommand::Forward(TrayEvent::Cancel)
    } else if id == "quit"@ {
        MenuCommand::Quit
    } else {
        MenuCommand::Ignore
    }
}

/// Decides what choosing the menu entry with the id `id` leads to.
pub fn menu_command(id: &str) -> (command: MenuCommand)
    ensures
        command == command_of(id@),
{
    if same_text(id, "show") {
        MenuCommand::Show
    } else if same_text(id, "start_session") {
        MenuCommand::Forward(TrayEvent::StartSession)
    } else if same_text(id, "pause") {
        MenuCommand::Forward(TrayEvent::Pause)
    } else if same_text(id, "skip") {
        MenuCommand::Forward(TrayEvent::Skip)
    } else if same_text(id, "cancel") {
        MenuCommand::Forward(TrayEvent::Cancel)
    } else if same_text(id, "quit") {
        MenuCommand::Quit
    } else {
        MenuCommand::Ignore
    }
}

} // verus!
