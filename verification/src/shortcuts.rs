//! Global shortcuts: which key combinations to register for which action,
//! and what a fired shortcut leads to.

use crate::debounce::{after_trigger, should_debounce_shortcut, suppressed, DebounceRegistry};
use crate::settings::{ShortcutBindings, ShortcutSettings};
use crate::text::optional_text;
use vstd::prelude::*;

verus! {

/// The actions that a global shortcut can trigger.
#[derive(Clone, Copy, Debug, PartialEq, Eq, Structural)]
pub enum ShortcutAction {
    StartStop,
    Reset,
    Skip,
}

impl ShortcutAction {
    /// The name under which the action is debounced and announced.
    pub open spec fn name_text(self) -> Seq<char> {
        match self {
            ShortcutAction::StartStop => "start-stop"@,
            ShortcutAction::Reset => "reset"@,
            ShortcutAction::Skip => "skip"@,
        }
    }

    /// The name under which the action is debounced and announced.
    pub fn name(&self) -> (text: &'static str)
        ensures
            text@ == self.name_text(),
    {
        match self {
            ShortcutAction::StartStop => "start-stop",
            ShortcutAction::Reset => "reset",
            ShortcutAction::Skip => "skip",
        }
    }

    /// The words for the action in messages to the user.
    pub fn label(&self) -> (text: &'static str)
        ensures
            text@ == match *self {
                ShortcutAction::StartStop => "start/stop"@,
                ShortcutAction::Reset => "reset"@,
                ShortcutAction::Skip => "skip"@,
            },
    {
        match self {
            ShortcutAction::StartStop => "start/stop",
            ShortcutAction::Reset => "reset",
            ShortcutAction::Skip => "skip",
        }
    }
}

/// A key combination to register for an action.
#[derive(Clone, Debug, PartialEq, Eq)]
pub struct ShortcutBinding {
    pub action: ShortcutAction,
    pub keys: String,
}

/// An action and the text of its key combination.
pub struct PlannedBinding {
    pub action: ShortcutAction,
    pub keys: Seq<char>,
}

impl View for ShortcutBinding {
    type V = PlannedBinding;

    open spec fn view(&self) -> PlannedBinding {
        PlannedBinding { action: self.action, keys: self.keys@ }
    }
}

/// The bindings of a plan, each by its view.
pub open spec fn plan_view(plan: Seq<ShortcutBinding>) -> Seq<PlannedBinding> {
    plan.map_values(|binding: ShortcutBinding| binding@)
}

/// The binding of one action, if it has a key combination.
pub open spec fn binding_of(action: ShortcutAction, keys: Option<Seq<char>>) -> Seq<
    PlannedBinding,
> {
    match keys {
        Some(keys) => seq![PlannedBinding { action, keys }],
        None => Seq::empty(),
    }
}

/// The bindings to register for `shortcuts`: one for each action that has a
/// key combination, in the order start-stop, reset, skip.
pub open spec fn bindings_of(shortcuts: ShortcutBindings) -> Seq<PlannedBinding> {
    binding_of(ShortcutAction::StartStop, shortcuts.start_stop) + binding_of(
        ShortcutAction::Reset,
        shortcuts.reset,
    ) + binding_of(ShortcutAction::Skip, shortcuts.skip)
}

fn plan_binding(plan: &mut Vec<ShortcutBinding>, action: ShortcutAction, keys: &Option<String>)
    ensures
        plan_view(final(plan)@) == plan_view(old(plan)@) + binding_of(
            action,
            optional_text(*keys),
        ),
{
    match keys {
        Some(keys) => {
            plan.push(ShortcutBinding { action, keys: keys.clone() });
            assert(plan_view(plan@) =~= plan_view(old(plan)@) + seq![
                PlannedBinding { action, keys: keys@ },
            ]);
        },
        None => {
            assert(plan_view(plan@) =~= plan_view(old(plan)@) + Seq::<PlannedBinding>::empty());
        },
    }
}

/// Plans the registration of the global shortcuts: after all earlier
/// shortcuts were unregistered, the returned bindings are registered in
/// their order.
pub fn register_global_shortcuts(shortcuts: &ShortcutSettings) -> (plan: Vec<ShortcutBinding>)
    ensures
        plan_view(plan@) == bindings_of(shortcuts@),
{
    let mut plan: Vec<ShortcutBinding> = Vec::new();
    assert(plan_view(plan@) =~= Seq::<PlannedBinding>::empty());
    plan_binding(&mut plan, ShortcutAction::StartStop, &shortcuts.start_stop);
    plan_binding(&mut plan, ShortcutAction::Reset, &shortcuts.reset);
    plan_binding(&mut plan, ShortcutAction::Skip, &shortcuts.skip);
    assert(plan_view(plan@) =~= bindings_of(shortcuts@));
    plan
}

/// Handles a fired shortcut: passes it through the debounce registry and
/// returns the action name to announce, or `None` if the trigger is
/// suppressed.
pub fn shortcut_fired(registry: &mut DebounceRegistry, action: ShortcutAction, now: u64) -> (announce:
    Option<&'static str>)
    ensures
        final(registry)@ == after_trigger(old(registry)@, action.name_text(), now),
        announce is None <==> suppressed(old(registry)@, action.name_text(), now),
        announce matches Some(name) ==> name@ == action.name_text(),
{
    let name = action.name();
    if should_debounce_shortcut(registry, name, now) {
        None
    } else {
        Some(name)
    }
}

} // verus!
