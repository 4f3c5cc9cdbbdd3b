//! A focus context of its own for a part of the tree.

use crate::boxes::provide;
use crate::context::ContextValue;
use crate::element::AnyElement;
use crate::event::{KeyCode, KeyEventKind, TerminalEvent};
use vstd::prelude::*;

verus! {

/// The props of [`FocusScope`].
#[derive(Debug)]
pub struct FocusScopeProps {
    /// The elements that see the focus context.
    pub children: Vec<AnyElement>,
    /// Whether keys move the focus; they do by default.
    pub handle_keys: Option<bool>,
}

/// What a key does to the focus.
#[derive(Clone, Copy, Debug, PartialEq, Eq, Structural)]
pub enum FocusAction {
    /// The focus goes to the entry before.
    FocusPrev,
    /// The focus goes to the entry after.
    FocusNext,
    /// Nothing has the focus.
    Clear,
}

/// What an event does to the focus: Tab goes forward, Tab with Shift goes back, and Escape
/// clears it.
pub open spec fn action_of(handle_keys: bool, event: TerminalEvent) -> Option<FocusAction> {
    match event {
        TerminalEvent::Key(key) => if !handle_keys || key.kind == KeyEventKind::Release {
            None
        } else {
            match key.code {
                KeyCode::BackTab => Some(FocusAction::FocusPrev),
                KeyCode::Tab => Some(
                    if key.modifiers.shift {
                        FocusAction::FocusPrev
                    } else {
                        FocusAction::FocusNext
                    },
                ),
                KeyCode::Esc => Some(FocusAction::Clear),
                _ => None,
            }
        },
        _ => None,
    }
}

/// What an event does to the focus.
pub fn focus_action(handle_keys: bool, event: &TerminalEvent) -> (action: Option<FocusAction>)
    ensures
        action == action_of(handle_keys, *event),
{
    match event {
        TerminalEvent::Key(key) => {
            if !handle_keys || key.kind == KeyEventKind::Release {
                return None;
            }
            match key.code {
                KeyCode::BackTab => Some(FocusAction::FocusPrev),
                KeyCode::Tab => {
                    if key.modifiers.shift {
                        Some(FocusAction::FocusPrev)
                    } else {
                        Some(FocusAction::FocusNext)
                    }
                },
                KeyCode::Esc => Some(FocusAction::Clear),
                _ => None,
            }
        },
        _ => None,
    }
}

/// A part of the tree with a focus context of its own.
#[derive(Debug)]
pub struct FocusScopeUpdate {
    /// Whether keys move the focus.
    pub handle_keys: bool,
    /// What is rendered.
    pub element: AnyElement,
}

/// Renders elements that see a focus context of their own, which is named by a number.
#[allow(non_snake_case)]
pub fn FocusScope(props: FocusScopeProps, focus_context: u64) -> (r: FocusScopeUpdate)
    ensures
        r.handle_keys == (props.handle_keys != Some(false)),
        crate::boxes::provides(
            r.element,
            ContextValue::Focus(focus_context),
            props.children@,
        ),
{
    FocusScopeUpdate {
        handle_keys: match props.handle_keys {
            Some(handle_keys) => handle_keys,
            None => true,
        },
        element: provide(ContextValue::Focus(focus_context), props.children),
    }
}

/// Tab goes on to the next entry, and back to the one before with Shift; so does the key for it,
/// whatever is held with it. Escape clears the focus. A key that is released, any other key, any
/// other event, and a scope that does not handle keys do nothing.
pub proof fn lemma_focus_keys(handle_keys: bool, event: TerminalEvent)
    ensures
        ({
            let action = action_of(handle_keys, event);
            &&& !handle_keys || !(event is Key) ==> action is None
            &&& event matches TerminalEvent::Key(key) ==> {
                let pressed = handle_keys && (key.kind == KeyEventKind::Press || key.kind
                    == KeyEventKind::Repeat);
                &&& !pressed ==> action is None
                &&& pressed && key.code == KeyCode::Tab && !key.modifiers.shift ==> action == Some(
                    FocusAction::FocusNext,
                )
                &&& pressed && key.code == KeyCode::Tab && key.modifiers.shift ==> action == Some(
                    FocusAction::FocusPrev,
                )
                &&& pressed && key.code == KeyCode::BackTab ==> action == Some(
                    FocusAction::FocusPrev,
                )
                &&& pressed && key.code == KeyCode::Esc ==> action == Some(FocusAction::Clear)
                &&& key.code != KeyCode::Tab && key.code != KeyCode::BackTab && key.code
                    != KeyCode::Esc ==> action is None
            }
        }),
{
}

} // verus!
