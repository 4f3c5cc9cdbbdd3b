//! A checkbox.

use crate::element::{AnyElement, ElementNode};
use crate::event::{KeyCode, KeyEventKind, MouseButton, MouseEventKind, TerminalEvent};
use crate::style::Color;
use crate::text::TextProps;
use vstd::prelude::*;

verus! {

/// The props of [`Checkbox`].
#[derive(Debug)]
pub struct CheckboxProps {
    /// Whether the box is checked.
    pub checked: bool,
    /// Whether the box has the focus.
    pub has_focus: bool,
    /// Called with the new value when the box is toggled, named by a number.
    pub on_change: Option<u64>,
    /// The color of the box.
    pub color: Option<Color>,
    /// What a checked box looks like.
    pub checked_symbol: Option<String>,
    /// What an unchecked box looks like.
    pub unchecked_symbol: Option<String>,
}

impl Default for CheckboxProps {
    fn default() -> (r: Self)
        ensures
            !r.checked,
            !r.has_focus,
            r.on_change is None,
            r.color is None,
            r.checked_symbol is None,
            r.unchecked_symbol is None,
    {
        CheckboxProps {
            checked: false,
            has_focus: false,
            on_change: None,
            color: None,
            checked_symbol: None,
            unchecked_symbol: None,
        }
    }
}

/// Whether an event toggles a box: a press of the left button on it, or a press of Enter or
/// Space while it has the focus.
pub open spec fn toggles(has_focus: bool, event: TerminalEvent) -> bool {
    match event {
        TerminalEvent::FullscreenMouse(mouse) => mouse.kind == MouseEventKind::Down(
            MouseButton::Left,
        ),
        TerminalEvent::Key(key) => has_focus && key.kind == KeyEventKind::Press && (key.code
            == KeyCode::Enter || key.code == KeyCode::Char(' ')),
        _ => false,
    }
}

/// Requests to toggle a box, and how many of them were met.
#[derive(Clone, Copy, Debug, PartialEq, Eq, Structural)]
pub struct CheckboxState {
    pub toggle_requests: u64,
    pub handled_requests: u64,
}

impl Default for CheckboxState {
    fn default() -> (r: Self)
        ensures
            r == (CheckboxState { toggle_requests: 0, handled_requests: 0 }),
    {
        CheckboxState { toggle_requests: 0, handled_requests: 0 }
    }
}

impl CheckboxState {
    /// The state after an event.
    pub open spec fn after(self, has_focus: bool, event: TerminalEvent) -> CheckboxState {
        if toggles(has_focus, event) {
            CheckboxState { toggle_requests: (self.toggle_requests + 1) as u64, ..self }
        } else {
            self
        }
    }

    /// The change that is due, if one was asked for.
    pub open spec fn change(self, checked: bool) -> Option<bool> {
        if self.toggle_requests > self.handled_requests {
            Some(!checked)
        } else {
            None
        }
    }

    /// The state once the change that is due was made.
    pub open spec fn settled(self) -> CheckboxState {
        if self.toggle_requests > self.handled_requests {
            CheckboxState { handled_requests: self.toggle_requests, ..self }
        } else {
            self
        }
    }

    /// Takes an event, and returns whether it is used up.
    pub fn handle(&mut self, has_focus: bool, event: &TerminalEvent) -> (stops: bool)
        requires
            old(self).toggle_requests < u64::MAX,
        ensures
            stops == toggles(has_focus, *event),
            *final(self) == old(self).after(has_focus, *event),
    {
        let handled = match event {
            TerminalEvent::FullscreenMouse(mouse) => mouse.kind == MouseEventKind::Down(
                MouseButton::Left,
            ),
            TerminalEvent::Key(key) => has_focus && key.kind == KeyEventKind::Press && (key.code
                == KeyCode::Enter || key.code == KeyCode::Char(' ')),
            _ => false,
        };
        if handled {
            self.toggle_requests = self.toggle_requests + 1;
        }
        handled
    }

    /// Meets the requests that are open, and returns the new value of the box. Several of
    /// them toggle it once.
    pub fn take_change(&mut self, checked: bool) -> (change: Option<bool>)
        ensures
            change == old(self).change(checked),
            *final(self) == old(self).settled(),
    {
        if self.toggle_requests > self.handled_requests {
            self.handled_requests = self.toggle_requests;
            Some(!checked)
        } else {
            None
        }
    }
}

/// Renders a checkbox: its symbol, inverted while it has the focus.
#[allow(non_snake_case)]
pub fn Checkbox(props: &CheckboxProps) -> (element: AnyElement)
    ensures
        element.key.value == 0,
        element.node is Text,
        ({
            let text = element.node->Text_0;
            let symbol = if props.checked {
                props.checked_symbol
            } else {
                props.unchecked_symbol
            };
            &&& text.content@ == match symbol {
                Some(symbol) => symbol@,
                None => if props.checked {
                    "[x]"@
                } else {
                    "[ ]"@
                },
            }
            &&& text.color == props.color
            &&& text.invert == props.has_focus
            &&& crate::text::is_plain_text(TextProps { color: None, invert: false, ..text })
        }),
        ({
            let shown = element.node->Text_0.content@;
            &&& props.checked && props.checked_symbol is Some ==> shown
                == props.checked_symbol->0@
            &&& !props.checked && props.unchecked_symbol is Some ==> shown
                == props.unchecked_symbol->0@
            &&& props.checked && props.checked_symbol is None ==> shown == "[x]"@
            &&& !props.checked && props.unchecked_symbol is None ==> shown == "[ ]"@
        }),
{
    let content: String = if props.checked {
        match &props.checked_symbol {
            Some(symbol) => symbol.clone(),
            None => "[x]".to_owned(),
        }
    } else {
        match &props.unchecked_symbol {
            Some(symbol) => symbol.clone(),
            None => "[ ]".to_owned(),
        }
    };
    let plain = TextProps::default();
    AnyElement::at(
        0,
        ElementNode::Text(
            TextProps { content, color: props.color, invert: props.has_focus, ..plain },
        ),
    )
}

/// Where no change is due, an event that toggles the checkbox makes exactly one change, and
/// another event makes none.
pub proof fn lemma_one_toggle_is_one_change(
    state: CheckboxState,
    has_focus: bool,
    event: TerminalEvent,
    checked: bool,
)
    requires
        state.toggle_requests == state.handled_requests,
        state.toggle_requests < u64::MAX,
    ensures
        ({
            let after = state.after(has_focus, event);
            &&& after.change(checked) == if toggles(has_focus, event) {
                Some(!checked)
            } else {
                None
            }
            &&& after.settled().change(!checked) is None
        }),
{
}

/// A box is toggled by a press of the left button, and by a press of Enter or Space while it has
/// the focus; by nothing else.
pub proof fn lemma_what_toggles_a_box(has_focus: bool, event: TerminalEvent)
    ensures
        event matches TerminalEvent::FullscreenMouse(mouse) ==> toggles(has_focus, event) == (
        mouse.kind == MouseEventKind::Down(MouseButton::Left)),
        event matches TerminalEvent::Key(key) ==> toggles(has_focus, event) == (has_focus
            && key.kind == KeyEventKind::Press && (key.code == KeyCode::Enter || key.code
            == KeyCode::Char(' '))),
        event is Resize || event is Paste ==> !toggles(has_focus, event),
{
}

/// A box that was toggled is due to change to the other state, once: the change settles it. One
/// that was not toggled stays as it is.
pub proof fn lemma_toggled_box_changes(
    state: CheckboxState,
    has_focus: bool,
    event: TerminalEvent,
    checked: bool,
)
    requires
        state.toggle_requests == state.handled_requests,
        state.toggle_requests < u64::MAX,
    ensures
        state.change(checked) is None,
        toggles(has_focus, event) ==> state.after(has_focus, event).change(checked) == Some(
            !checked,
        ),
        !toggles(has_focus, event) ==> state.after(has_focus, event).change(checked) is None,
        state.after(has_focus, event).settled().change(checked) is None,
{
}

} // verus!
