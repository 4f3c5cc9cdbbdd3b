//! A button.

use crate::element::{AnyElement, ElementNode};
use crate::event::{KeyCode, KeyEvent, KeyEventKind};
use crate::style::LayoutStyle;
use crate::view_props::{FocusProps, ViewHandlers, ViewProps};
use vstd::prelude::*;

verus! {

/// How a button is seen by its children.
#[derive(Clone, Copy, Debug, PartialEq, Eq, Structural)]
pub struct ButtonState {
    /// Whether the button has the focus.
    pub focused: bool,
    /// Whether the pointer is over the button.
    pub hovered: bool,
    /// Whether a key has just pressed the button.
    pub active: bool,
}

impl Default for ButtonState {
    fn default() -> (r: Self)
        ensures
            r == (ButtonState { focused: false, hovered: false, active: false }),
    {
        ButtonState { focused: false, hovered: false, active: false }
    }
}

/// The time, in milliseconds, for which a button that a key has pressed stays active.
pub const BUTTON_ACTIVE_MILLIS: u64 = 100;

/// The props of [`Button`]. Handlers are named by numbers.
#[derive(Debug)]
pub struct ButtonProps {
    /// The elements of the button.
    pub children: Vec<AnyElement>,
    /// Called when the button is pressed.
    pub handler: Option<u64>,
    /// Called when the button is pressed, after `handler`.
    pub on_action: Option<u64>,
    /// Whether the button has the focus without a focus context.
    pub has_focus: bool,
    /// Whether the button can get the focus, also by Tab.
    pub focusable: bool,
    /// Where the button stands in Tab traversal.
    pub tab_index: Option<i32>,
    /// Whether the button asks for the focus when it is mounted.
    pub auto_focus: bool,
    /// Whether the button can be pressed; it can by default.
    pub is_active: Option<bool>,
    /// A place that the state of the button is written to at every render, named by a number.
    pub state: Option<u64>,
}

impl ButtonProps {
    /// Whether the button can be pressed.
    pub open spec fn enabled(self) -> bool {
        self.is_active != Some(false)
    }

    /// How the button takes part in focus. A button that can be pressed has a place in Tab
    /// traversal.
    pub open spec fn focus(self) -> FocusProps {
        FocusProps {
            focusable: self.focusable && self.enabled(),
            tab_index: if !self.enabled() {
                None
            } else if self.tab_index is Some {
                self.tab_index
            } else {
                Some(0)
            },
            auto_focus: self.auto_focus && self.enabled(),
        }
    }

    /// Whether the button can be pressed.
    pub fn is_enabled(&self) -> (r: bool)
        ensures
            r == self.enabled(),
    {
        match self.is_active {
            Some(is_active) => is_active,
            None => true,
        }
    }
}

/// What happens to a button.
#[derive(Clone, Copy, Debug, PartialEq, Eq, Structural)]
pub enum ButtonEvent {
    /// The view of the button got the focus.
    Focus,
    /// The view of the button lost the focus.
    Blur,
    /// The pointer came in.
    MouseEnter,
    /// The pointer went out.
    MouseLeave,
    /// A key came to the view of the button.
    KeyDown(KeyCode),
    /// A key came to the application.
    Key(KeyEvent),
    /// The button was clicked.
    Click,
    /// The time for which the button stays active is over.
    Timeout,
}

/// What a button does about an event.
#[derive(Clone, Copy, Debug, PartialEq, Eq, Structural)]
pub struct ButtonReaction {
    /// The handler to call first.
    pub handler: Option<u64>,
    /// The handler to call after it.
    pub on_action: Option<u64>,
    /// Whether the default action of the event is prevented.
    pub prevent_default: bool,
    /// Whether other components are kept from the event.
    pub stop_propagation: bool,
}

/// Whether a key presses a button.
pub open spec fn presses(code: KeyCode) -> bool {
    code == KeyCode::Enter || code == KeyCode::Char(' ')
}

/// A button after an event. Only a key makes it active; a click gives it the focus.
pub open spec fn button_after(
    state: ButtonState,
    props: ButtonProps,
    event: ButtonEvent,
) -> ButtonState {
    match event {
        ButtonEvent::Focus => ButtonState { focused: true, ..state },
        ButtonEvent::Blur => ButtonState { focused: false, ..state },
        ButtonEvent::MouseEnter => ButtonState { hovered: true, ..state },
        ButtonEvent::MouseLeave => ButtonState { hovered: false, ..state },
        ButtonEvent::Click => ButtonState {
            focused: state.focused || (props.enabled() && props.focus().active()),
            ..state
        },
        ButtonEvent::Timeout => ButtonState { active: false, ..state },
        _ => ButtonState { active: state.active || pressed_by(props, event), ..state },
    }
}

/// Whether an event presses a button. A button that has the focus without a focus context
/// takes its keys from the application, another one from its view.
pub open spec fn pressed_by(props: ButtonProps, event: ButtonEvent) -> bool {
    props.enabled() && match event {
        ButtonEvent::KeyDown(code) => !props.has_focus && presses(code),
        ButtonEvent::Key(key) => props.has_focus && key.kind == KeyEventKind::Press && presses(
            key.code,
        ),
        ButtonEvent::Click => true,
        _ => false,
    }
}

/// What a button does about an event. A key that presses it is used up.
pub open spec fn reaction_to(props: ButtonProps, event: ButtonEvent) -> ButtonReaction {
    let pressed: bool = pressed_by(props, event);
    ButtonReaction {
        handler: if pressed {
            props.handler
        } else {
            None
        },
        on_action: if pressed {
            props.on_action
        } else {
            None
        },
        prevent_default: pressed && !(event is Click),
        stop_propagation: pressed && event is Key,
    }
}

/// Whether a key presses a button.
fn is_press(code: KeyCode) -> (r: bool)
    ensures
        r == presses(code),
{
    code == KeyCode::Enter || code == KeyCode::Char(' ')
}

impl ButtonState {
    /// The state of a button that is mounted.
    pub fn new(props: &ButtonProps) -> (r: Self)
        ensures
            r == (ButtonState { focused: props.has_focus, hovered: false, active: false }),
    {
        ButtonState { focused: props.has_focus, hovered: false, active: false }
    }

    /// The state that the children of the button see.
    pub fn shown(&self, props: &ButtonProps) -> (r: ButtonState)
        ensures
            r == (ButtonState { focused: props.has_focus || self.focused, ..*self }),
    {
        ButtonState {
            focused: props.has_focus || self.focused,
            hovered: self.hovered,
            active: self.active,
        }
    }

    /// What a render writes for the children of the button to see, and the place that it is
    /// written to, if the button has one.
    pub fn written(&self, props: &ButtonProps) -> (r: Option<(u64, ButtonState)>)
        ensures
            r == match props.state {
                Some(place) => Some(
                    (place, ButtonState { focused: props.has_focus || self.focused, ..*self }),
                ),
                None => None,
            },
    {
        match props.state {
            Some(place) => Some((place, self.shown(props))),
            None => None,
        }
    }

    /// Takes an event, and returns what is done about it.
    pub fn handle(&mut self, props: &ButtonProps, event: ButtonEvent) -> (r: ButtonReaction)
        ensures
            *final(self) == button_after(*old(self), *props, event),
            r == reaction_to(*props, event),
    {
        let enabled = props.is_enabled();
        let mut pressed = false;
        let mut used_up = false;
        let mut stopped = false;
        match event {
            ButtonEvent::Focus => {
                self.focused = true;
            },
            ButtonEvent::Blur => {
                self.focused = false;
            },
            ButtonEvent::MouseEnter => {
                self.hovered = true;
            },
            ButtonEvent::MouseLeave => {
                self.hovered = false;
            },
            ButtonEvent::Timeout => {
                self.active = false;
            },
            ButtonEvent::KeyDown(code) => {
                if enabled && !props.has_focus && is_press(code) {
                    pressed = true;
                    used_up = true;
                    self.active = true;
                }
            },
            ButtonEvent::Key(key) => {
                if enabled && props.has_focus && key.kind == KeyEventKind::Press && is_press(
                    key.code,
                ) {
                    pressed = true;
                    used_up = true;
                    stopped = true;
                    self.active = true;
                }
            },
            ButtonEvent::Click => {
                if enabled {
                    pressed = true;
                    self.focused = true;
                }
            },
        }
        ButtonReaction {
            handler: if pressed {
                props.handler
            } else {
                None
            },
            on_action: if pressed {
                props.on_action
            } else {
                None
            },
            prevent_default: used_up,
            stop_propagation: stopped,
        }
    }

    /// The time after which the button is no longer active, if it is.
    pub fn timeout_millis(&self) -> (r: Option<u64>)
        ensures
            r == if self.active {
                Some(BUTTON_ACTIVE_MILLIS)
            } else {
                None
            },
    {
        if self.active {
            Some(BUTTON_ACTIVE_MILLIS)
        } else {
            None
        }
    }
}

/// The handlers of a button's view, each named by a number.
#[derive(Clone, Copy, Debug, PartialEq, Eq, Structural)]
pub struct ButtonHandlers {
    pub on_focus: u64,
    pub on_blur: u64,
    pub on_mouse_enter: u64,
    pub on_mouse_leave: u64,
    pub on_key_down: u64,
    pub on_click: u64,
}

/// Renders a button: a view with the children of the button, and with the handlers that
/// hand events to [`ButtonState::handle`].
#[allow(non_snake_case)]
pub fn Button(props: ButtonProps, handlers: ButtonHandlers) -> (element: AnyElement)
    ensures
        element.key.value == 0,
        element.node is View,
        ({
            let view = element.node->View_0;
            &&& view.children == props.children
            &&& view.layout == crate::style::plain_layout()
            &&& view.focus == props.focus()
            &&& view.handlers == (ViewHandlers {
                on_focus: Some(handlers.on_focus),
                on_blur: Some(handlers.on_blur),
                on_mouse_enter: Some(handlers.on_mouse_enter),
                on_mouse_leave: Some(handlers.on_mouse_leave),
                on_key_down: Some(handlers.on_key_down),
                on_click: Some(handlers.on_click),
                ..ViewHandlers::none()
            })
            &&& (ViewProps {
                focus: FocusProps::none(),
                handlers: ViewHandlers::none(),
                ..view
            }).is_bare()
        }),
{
    let enabled = props.is_enabled();
    let tab_index: Option<i32> = if !enabled {
        None
    } else if props.tab_index.is_some() {
        props.tab_index
    } else {
        Some(0)
    };
    let focus = FocusProps {
        focusable: props.focusable && enabled,
        tab_index,
        auto_focus: props.auto_focus && enabled,
    };
    let mut view = ViewProps::bare(LayoutStyle::default(), props.children);
    view.focus = focus;
    view.handlers.on_focus = Some(handlers.on_focus);
    view.handlers.on_blur = Some(handlers.on_blur);
    view.handlers.on_mouse_enter = Some(handlers.on_mouse_enter);
    view.handlers.on_mouse_leave = Some(handlers.on_mouse_leave);
    view.handlers.on_key_down = Some(handlers.on_key_down);
    view.handlers.on_click = Some(handlers.on_click);
    AnyElement::at(0, ElementNode::View(view))
}

/// A button that cannot be pressed calls nothing, uses no event up and takes no part in
/// focus.
pub proof fn lemma_disabled_button_does_nothing(props: ButtonProps, event: ButtonEvent)
    requires
        !props.enabled(),
    ensures
        reaction_to(props, event) == (ButtonReaction {
            handler: None,
            on_action: None,
            prevent_default: false,
            stop_propagation: false,
        }),
        props.focus() == FocusProps::none(),
{
}

/// A button is pressed by a click, and by Enter and Space: those that its view gets where it has
/// no focus of its own, and those that the application gets, when they are pressed, where it has.
/// One that is not active is never pressed.
pub proof fn lemma_what_presses_a_button(props: ButtonProps, event: ButtonEvent)
    ensures
        ({
            let pressed = pressed_by(props, event);
            let able = props.is_active is None || props.is_active->0;
            &&& !able ==> !pressed
            &&& able && event is Click ==> pressed
            &&& event matches ButtonEvent::KeyDown(code) ==> pressed == (able && !props.has_focus
                && (code == KeyCode::Enter || code == KeyCode::Char(' ')))
            &&& event matches ButtonEvent::Key(key) ==> pressed == (able && props.has_focus
                && key.kind == KeyEventKind::Press && (key.code == KeyCode::Enter || key.code
                == KeyCode::Char(' ')))
            &&& event is Focus || event is Blur || event is MouseEnter || event is MouseLeave
                || event is Timeout ==> !pressed
        }),
{
}

/// A button that is pressed calls its handlers; a key that presses it has no other effect, and
/// other components do not see it where it came from the application. Any other event calls
/// nothing.
pub proof fn lemma_pressed_button_calls_its_handlers(props: ButtonProps, event: ButtonEvent)
    ensures
        ({
            let reaction = reaction_to(props, event);
            let pressed = pressed_by(props, event);
            &&& pressed ==> reaction.handler == props.handler && reaction.on_action
                == props.on_action
            &&& !pressed ==> reaction.handler is None && reaction.on_action is None
            &&& reaction.prevent_default == (pressed && (event is KeyDown || event is Key))
            &&& reaction.stop_propagation == (pressed && event is Key)
        }),
{
}

/// What a button shows follows the focus, the pointer and the keys: each event changes its own
/// part, and no other. A key that presses it makes it active until its time is over.
pub proof fn lemma_button_follows_events(state: ButtonState, props: ButtonProps, event: ButtonEvent)
    ensures
        ({
            let after = button_after(state, props, event);
            &&& event is Focus ==> after == (ButtonState { focused: true, ..state })
            &&& event is Blur ==> after == (ButtonState { focused: false, ..state })
            &&& event is MouseEnter ==> after == (ButtonState { hovered: true, ..state })
            &&& event is MouseLeave ==> after == (ButtonState { hovered: false, ..state })
            &&& event is Timeout ==> after == (ButtonState { active: false, ..state })
            &&& event is KeyDown || event is Key ==> after == (ButtonState {
                active: state.active || pressed_by(props, event),
                ..state
            })
            &&& event is Click ==> after == (ButtonState { focused: after.focused, ..state })
            &&& event is Click && state.focused ==> after.focused
            &&& event is Click && pressed_by(props, event) ==> after.focused
        }),
{
}

/// A button that can be pressed is reached by Tab, at its own place or the first one; one that
/// cannot takes no part in focus.
pub proof fn lemma_button_takes_part_in_focus(props: ButtonProps)
    ensures
        ({
            let able = props.is_active is None || props.is_active->0;
            let focus = props.focus();
            &&& !able ==> !focus.focusable && focus.tab_index is None && !focus.auto_focus
            &&& able ==> focus.focusable == props.focusable && focus.auto_focus
                == props.auto_focus && focus.tab_index is Some
            &&& able && props.tab_index is Some ==> focus.tab_index == props.tab_index
            &&& able && props.tab_index is None ==> focus.tab_index->0 == 0
        }),
{
}

} // verus!
