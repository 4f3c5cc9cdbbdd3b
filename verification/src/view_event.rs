//! Events that views hand to their handlers.

use crate::event::{KeyCode, KeyEvent, KeyEventKind, KeyModifiers, MediaKeyCode, ModifierKeyCode};
use crate::strings::decimal_text;
use vstd::prelude::*;

verus! {

/// A stable identifier of a mounted view.
#[derive(Clone, Copy, Debug, PartialEq, Eq, Hash, Structural)]
pub struct ViewId(pub u64);

impl ViewId {
    /// The underlying number.
    pub fn as_u64(self) -> (r: u64)
        ensures
            r == self.0,
    {
        self.0
    }
}

/// A stable identifier of an entry of a focus context.
#[derive(Clone, Copy, Debug, PartialEq, Eq, Hash, Structural)]
pub struct FocusId(pub u64);

/// A change of focus.
#[derive(Clone, Copy, Debug, PartialEq, Eq, Structural)]
pub struct FocusChange {
    /// The entry that had the focus before.
    pub previous: Option<FocusId>,
    /// The entry that has the focus now.
    pub current: Option<FocusId>,
}

/// The phase in which a handler runs.
#[derive(Clone, Copy, Debug, PartialEq, Eq, Structural)]
pub enum ViewEventPhase {
    /// A capture handler of an ancestor of the target.
    Capturing,
    /// A handler of the target itself.
    AtTarget,
    /// A handler of an ancestor, after the target.
    Bubbling,
}

/// What handlers have asked of an event. All handlers of one event share it.
#[derive(Clone, Copy, Debug, PartialEq, Eq, Structural)]
pub struct EventFlags {
    /// Handlers of ancestors are not to see the event.
    pub stopped: bool,
    /// No other handler is to see the event.
    pub immediate_stopped: bool,
    /// The default action is not to be taken.
    pub default_prevented: bool,
}

impl EventFlags {
    /// Nothing was asked.
    pub fn new() -> (r: Self)
        ensures
            r == EventFlags::none(),
    {
        EventFlags { stopped: false, immediate_stopped: false, default_prevented: false }
    }

    /// Nothing was asked.
    pub open spec fn none() -> EventFlags {
        EventFlags { stopped: false, immediate_stopped: false, default_prevented: false }
    }

    /// What was asked of either of two copies of an event.
    pub open spec fn merged(self, other: EventFlags) -> EventFlags {
        EventFlags {
            stopped: self.stopped || other.stopped,
            immediate_stopped: self.immediate_stopped || other.immediate_stopped,
            default_prevented: self.default_prevented || other.default_prevented,
        }
    }

    /// Takes over what was asked of a copy of the event.
    pub fn merge(&mut self, copy: EventFlags)
        ensures
            *final(self) == old(self).merged(copy),
    {
        self.stopped = self.stopped || copy.stopped;
        self.immediate_stopped = self.immediate_stopped || copy.immediate_stopped;
        self.default_prevented = self.default_prevented || copy.default_prevented;
    }

    /// Whether the event goes on to ancestors.
    pub open spec fn halted(self) -> bool {
        self.stopped || self.immediate_stopped
    }
}

/// A click on a view.
///
/// Coordinates count from zero; `column` and `row` are those of the screen,
/// `local_column` and `local_row` are relative to the view that handles the click.
#[derive(Clone, Copy, Debug, PartialEq, Eq, Structural)]
pub struct ViewClickEvent {
    /// Screen column of the release.
    pub column: u16,
    /// Screen row of the release.
    pub row: u16,
    /// Column relative to the current view.
    pub local_column: u16,
    /// Row relative to the current view.
    pub local_row: u16,
    /// Whether the clicked cell was blank.
    pub cell_is_blank: bool,
    /// The view that received the click.
    pub target: Option<ViewId>,
    /// The view whose handler runs.
    pub current_target: Option<ViewId>,
    /// The phase in which the handler runs.
    pub phase: ViewEventPhase,
    /// Whether the click goes no further.
    pub stopped: bool,
}

impl ViewClickEvent {
    /// A click that no view has received yet.
    pub fn new(
        column: u16,
        row: u16,
        local_column: u16,
        local_row: u16,
        cell_is_blank: bool,
    ) -> (r: Self)
        ensures
            r == (ViewClickEvent {
                column,
                row,
                local_column,
                local_row,
                cell_is_blank,
                target: None,
                current_target: None,
                phase: ViewEventPhase::AtTarget,
                stopped: false,
            }),
    {
        ViewClickEvent {
            column,
            row,
            local_column,
            local_row,
            cell_is_blank,
            target: None,
            current_target: None,
            phase: ViewEventPhase::AtTarget,
            stopped: false,
        }
    }

    /// The click for one handler.
    pub fn for_dispatch(
        self,
        phase: ViewEventPhase,
        target: Option<ViewId>,
        current_target: Option<ViewId>,
        local_column: u16,
        local_row: u16,
    ) -> (r: Self)
        ensures
            r == (ViewClickEvent {
                phase,
                target,
                current_target,
                local_column,
                local_row,
                ..self
            }),
    {
        ViewClickEvent { phase, target, current_target, local_column, local_row, ..self }
    }

    /// Keeps the click from the handlers of ancestors.
    pub fn stop_immediate_propagation(&mut self)
        ensures
            *final(self) == (ViewClickEvent { stopped: true, ..*old(self) }),
    {
        self.stopped = true;
    }

    /// Whether [`ViewClickEvent::stop_immediate_propagation`] was called.
    pub fn did_stop_immediate_propagation(&self) -> (r: bool)
        ensures
            r == self.stopped,
    {
        self.stopped
    }
}

/// The name of a media key.
pub open spec fn media_name(code: MediaKeyCode) -> Seq<char> {
    match code {
        MediaKeyCode::Play => "media(play)"@,
        MediaKeyCode::Pause => "media(pause)"@,
        MediaKeyCode::PlayPause => "media(playpause)"@,
        MediaKeyCode::Reverse => "media(reverse)"@,
        MediaKeyCode::Stop => "media(stop)"@,
        MediaKeyCode::FastForward => "media(fastforward)"@,
        MediaKeyCode::Rewind => "media(rewind)"@,
        MediaKeyCode::TrackNext => "media(tracknext)"@,
        MediaKeyCode::TrackPrevious => "media(trackprevious)"@,
        MediaKeyCode::Record => "media(record)"@,
        MediaKeyCode::LowerVolume => "media(lowervolume)"@,
        MediaKeyCode::RaiseVolume => "media(raisevolume)"@,
        MediaKeyCode::MuteVolume => "media(mutevolume)"@,
    }
}

/// The name of a modifier key.
pub open spec fn modifier_name(code: ModifierKeyCode) -> Seq<char> {
    match code {
        ModifierKeyCode::LeftShift => "modifier(leftshift)"@,
        ModifierKeyCode::LeftControl => "modifier(leftcontrol)"@,
        ModifierKeyCode::LeftAlt => "modifier(leftalt)"@,
        ModifierKeyCode::LeftSuper => "modifier(leftsuper)"@,
        ModifierKeyCode::LeftHyper => "modifier(lefthyper)"@,
        ModifierKeyCode::LeftMeta => "modifier(leftmeta)"@,
        ModifierKeyCode::RightShift => "modifier(rightshift)"@,
        ModifierKeyCode::RightControl => "modifier(rightcontrol)"@,
        ModifierKeyCode::RightAlt => "modifier(rightalt)"@,
        ModifierKeyCode::RightSuper => "modifier(rightsuper)"@,
        ModifierKeyCode::RightHyper => "modifier(righthyper)"@,
        ModifierKeyCode::RightMeta => "modifier(rightmeta)"@,
        ModifierKeyCode::IsoLevel3Shift => "modifier(isolevel3shift)"@,
        ModifierKeyCode::IsoLevel5Shift => "modifier(isolevel5shift)"@,
    }
}

/// The name of a key: a character stands for itself, the other keys have names in
/// lower case.
pub open spec fn name_of_key(code: KeyCode) -> Seq<char> {
    match code {
        KeyCode::Backspace => "backspace"@,
        KeyCode::Enter => "return"@,
        KeyCode::Left => "left"@,
        KeyCode::Right => "right"@,
        KeyCode::Up => "up"@,
        KeyCode::Down => "down"@,
        KeyCode::Home => "home"@,
        KeyCode::End => "end"@,
        KeyCode::PageUp => "pageup"@,
        KeyCode::PageDown => "pagedown"@,
        KeyCode::Tab | KeyCode::BackTab => "tab"@,
        KeyCode::Delete => "delete"@,
        KeyCode::Insert => "insert"@,
        KeyCode::F(n) => "f"@ + crate::strings::decimal(n as int),
        KeyCode::Char(ch) => seq![ch],
        KeyCode::Null => Seq::empty(),
        KeyCode::Esc => "escape"@,
        KeyCode::CapsLock => "capslock"@,
        KeyCode::ScrollLock => "scrolllock"@,
        KeyCode::NumLock => "numlock"@,
        KeyCode::PrintScreen => "printscreen"@,
        KeyCode::Pause => "pause"@,
        KeyCode::Menu => "menu"@,
        KeyCode::KeypadBegin => "keypadbegin"@,
        KeyCode::Media(media) => media_name(media),
        KeyCode::Modifier(modifier) => modifier_name(modifier),
    }
}

fn media_key_name(code: MediaKeyCode) -> (name: String)
    ensures
        name@ == media_name(code),
{
    match code {
        MediaKeyCode::Play => "media(play)".to_owned(),
        MediaKeyCode::Pause => "media(pause)".to_owned(),
        MediaKeyCode::PlayPause => "media(playpause)".to_owned(),
        MediaKeyCode::Reverse => "media(reverse)".to_owned(),
        MediaKeyCode::Stop => "media(stop)".to_owned(),
        MediaKeyCode::FastForward => "media(fastforward)".to_owned(),
        MediaKeyCode::Rewind => "media(rewind)".to_owned(),
        MediaKeyCode::TrackNext => "media(tracknext)".to_owned(),
        MediaKeyCode::TrackPrevious => "media(trackprevious)".to_owned(),
        MediaKeyCode::Record => "media(record)".to_owned(),
        MediaKeyCode::LowerVolume => "media(lowervolume)".to_owned(),
        MediaKeyCode::RaiseVolume => "media(raisevolume)".to_owned(),
        MediaKeyCode::MuteVolume => "media(mutevolume)".to_owned(),
    }
}

fn modifier_key_name(code: ModifierKeyCode) -> (name: String)
    ensures
        name@ == modifier_name(code),
{
    match code {
        ModifierKeyCode::LeftShift => "modifier(leftshift)".to_owned(),
        ModifierKeyCode::LeftControl => "modifier(leftcontrol)".to_owned(),
        ModifierKeyCode::LeftAlt => "modifier(leftalt)".to_owned(),
        ModifierKeyCode::LeftSuper => "modifier(leftsuper)".to_owned(),
        ModifierKeyCode::LeftHyper => "modifier(lefthyper)".to_owned(),
        ModifierKeyCode::LeftMeta => "modifier(leftmeta)".to_owned(),
        ModifierKeyCode::RightShift => "modifier(rightshift)".to_owned(),
        ModifierKeyCode::RightControl => "modifier(rightcontrol)".to_owned(),
        ModifierKeyCode::RightAlt => "modifier(rightalt)".to_owned(),
        ModifierKeyCode::RightSuper => "modifier(rightsuper)".to_owned(),
        ModifierKeyCode::RightHyper => "modifier(righthyper)".to_owned(),
        ModifierKeyCode::RightMeta => "modifier(rightmeta)".to_owned(),
        ModifierKeyCode::IsoLevel3Shift => "modifier(isolevel3shift)".to_owned(),
        ModifierKeyCode::IsoLevel5Shift => "modifier(isolevel5shift)".to_owned(),
    }
}

/// The name of a key.
pub fn key_name(code: KeyCode) -> (name: String)
    ensures
        name@ == name_of_key(code),
{
    match code {
        KeyCode::Backspace => "backspace".to_owned(),
        KeyCode::Enter => "return".to_owned(),
        KeyCode::Left => "left".to_owned(),
        KeyCode::Right => "right".to_owned(),
        KeyCode::Up => "up".to_owned(),
        KeyCode::Down => "down".to_owned(),
        KeyCode::Home => "home".to_owned(),
        KeyCode::End => "end".to_owned(),
        KeyCode::PageUp => "pageup".to_owned(),
        KeyCode::PageDown => "pagedown".to_owned(),
        KeyCode::Tab | KeyCode::BackTab => "tab".to_owned(),
        KeyCode::Delete => "delete".to_owned(),
        KeyCode::Insert => "insert".to_owned(),
        KeyCode::F(n) => {
            let mut name = "f".to_owned();
            let number = decimal_text(n as usize);
            name.append(number.as_str());
            name
        },
        KeyCode::Char(ch) => {
            let mut name = String::new();
            name.push(ch);
            assert(name@ =~= seq![ch]);
            name
        },
        KeyCode::Null => {
            let name = String::new();
            assert(name@ =~= Seq::empty());
            name
        },
        KeyCode::Esc => "escape".to_owned(),
        KeyCode::CapsLock => "capslock".to_owned(),
        KeyCode::ScrollLock => "scrolllock".to_owned(),
        KeyCode::NumLock => "numlock".to_owned(),
        KeyCode::PrintScreen => "printscreen".to_owned(),
        KeyCode::Pause => "pause".to_owned(),
        KeyCode::Menu => "menu".to_owned(),
        KeyCode::KeypadBegin => "keypadbegin".to_owned(),
        KeyCode::Media(media) => media_key_name(media),
        KeyCode::Modifier(modifier) => modifier_key_name(modifier),
    }
}

/// Where an event is in its dispatch.
#[derive(Clone, Copy, Debug, PartialEq, Eq, Structural)]
pub struct EventRoute {
    /// The focus entry that received the event.
    pub target: Option<FocusId>,
    /// The focus entry of the view whose handler runs.
    pub current_target: Option<FocusId>,
    /// The view that received the event.
    pub target_view: Option<ViewId>,
    /// The view whose handler runs.
    pub current_target_view: Option<ViewId>,
    /// The phase in which the handler runs.
    pub phase: ViewEventPhase,
}

impl EventRoute {
    /// An event that nothing has received yet.
    pub open spec fn nowhere() -> EventRoute {
        EventRoute {
            target: None,
            current_target: None,
            target_view: None,
            current_target_view: None,
            phase: ViewEventPhase::AtTarget,
        }
    }

    /// An event that nothing has received yet.
    pub fn new() -> (r: Self)
        ensures
            r == EventRoute::nowhere(),
    {
        EventRoute {
            target: None,
            current_target: None,
            target_view: None,
            current_target_view: None,
            phase: ViewEventPhase::AtTarget,
        }
    }
}

/// A key that reached a focused view.
#[derive(Debug)]
pub struct ViewKeyboardEvent {
    /// The type of the event: `"keydown"`.
    pub event_type: String,
    /// Whether the event goes on to ancestors after its target.
    pub bubbles: bool,
    /// Whether the default action can be prevented.
    pub cancelable: bool,
    /// The key event of the terminal.
    pub raw: KeyEvent,
    /// The name of the key.
    pub key: String,
    /// The code of the key.
    pub code: KeyCode,
    /// The modifiers that were held.
    pub modifiers: KeyModifiers,
    /// Press or repeat.
    pub kind: KeyEventKind,
    /// Whether Control was held.
    pub ctrl: bool,
    /// Whether Alt was held.
    pub alt: bool,
    /// Another name of `alt`.
    pub meta: bool,
    /// Whether Shift was held.
    pub shift: bool,
    /// Whether Super was held.
    pub super_key: bool,
    /// Whether this is a function key.
    pub fn_key: bool,
    /// Where the event is in its dispatch.
    pub route: EventRoute,
    /// What handlers have asked.
    pub flags: EventFlags,
}

impl Clone for ViewKeyboardEvent {
    /// A copy for another handler; what is asked of it is taken over by
    /// [`ViewKeyboardEvent::absorb`].
    fn clone(&self) -> (r: Self)
        ensures
            r == *self,
    {
        ViewKeyboardEvent {
            event_type: self.event_type.clone(),
            bubbles: self.bubbles,
            cancelable: self.cancelable,
            raw: self.raw,
            key: self.key.clone(),
            code: self.code,
            modifiers: self.modifiers,
            kind: self.kind,
            ctrl: self.ctrl,
            alt: self.alt,
            meta: self.meta,
            shift: self.shift,
            super_key: self.super_key,
            fn_key: self.fn_key,
            route: self.route,
            flags: self.flags,
        }
    }
}

impl ViewKeyboardEvent {
    /// The event says what the key event of the terminal says.
    pub open spec fn reports(self, raw: KeyEvent) -> bool {
        &&& self.event_type@ == "keydown"@
        &&& self.bubbles
        &&& self.cancelable
        &&& self.raw == raw
        &&& self.key@ == name_of_key(raw.code)
        &&& self.code == raw.code
        &&& self.modifiers == raw.modifiers
        &&& self.kind == raw.kind
        &&& self.ctrl == raw.modifiers.control
        &&& self.alt == raw.modifiers.alt
        &&& self.meta == raw.modifiers.alt
        &&& self.shift == raw.modifiers.shift
        &&& self.super_key == raw.modifiers.super_key
        &&& self.fn_key == (raw.code is F)
    }

    /// A key event that no view has received yet.
    pub fn new(raw: &KeyEvent) -> (r: Self)
        ensures
            r.reports(*raw),
            r.route == EventRoute::nowhere(),
            r.flags == EventFlags::none(),
    {
        ViewKeyboardEvent {
            event_type: "keydown".to_owned(),
            bubbles: true,
            cancelable: true,
            raw: *raw,
            key: key_name(raw.code),
            code: raw.code,
            modifiers: raw.modifiers,
            kind: raw.kind,
            ctrl: raw.modifiers.control,
            alt: raw.modifiers.alt,
            meta: raw.modifiers.alt,
            shift: raw.modifiers.shift,
            super_key: raw.modifiers.super_key,
            fn_key: match raw.code {
                KeyCode::F(_) => true,
                _ => false,
            },
            route: EventRoute::new(),
            flags: EventFlags::new(),
        }
    }

    /// The event for one handler.
    pub fn for_dispatch(self, route: EventRoute) -> (r: Self)
        ensures
            r == (ViewKeyboardEvent { route, ..self }),
    {
        ViewKeyboardEvent { route, ..self }
    }

    /// Takes over what a handler asked of its copy of the event.
    pub fn absorb(&mut self, copy: &Self)
        ensures
            *final(self) == (ViewKeyboardEvent {
                flags: old(self).flags.merged(copy.flags),
                ..*old(self)
            }),
    {
        self.flags.merge(copy.flags);
    }

    /// Keeps the event from the handlers of ancestors.
    pub fn stop_propagation(&mut self)
        ensures
            *final(self) == (ViewKeyboardEvent {
                flags: EventFlags { stopped: true, ..old(self).flags },
                ..*old(self)
            }),
    {
        self.flags.stopped = true;
    }

    /// Keeps the event from all other handlers.
    pub fn stop_immediate_propagation(&mut self)
        ensures
            *final(self) == (ViewKeyboardEvent {
                flags: EventFlags { stopped: true, immediate_stopped: true, ..old(self).flags },
                ..*old(self)
            }),
    {
        self.flags.immediate_stopped = true;
        self.flags.stopped = true;
    }

    /// Whether all other handlers are kept from the event.
    pub fn did_stop_immediate_propagation(&self) -> (r: bool)
        ensures
            r == self.flags.immediate_stopped,
    {
        self.flags.immediate_stopped
    }

    /// Whether the handlers of ancestors are kept from the event.
    pub fn is_propagation_stopped(&self) -> (r: bool)
        ensures
            r == self.flags.stopped,
    {
        self.flags.stopped
    }

    /// Keeps the default action from being taken.
    pub fn prevent_default(&mut self)
        ensures
            *final(self) == (ViewKeyboardEvent {
                flags: EventFlags {
                    default_prevented: old(self).flags.default_prevented || old(self).cancelable,
                    ..old(self).flags
                },
                ..*old(self)
            }),
    {
        if self.cancelable {
            self.flags.default_prevented = true;
        }
    }

    /// Whether the default action is kept from being taken.
    pub fn default_prevented(&self) -> (r: bool)
        ensures
            r == self.flags.default_prevented,
    {
        self.flags.default_prevented
    }
}

/// A text that was pasted into a focused view.
#[derive(Debug)]
pub struct ViewPasteEvent {
    /// The type of the event: `"paste"`.
    pub event_type: String,
    /// Whether the event goes on to ancestors after its target.
    pub bubbles: bool,
    /// Whether the default action can be prevented.
    pub cancelable: bool,
    /// The text.
    pub text: String,
    /// Where the event is in its dispatch.
    pub route: EventRoute,
    /// What handlers have asked.
    pub flags: EventFlags,
}

impl Clone for ViewPasteEvent {
    /// A copy for another handler; what is asked of it is taken over by
    /// [`ViewPasteEvent::absorb`].
    fn clone(&self) -> (r: Self)
        ensures
            r == *self,
    {
        ViewPasteEvent {
            event_type: self.event_type.clone(),
            bubbles: self.bubbles,
            cancelable: self.cancelable,
            text: self.text.clone(),
            route: self.route,
            flags: self.flags,
        }
    }
}

impl ViewPasteEvent {
    /// A paste that no view has received yet.
    pub fn new(text: &str) -> (r: Self)
        ensures
            r.event_type@ == "paste"@,
            r.bubbles,
            r.cancelable,
            r.text@ == text@,
            r.route == EventRoute::nowhere(),
            r.flags == EventFlags::none(),
    {
        ViewPasteEvent {
            event_type: "paste".to_owned(),
            bubbles: true,
            cancelable: true,
            text: text.to_owned(),
            route: EventRoute::new(),
            flags: EventFlags::new(),
        }
    }

    /// The event for one handler.
    pub fn for_dispatch(self, route: EventRoute) -> (r: Self)
        ensures
            r == (ViewPasteEvent { route, ..self }),
    {
        ViewPasteEvent { route, ..self }
    }

    /// Takes over what a handler asked of its copy of the event.
    pub fn absorb(&mut self, copy: &Self)
        ensures
            *final(self) == (ViewPasteEvent {
                flags: old(self).flags.merged(copy.flags),
                ..*old(self)
            }),
    {
        self.flags.merge(copy.flags);
    }

    /// Keeps the event from the handlers of ancestors.
    pub fn stop_propagation(&mut self)
        ensures
            *final(self) == (ViewPasteEvent {
                flags: EventFlags { stopped: true, ..old(self).flags },
                ..*old(self)
            }),
    {
        self.flags.stopped = true;
    }

    /// Keeps the event from all other handlers.
    pub fn stop_immediate_propagation(&mut self)
        ensures
            *final(self) == (ViewPasteEvent {
                flags: EventFlags { stopped: true, immediate_stopped: true, ..old(self).flags },
                ..*old(self)
            }),
    {
        self.flags.immediate_stopped = true;
        self.flags.stopped = true;
    }

    /// Whether all other handlers are kept from the event.
    pub fn did_stop_immediate_propagation(&self) -> (r: bool)
        ensures
            r == self.flags.immediate_stopped,
    {
        self.flags.immediate_stopped
    }

    /// Whether the handlers of ancestors are kept from the event.
    pub fn is_propagation_stopped(&self) -> (r: bool)
        ensures
            r == self.flags.stopped,
    {
        self.flags.stopped
    }

    /// Keeps the default action from being taken.
    pub fn prevent_default(&mut self)
        ensures
            *final(self) == (ViewPasteEvent {
                flags: EventFlags {
                    default_prevented: old(self).flags.default_prevented || old(self).cancelable,
                    ..old(self).flags
                },
                ..*old(self)
            }),
    {
        if self.cancelable {
            self.flags.default_prevented = true;
        }
    }

    /// Whether the default action is kept from being taken.
    pub fn default_prevented(&self) -> (r: bool)
        ensures
            r == self.flags.default_prevented,
    {
        self.flags.default_prevented
    }
}

/// A new size of the terminal.
#[derive(Clone, Copy, Debug, PartialEq, Eq, Structural)]
pub struct ViewResizeEvent {
    /// The columns of the terminal.
    pub columns: u16,
    /// The rows of the terminal.
    pub rows: u16,
}

/// Whether a view got or lost the focus.
#[derive(Clone, Copy, Debug, PartialEq, Eq, Structural)]
pub enum ViewFocusEventKind {
    /// The view got the focus.
    Focus,
    /// The view lost the focus.
    Blur,
}

/// A view got or lost the focus. The event cannot be canceled.
#[derive(Debug)]
pub struct ViewFocusEvent {
    /// The type of the event: `"focus"` or `"blur"`.
    pub event_type: String,
    /// Whether the event goes on to ancestors after its target.
    pub bubbles: bool,
    /// Whether the default action can be prevented.
    pub cancelable: bool,
    /// Whether the view got or lost the focus.
    pub kind: ViewFocusEventKind,
    /// The entry that had the focus before, for a view that got it; the entry that
    /// has it now, for one that lost it.
    pub related_target: Option<FocusId>,
    /// Where the event is in its dispatch.
    pub route: EventRoute,
    /// What handlers have asked.
    pub flags: EventFlags,
}

impl Clone for ViewFocusEvent {
    /// A copy for another handler; what is asked of it is taken over by
    /// [`ViewFocusEvent::absorb`].
    fn clone(&self) -> (r: Self)
        ensures
            r == *self,
    {
        ViewFocusEvent {
            event_type: self.event_type.clone(),
            bubbles: self.bubbles,
            cancelable: self.cancelable,
            kind: self.kind,
            related_target: self.related_target,
            route: self.route,
            flags: self.flags,
        }
    }
}

impl ViewFocusEvent {
    /// The entry at the other end of the change.
    pub open spec fn related(
        kind: ViewFocusEventKind,
        change: Option<FocusChange>,
    ) -> Option<FocusId> {
        match change {
            Some(change) => match kind {
                ViewFocusEventKind::Focus => change.previous,
                ViewFocusEventKind::Blur => change.current,
            },
            None => None,
        }
    }

    /// The event for a view that got or lost the focus.
    pub fn from_change(
        kind: ViewFocusEventKind,
        target: FocusId,
        target_view: ViewId,
        change: Option<FocusChange>,
    ) -> (r: Self)
        ensures
            r.event_type@ == if kind == ViewFocusEventKind::Focus {
                "focus"@
            } else {
                "blur"@
            },
            r.bubbles,
            !r.cancelable,
            r.kind == kind,
            r.related_target == ViewFocusEvent::related(kind, change),
            r.route == (EventRoute {
                target: Some(target),
                target_view: Some(target_view),
                ..EventRoute::nowhere()
            }),
            r.flags == EventFlags::none(),
    {
        let related_target: Option<FocusId> = match change {
            Some(change) => match kind {
                ViewFocusEventKind::Focus => change.previous,
                ViewFocusEventKind::Blur => change.current,
            },
            None => None,
        };
        ViewFocusEvent {
            event_type: match kind {
                ViewFocusEventKind::Focus => "focus".to_owned(),
                ViewFocusEventKind::Blur => "blur".to_owned(),
            },
            bubbles: true,
            cancelable: false,
            kind,
            related_target,
            route: EventRoute {
                target: Some(target),
                current_target: None,
                target_view: Some(target_view),
                current_target_view: None,
                phase: ViewEventPhase::AtTarget,
            },
            flags: EventFlags::new(),
        }
    }

    /// The event for one handler.
    pub fn for_dispatch(
        self,
        phase: ViewEventPhase,
        current_target: Option<FocusId>,
        current_target_view: Option<ViewId>,
    ) -> (r: Self)
        ensures
            r == (ViewFocusEvent {
                route: EventRoute { phase, current_target, current_target_view, ..self.route },
                ..self
            }),
    {
        ViewFocusEvent {
            route: EventRoute { phase, current_target, current_target_view, ..self.route },
            ..self
        }
    }

    /// Takes over what a handler asked of its copy of the event.
    pub fn absorb(&mut self, copy: &Self)
        ensures
            *final(self) == (ViewFocusEvent {
                flags: old(self).flags.merged(copy.flags),
                ..*old(self)
            }),
    {
        self.flags.merge(copy.flags);
    }

    /// Keeps the event from the handlers of ancestors.
    pub fn stop_propagation(&mut self)
        ensures
            *final(self) == (ViewFocusEvent {
                flags: EventFlags { stopped: true, ..old(self).flags },
                ..*old(self)
            }),
    {
        self.flags.stopped = true;
    }

    /// Keeps the event from all other handlers.
    pub fn stop_immediate_propagation(&mut self)
        ensures
            *final(self) == (ViewFocusEvent {
                flags: EventFlags { stopped: true, immediate_stopped: true, ..old(self).flags },
                ..*old(self)
            }),
    {
        self.flags.immediate_stopped = true;
        self.flags.stopped = true;
    }

    /// Whether all other handlers are kept from the event.
    pub fn did_stop_immediate_propagation(&self) -> (r: bool)
        ensures
            r == self.flags.immediate_stopped,
    {
        self.flags.immediate_stopped
    }

    /// Whether the handlers of ancestors are kept from the event.
    pub fn is_propagation_stopped(&self) -> (r: bool)
        ensures
            r == self.flags.stopped,
    {
        self.flags.stopped
    }

    /// Asks that the default action is not taken; the event has none to prevent
    /// unless it is cancelable.
    pub fn prevent_default(&mut self)
        ensures
            *final(self) == (ViewFocusEvent {
                flags: EventFlags {
                    default_prevented: old(self).flags.default_prevented || old(self).cancelable,
                    ..old(self).flags
                },
                ..*old(self)
            }),
    {
        if self.cancelable {
            self.flags.default_prevented = true;
        }
    }

    /// Whether the default action is kept from being taken.
    pub fn default_prevented(&self) -> (r: bool)
        ensures
            r == self.flags.default_prevented,
    {
        self.flags.default_prevented
    }
}

/// The copies of one event share what is asked of it: what a handler asks of its copy is
/// what is asked of the event once the copy is taken over, and nothing else changes. To stop
/// the event is not to stop it immediately. The order in which copies are taken over does
/// not matter.
pub proof fn lemma_copies_share_what_is_asked(
    flags: EventFlags,
    first: EventFlags,
    second: EventFlags,
)
    ensures
        ({
            let stopped = EventFlags { stopped: true, ..flags };
            flags.merged(stopped) == stopped
        }),
        ({
            let stopped = EventFlags { stopped: true, immediate_stopped: true, ..flags };
            flags.merged(stopped) == stopped
        }),
        ({
            let prevented = EventFlags { default_prevented: true, ..flags };
            flags.merged(prevented) == prevented
        }),
        flags.merged(flags) == flags,
        flags.merged(first).merged(second) == flags.merged(second).merged(first),
{
}

/// The names of the keys that have one: what is printed on them, in lower case. Both ways to
/// press the tabulator key have the same name, a character is its own name, a function key is
/// named by its number, and no key at all has no name.
pub proof fn lemma_names_of_keys(code: KeyCode)
    ensures
        code == KeyCode::Backspace ==> name_of_key(code) == "backspace"@,
        code == KeyCode::Enter ==> name_of_key(code) == "return"@,
        code == KeyCode::Left ==> name_of_key(code) == "left"@,
        code == KeyCode::Right ==> name_of_key(code) == "right"@,
        code == KeyCode::Up ==> name_of_key(code) == "up"@,
        code == KeyCode::Down ==> name_of_key(code) == "down"@,
        code == KeyCode::Home ==> name_of_key(code) == "home"@,
        code == KeyCode::End ==> name_of_key(code) == "end"@,
        code == KeyCode::PageUp ==> name_of_key(code) == "pageup"@,
        code == KeyCode::PageDown ==> name_of_key(code) == "pagedown"@,
        code == KeyCode::BackTab ==> name_of_key(code) == "tab"@,
        code == KeyCode::Delete ==> name_of_key(code) == "delete"@,
        code == KeyCode::Insert ==> name_of_key(code) == "insert"@,
        code == KeyCode::Esc ==> name_of_key(code) == "escape"@,
        code == KeyCode::CapsLock ==> name_of_key(code) == "capslock"@,
        code == KeyCode::ScrollLock ==> name_of_key(code) == "scrolllock"@,
        code == KeyCode::NumLock ==> name_of_key(code) == "numlock"@,
        code == KeyCode::PrintScreen ==> name_of_key(code) == "printscreen"@,
        code == KeyCode::Pause ==> name_of_key(code) == "pause"@,
        code == KeyCode::Menu ==> name_of_key(code) == "menu"@,
        code == KeyCode::KeypadBegin ==> name_of_key(code) == "keypadbegin"@,
        code == KeyCode::Tab || code == KeyCode::BackTab ==> name_of_key(code) == "tab"@,
        code matches KeyCode::Char(ch) ==> name_of_key(code).len() == 1 && name_of_key(code)[0]
            == ch,
        code matches KeyCode::F(n) ==> name_of_key(code) == "f"@ + crate::strings::decimal(
            n as int,
        ),
        code == KeyCode::Null ==> name_of_key(code).len() == 0,
{
}

/// The names of the media keys.
pub proof fn lemma_names_of_media_keys(code: MediaKeyCode)
    ensures
        code == MediaKeyCode::Play ==> name_of_key(KeyCode::Media(code)) == "media(play)"@,
        code == MediaKeyCode::Pause ==> name_of_key(KeyCode::Media(code)) == "media(pause)"@,
        code == MediaKeyCode::PlayPause ==> name_of_key(KeyCode::Media(code)) == "media(playpause)"@,
        code == MediaKeyCode::Reverse ==> name_of_key(KeyCode::Media(code)) == "media(reverse)"@,
        code == MediaKeyCode::Stop ==> name_of_key(KeyCode::Media(code)) == "media(stop)"@,
        code == MediaKeyCode::FastForward ==> name_of_key(KeyCode::Media(code)) == "media(fastforward)"@,
        code == MediaKeyCode::Rewind ==> name_of_key(KeyCode::Media(code)) == "media(rewind)"@,
        code == MediaKeyCode::TrackNext ==> name_of_key(KeyCode::Media(code)) == "media(tracknext)"@,
        code == MediaKeyCode::TrackPrevious ==> name_of_key(KeyCode::Media(code)) == "media(trackprevious)"@,
        code == MediaKeyCode::Record ==> name_of_key(KeyCode::Media(code)) == "media(record)"@,
        code == MediaKeyCode::LowerVolume ==> name_of_key(KeyCode::Media(code)) == "media(lowervolume)"@,
        code == MediaKeyCode::RaiseVolume ==> name_of_key(KeyCode::Media(code)) == "media(raisevolume)"@,
        code == MediaKeyCode::MuteVolume ==> name_of_key(KeyCode::Media(code)) == "media(mutevolume)"@,
{
}

/// The names of the modifier keys.
pub proof fn lemma_names_of_modifier_keys(code: ModifierKeyCode)
    ensures
        code == ModifierKeyCode::LeftShift ==> name_of_key(KeyCode::Modifier(code)) == "modifier(leftshift)"@,
        code == ModifierKeyCode::LeftControl ==> name_of_key(KeyCode::Modifier(code)) == "modifier(leftcontrol)"@,
        code == ModifierKeyCode::LeftAlt ==> name_of_key(KeyCode::Modifier(code)) == "modifier(leftalt)"@,
        code == ModifierKeyCode::LeftSuper ==> name_of_key(KeyCode::Modifier(code)) == "modifier(leftsuper)"@,
        code == ModifierKeyCode::LeftHyper ==> name_of_key(KeyCode::Modifier(code)) == "modifier(lefthyper)"@,
        code == ModifierKeyCode::LeftMeta ==> name_of_key(KeyCode::Modifier(code)) == "modifier(leftmeta)"@,
        code == ModifierKeyCode::RightShift ==> name_of_key(KeyCode::Modifier(code)) == "modifier(rightshift)"@,
        code == ModifierKeyCode::RightControl ==> name_of_key(KeyCode::Modifier(code)) == "modifier(rightcontrol)"@,
        code == ModifierKeyCode::RightAlt ==> name_of_key(KeyCode::Modifier(code)) == "modifier(rightalt)"@,
        code == ModifierKeyCode::RightSuper ==> name_of_key(KeyCode::Modifier(code)) == "modifier(rightsuper)"@,
        code == ModifierKeyCode::RightHyper ==> name_of_key(KeyCode::Modifier(code)) == "modifier(righthyper)"@,
        code == ModifierKeyCode::RightMeta ==> name_of_key(KeyCode::Modifier(code)) == "modifier(rightmeta)"@,
        code == ModifierKeyCode::IsoLevel3Shift ==> name_of_key(KeyCode::Modifier(code)) == "modifier(isolevel3shift)"@,
        code == ModifierKeyCode::IsoLevel5Shift ==> name_of_key(KeyCode::Modifier(code)) == "modifier(isolevel5shift)"@,
{
}

/// What a handler learns of a key is what the terminal said of it: its name, the key itself and
/// each modifier. Meta stands for Alt.
pub proof fn lemma_keyboard_event_reports(event: ViewKeyboardEvent, raw: KeyEvent)
    requires
        event.reports(raw),
    ensures
        event.key@ == name_of_key(raw.code),
        event.code == raw.code && event.kind == raw.kind && event.raw == raw,
        event.ctrl == raw.modifiers.control,
        event.shift == raw.modifiers.shift,
        event.alt == raw.modifiers.alt && event.meta == raw.modifiers.alt,
        event.super_key == raw.modifiers.super_key,
        event.modifiers == raw.modifiers,
        event.fn_key == exists|n: u8| raw.code == KeyCode::F(n),
        event.bubbles && event.cancelable,
        event.event_type@ == "keydown"@,
{
    if let KeyCode::F(n) = raw.code {
        assert(raw.code == KeyCode::F(n));
    }
}

/// A view that gets the focus learns which entry had it before, and one that loses it which
/// entry has it now.
pub proof fn lemma_focus_event_names_the_other_end(change: FocusChange)
    ensures
        ViewFocusEvent::related(ViewFocusEventKind::Focus, Some(change)) == change.previous,
        ViewFocusEvent::related(ViewFocusEventKind::Blur, Some(change)) == change.current,
        ViewFocusEvent::related(ViewFocusEventKind::Focus, None) is None,
        ViewFocusEvent::related(ViewFocusEventKind::Blur, None) is None,
{
}

} // verus!
