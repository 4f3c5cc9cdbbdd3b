//! Terminal input events as plain values.

use vstd::prelude::*;

verus! {

/// A media key.
#[derive(Clone, Copy, Debug, PartialEq, Eq, Structural)]
pub enum MediaKeyCode {
    Play,
    Pause,
    PlayPause,
    Reverse,
    Stop,
    FastForward,
    Rewind,
    TrackNext,
    TrackPrevious,
    Record,
    LowerVolume,
    RaiseVolume,
    MuteVolume,
}

/// A modifier key pressed on its own.
#[derive(Clone, Copy, Debug, PartialEq, Eq, Structural)]
pub enum ModifierKeyCode {
    LeftShift,
    LeftControl,
    LeftAlt,
    LeftSuper,
    LeftHyper,
    LeftMeta,
    RightShift,
    RightControl,
    RightAlt,
    RightSuper,
    RightHyper,
    RightMeta,
    IsoLevel3Shift,
    IsoLevel5Shift,
}

/// A key.
#[derive(Clone, Copy, Debug, PartialEq, Eq, Structural)]
pub enum KeyCode {
    Backspace,
    Enter,
    Left,
    Right,
    Up,
    Down,
    Home,
    End,
    PageUp,
    PageDown,
    Tab,
    BackTab,
    Delete,
    Insert,
    F(u8),
    Char(char),
    Null,
    Esc,
    CapsLock,
    ScrollLock,
    NumLock,
    PrintScreen,
    Pause,
    Menu,
    KeypadBegin,
    Media(MediaKeyCode),
    Modifier(ModifierKeyCode),
}

/// Whether a key was pressed, repeated or released.
#[derive(Clone, Copy, Debug, PartialEq, Eq, Structural)]
pub enum KeyEventKind {
    Press,
    Repeat,
    Release,
}

/// The modifier keys that were held.
#[derive(Clone, Copy, Debug, PartialEq, Eq, Structural)]
pub struct KeyModifiers {
    pub shift: bool,
    pub control: bool,
    pub alt: bool,
    pub super_key: bool,
    pub hyper: bool,
    pub meta: bool,
}

impl KeyModifiers {
    /// No modifier key.
    pub fn empty() -> (r: Self)
        ensures
            !r.shift && !r.control && !r.alt && !r.super_key && !r.hyper && !r.meta,
    {
        KeyModifiers {
            shift: false,
            control: false,
            alt: false,
            super_key: false,
            hyper: false,
            meta: false,
        }
    }
}

/// A key event.
#[derive(Clone, Copy, Debug, PartialEq, Eq, Structural)]
pub struct KeyEvent {
    pub code: KeyCode,
    pub modifiers: KeyModifiers,
    pub kind: KeyEventKind,
}

impl KeyEvent {
    /// A key event without modifiers.
    pub fn new(kind: KeyEventKind, code: KeyCode) -> (r: Self)
        ensures
            r.kind == kind,
            r.code == code,
            !r.modifiers.shift && !r.modifiers.control && !r.modifiers.alt,
            !r.modifiers.super_key && !r.modifiers.hyper && !r.modifiers.meta,
    {
        KeyEvent { code, modifiers: KeyModifiers::empty(), kind }
    }
}

/// A mouse button.
#[derive(Clone, Copy, Debug, PartialEq, Eq, Structural)]
pub enum MouseButton {
    Left,
    Right,
    Middle,
}

/// What the mouse did.
#[derive(Clone, Copy, Debug, PartialEq, Eq, Structural)]
pub enum MouseEventKind {
    Down(MouseButton),
    Up(MouseButton),
    Drag(MouseButton),
    Moved,
    ScrollDown,
    ScrollUp,
    ScrollLeft,
    ScrollRight,
}

/// A mouse event of a fullscreen application.
#[derive(Clone, Copy, Debug, PartialEq, Eq, Structural)]
pub struct FullscreenMouseEvent {
    pub modifiers: KeyModifiers,
    pub column: u16,
    pub row: u16,
    pub kind: MouseEventKind,
    /// Whether the cell under the pointer was blank.
    pub cell_is_blank: bool,
}

impl FullscreenMouseEvent {
    /// A mouse event without modifiers, over a cell that is not blank.
    pub fn new(kind: MouseEventKind, column: u16, row: u16) -> (r: Self)
        ensures
            r.kind == kind,
            r.column == column,
            r.row == row,
            !r.cell_is_blank,
            !r.modifiers.shift && !r.modifiers.control && !r.modifiers.alt,
            !r.modifiers.super_key && !r.modifiers.hyper && !r.modifiers.meta,
    {
        FullscreenMouseEvent {
            modifiers: KeyModifiers::empty(),
            column,
            row,
            kind,
            cell_is_blank: false,
        }
    }
}

/// An event read from the terminal.
#[derive(Clone, Debug, PartialEq, Eq)]
pub enum TerminalEvent {
    /// A key was pressed, repeated or released.
    Key(KeyEvent),
    /// The mouse did something while the application is fullscreen.
    FullscreenMouse(FullscreenMouseEvent),
    /// The terminal now has this many columns and rows.
    Resize(u16, u16),
    /// Text was pasted.
    Paste(String),
}

/// A rectangle of screen cells: `left..right` by `top..bottom`.
#[derive(Clone, Copy, Debug, PartialEq, Eq, Structural)]
pub struct Rect {
    pub left: i32,
    pub right: i32,
    pub top: i32,
    pub bottom: i32,
}

impl Rect {
    /// Whether the cell lies in the rectangle.
    pub open spec fn has_cell(self, column: int, row: int) -> bool {
        self.left <= column < self.right && self.top <= row < self.bottom
    }

    /// Whether the cell lies in the rectangle.
    pub fn contains(&self, column: u16, row: u16) -> (r: bool)
        ensures
            r == self.has_cell(column as int, row as int),
    {
        let column: i32 = column as i32;
        let row: i32 = row as i32;
        column >= self.left && column < self.right && row >= self.top && row < self.bottom
    }
}

} // verus!
