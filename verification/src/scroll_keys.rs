//! Scroll distances of keys.

use crate::event::{KeyCode, KeyEvent};
use crate::math::max_i32;
use vstd::prelude::*;

verus! {

/// What a pager key asks for.
#[derive(Clone, Copy, Debug, PartialEq, Eq, Structural)]
pub enum ModalPagerAction {
    LineUp,
    LineDown,
    HalfPageUp,
    HalfPageDown,
    FullPageUp,
    FullPageDown,
    Top,
    Bottom,
}

/// What a plain navigation key asks for in a pager.
pub open spec fn navigation_action(code: KeyCode) -> Option<ModalPagerAction> {
    match code {
        KeyCode::Up => Some(ModalPagerAction::LineUp),
        KeyCode::Down => Some(ModalPagerAction::LineDown),
        KeyCode::Home => Some(ModalPagerAction::Top),
        KeyCode::End => Some(ModalPagerAction::Bottom),
        _ => None,
    }
}

/// What a character held with Control asks for; case does not matter.
pub open spec fn control_action(code: KeyCode) -> Option<ModalPagerAction> {
    match code {
        KeyCode::Char(c) => if c == 'u' || c == 'U' {
            Some(ModalPagerAction::HalfPageUp)
        } else if c == 'd' || c == 'D' {
            Some(ModalPagerAction::HalfPageDown)
        } else if c == 'b' || c == 'B' {
            Some(ModalPagerAction::FullPageUp)
        } else if c == 'f' || c == 'F' {
            Some(ModalPagerAction::FullPageDown)
        } else if c == 'n' || c == 'N' {
            Some(ModalPagerAction::LineDown)
        } else if c == 'p' || c == 'P' {
            Some(ModalPagerAction::LineUp)
        } else {
            None
        },
        _ => None,
    }
}

/// What a character held without Control asks for.
pub open spec fn letter_action(code: KeyCode, shift: bool) -> Option<ModalPagerAction> {
    match code {
        KeyCode::Char(c) => if c == 'G' || (c == 'g' && shift) {
            Some(ModalPagerAction::Bottom)
        } else if shift {
            None
        } else if c == 'g' {
            Some(ModalPagerAction::Top)
        } else if c == 'j' {
            Some(ModalPagerAction::LineDown)
        } else if c == 'k' {
            Some(ModalPagerAction::LineUp)
        } else if c == ' ' {
            Some(ModalPagerAction::FullPageDown)
        } else if c == 'b' {
            Some(ModalPagerAction::FullPageUp)
        } else {
            None
        },
        _ => None,
    }
}

/// What a key asks for in a pager. Alt and Meta combinations are left alone, and
/// so are Control combinations that also hold Shift.
pub open spec fn pager_action(event: KeyEvent) -> Option<ModalPagerAction> {
    let held = event.modifiers;
    if held.alt || held.meta {
        None
    } else if held.control {
        if held.shift {
            None
        } else {
            control_action(event.code)
        }
    } else if !held.shift && navigation_action(event.code) is Some {
        navigation_action(event.code)
    } else {
        letter_action(event.code, held.shift)
    }
}

/// The rows that a pager action moves by.
pub open spec fn action_delta(action: ModalPagerAction, viewport_height: int) -> int {
    let half: int = crate::math::max_int(viewport_height / 2, 1);
    let full: int = crate::math::max_int(viewport_height, 1);
    match action {
        ModalPagerAction::LineUp => -1,
        ModalPagerAction::LineDown => 1,
        ModalPagerAction::HalfPageUp => -half,
        ModalPagerAction::HalfPageDown => half,
        ModalPagerAction::FullPageUp => -full,
        ModalPagerAction::FullPageDown => full,
        ModalPagerAction::Top => -SCROLL_TO_END_ROWS,
        ModalPagerAction::Bottom => SCROLL_TO_END_ROWS - 1,
    }
}

/// A distance beyond every content height: half of the `i32` range.
pub const SCROLL_TO_END_ROWS: i32 = 0x4000_0000;

/// The rows that a default scroll key moves by.
pub open spec fn default_key_delta(code: KeyCode, viewport_height: int) -> Option<int> {
    let page: int = crate::math::max_int(viewport_height, 1);
    match code {
        KeyCode::Up => Some(-1int),
        KeyCode::Down => Some(1int),
        KeyCode::PageUp => Some(-page),
        KeyCode::PageDown => Some(page),
        KeyCode::Home => Some(-SCROLL_TO_END_ROWS as int),
        KeyCode::End => Some(SCROLL_TO_END_ROWS - 1),
        _ => None,
    }
}

/// The rows that a key moves by: pager keys first, where they are enabled.
pub open spec fn key_delta(event: KeyEvent, viewport_height: int, pager_keys: bool) -> Option<int> {
    if pager_keys && pager_action(event) is Some {
        Some(action_delta(pager_action(event)->0, viewport_height))
    } else {
        default_key_delta(event.code, viewport_height)
    }
}

/// The scroll distance of a key, or `None` for a key that does not scroll.
pub fn scroll_key_delta(event: &KeyEvent, viewport_height: u16, modal_pager_keys: bool) -> (delta:
    Option<i32>)
    ensures
        match delta {
            Some(rows) => key_delta(*event, viewport_height as int, modal_pager_keys) == Some(
                rows as int,
            ),
            None => key_delta(*event, viewport_height as int, modal_pager_keys) is None,
        },
{
    let half: i32 = max_i32(viewport_height as i32 / 2, 1);
    let full: i32 = max_i32(viewport_height as i32, 1);
    if modal_pager_keys {
        if let Some(action) = modal_pager_action(event) {
            return Some(
                match action {
                    ModalPagerAction::LineUp => -1,
                    ModalPagerAction::LineDown => 1,
                    ModalPagerAction::HalfPageUp => -half,
                    ModalPagerAction::HalfPageDown => half,
                    ModalPagerAction::FullPageUp => -full,
                    ModalPagerAction::FullPageDown => full,
                    ModalPagerAction::Top => -SCROLL_TO_END_ROWS,
                    ModalPagerAction::Bottom => SCROLL_TO_END_ROWS - 1,
                },
            );
        }
    }
    match event.code {
        KeyCode::Up => Some(-1),
        KeyCode::Down => Some(1),
        KeyCode::PageUp => Some(-full),
        KeyCode::PageDown => Some(full),
        KeyCode::Home => Some(-SCROLL_TO_END_ROWS),
        KeyCode::End => Some(SCROLL_TO_END_ROWS - 1),
        _ => None,
    }
}

/// What a key asks for in a pager, or `None` for a key that is left alone.
pub fn modal_pager_action(event: &KeyEvent) -> (action: Option<ModalPagerAction>)
    ensures
        action == pager_action(*event),
{
    if event.modifiers.alt || event.modifiers.meta {
        return None;
    }
    let ctrl = event.modifiers.control;
    let shift = event.modifiers.shift;
    if !ctrl && !shift {
        match event.code {
            KeyCode::Up => {
                return Some(ModalPagerAction::LineUp);
            },
            KeyCode::Down => {
                return Some(ModalPagerAction::LineDown);
            },
            KeyCode::Home => {
                return Some(ModalPagerAction::Top);
            },
            KeyCode::End => {
                return Some(ModalPagerAction::Bottom);
            },
            _ => {},
        }
    }
    if ctrl {
        if shift {
            return None;
        }
        return match event.code {
            KeyCode::Char('u') | KeyCode::Char('U') => Some(ModalPagerAction::HalfPageUp),
            KeyCode::Char('d') | KeyCode::Char('D') => Some(ModalPagerAction::HalfPageDown),
            KeyCode::Char('b') | KeyCode::Char('B') => Some(ModalPagerAction::FullPageUp),
            KeyCode::Char('f') | KeyCode::Char('F') => Some(ModalPagerAction::FullPageDown),
            KeyCode::Char('n') | KeyCode::Char('N') => Some(ModalPagerAction::LineDown),
            KeyCode::Char('p') | KeyCode::Char('P') => Some(ModalPagerAction::LineUp),
            _ => None,
        };
    }
    match event.code {
        KeyCode::Char('G') => Some(ModalPagerAction::Bottom),
        KeyCode::Char('g') if shift => Some(ModalPagerAction::Bottom),
        KeyCode::Char(_) if shift => None,
        KeyCode::Char('g') => Some(ModalPagerAction::Top),
        KeyCode::Char('j') => Some(ModalPagerAction::LineDown),
        KeyCode::Char('k') => Some(ModalPagerAction::LineUp),
        KeyCode::Char(' ') => Some(ModalPagerAction::FullPageDown),
        KeyCode::Char('b') => Some(ModalPagerAction::FullPageUp),
        _ => None,
    }
}

/// Without pager keys no printable character scrolls, whatever is held with it.
pub proof fn lemma_characters_scroll_only_in_pager(
    event: KeyEvent,
    c: char,
    viewport_height: u16,
)
    requires
        event.code == KeyCode::Char(c),
    ensures
        key_delta(event, viewport_height as int, false) is None,
{
}

/// Every key that names a way to move scrolls that way, whatever is held with it and
/// whether the view is a pager: an arrow by one row, a page key by the rows of the viewport,
/// and by one row where it has none, and Home and End by more rows than a content can have.
pub proof fn lemma_named_keys_scroll_their_way(event: KeyEvent, viewport_height: u16, pager: bool)
    ensures
        ({
            let delta = key_delta(event, viewport_height as int, pager);
            let rows = delta->0;
            let page: int = if viewport_height == 0 {
                1
            } else {
                viewport_height as int
            };
            &&& event.code == KeyCode::Up ==> delta is Some && rows == -1
            &&& event.code == KeyCode::Down ==> delta is Some && rows == 1
            &&& event.code == KeyCode::PageUp ==> delta is Some && rows + page == 0
            &&& event.code == KeyCode::PageDown ==> delta is Some && rows == page
            &&& event.code == KeyCode::Home ==> delta is Some && 2 * rows == i32::MIN
            &&& event.code == KeyCode::End ==> delta is Some && 2 * rows + 1 == i32::MAX
        }),
{
}

/// In a pager, letters without modifiers scroll: `j` and `k` by a row, the space and `b` by
/// a page, `g` to the top and `G` to the bottom, where Shift does not matter for `G` and
/// turns `g` into it. No other letter scrolls, and none does with Shift alone but these.
pub proof fn lemma_pager_letters(event: KeyEvent, c: char, viewport_height: u16)
    requires
        event.code == KeyCode::Char(c),
        !event.modifiers.control,
        !event.modifiers.alt,
        !event.modifiers.meta,
    ensures
        ({
            let delta = key_delta(event, viewport_height as int, true);
            let rows = delta->0;
            let page: int = if viewport_height == 0 {
                1
            } else {
                viewport_height as int
            };
            let shift = event.modifiers.shift;
            &&& c == 'G' || (c == 'g' && shift) ==> delta is Some && 2 * rows + 1 == i32::MAX
            &&& c == 'g' && !shift ==> delta is Some && 2 * rows == i32::MIN
            &&& c == 'j' && !shift ==> delta is Some && rows == 1
            &&& c == 'k' && !shift ==> delta is Some && rows == -1
            &&& c == ' ' && !shift ==> delta is Some && rows == page
            &&& c == 'b' && !shift ==> delta is Some && rows + page == 0
            &&& shift && c != 'g' && c != 'G' ==> delta is None
            &&& c != 'g' && c != 'G' && c != 'j' && c != 'k' && c != ' ' && c != 'b'
                ==> delta is None
        }),
{
}

/// In a pager, Control scrolls with a letter of either case: `n` and `p` by a row, `d` and
/// `u` by half a page, `f` and `b` by a page. No other letter scrolls with Control, and none
/// with Control and Shift.
pub proof fn lemma_pager_control_letters(event: KeyEvent, c: char, viewport_height: u16)
    requires
        event.code == KeyCode::Char(c),
        event.modifiers.control,
        !event.modifiers.alt,
        !event.modifiers.meta,
    ensures
        ({
            let delta = key_delta(event, viewport_height as int, true);
            let rows = delta->0;
            let page: int = if viewport_height == 0 {
                1
            } else {
                viewport_height as int
            };
            let alone = !event.modifiers.shift;
            &&& alone && (c == 'n' || c == 'N') ==> delta is Some && rows == 1
            &&& alone && (c == 'p' || c == 'P') ==> delta is Some && rows == -1
            &&& alone && (c == 'd' || c == 'D') ==> delta is Some && rows >= 1 && (rows == 1
                || 2 * rows == page || 2 * rows + 1 == page) && (page >= 4 ==> rows > 1)
            &&& alone && (c == 'u' || c == 'U') ==> delta is Some && rows <= -1 && (rows == -1
                || -2 * rows == page || -2 * rows + 1 == page) && (page >= 4 ==> rows < -1)
            &&& alone && (c == 'f' || c == 'F') ==> delta is Some && rows == page
            &&& alone && (c == 'b' || c == 'B') ==> delta is Some && rows + page == 0
            &&& !alone ==> delta is None
            &&& !(seq!['n', 'N', 'p', 'P', 'd', 'D', 'u', 'U', 'f', 'F', 'b', 'B'].contains(c))
                ==> delta is None
        }),
{
    let letters = seq!['n', 'N', 'p', 'P', 'd', 'D', 'u', 'U', 'f', 'F', 'b', 'B'];
    if !letters.contains(c) {
        assert(letters[0] == 'n' && letters[1] == 'N' && letters[2] == 'p' && letters[3] == 'P');
        assert(letters[4] == 'd' && letters[5] == 'D' && letters[6] == 'u' && letters[7] == 'U');
        assert(letters[8] == 'f' && letters[9] == 'F' && letters[10] == 'b' && letters[11] == 'B');
    }
}

/// Nothing but the arrows, the page keys, Home and End scrolls outside of a pager, and
/// besides them only letters without Alt and Meta do in one.
pub proof fn lemma_other_keys_do_not_scroll(event: KeyEvent, viewport_height: u16, pager: bool)
    requires
        event.code != KeyCode::Up,
        event.code != KeyCode::Down,
        event.code != KeyCode::PageUp,
        event.code != KeyCode::PageDown,
        event.code != KeyCode::Home,
        event.code != KeyCode::End,
    ensures
        !pager || event.modifiers.alt || event.modifiers.meta || !(event.code is Char)
            ==> key_delta(event, viewport_height as int, pager) is None,
{
}

/// Keys that undo each other scroll by opposite distances: Up and Down, PageUp and PageDown,
/// and in a pager `k` and `j`, `b` and the space, and with Control `p` and `n`, `u` and `d`,
/// `b` and `f`.
pub proof fn lemma_opposite_keys(up: KeyEvent, down: KeyEvent, viewport_height: u16, pager: bool)
    requires
        up.modifiers == down.modifiers,
        !up.modifiers.shift && !up.modifiers.alt && !up.modifiers.meta,
        ({
            ||| up.code == KeyCode::Up && down.code == KeyCode::Down
            ||| up.code == KeyCode::PageUp && down.code == KeyCode::PageDown
            ||| pager && !up.modifiers.control && up.code == KeyCode::Char('k') && down.code
                == KeyCode::Char('j')
            ||| pager && !up.modifiers.control && up.code == KeyCode::Char('b') && down.code
                == KeyCode::Char(' ')
            ||| pager && up.modifiers.control && up.code == KeyCode::Char('p') && down.code
                == KeyCode::Char('n')
            ||| pager && up.modifiers.control && up.code == KeyCode::Char('u') && down.code
                == KeyCode::Char('d')
            ||| pager && up.modifiers.control && up.code == KeyCode::Char('b') && down.code
                == KeyCode::Char('f')
        }),
    ensures
        ({
            let above = key_delta(up, viewport_height as int, pager);
            let below = key_delta(down, viewport_height as int, pager);
            &&& above is Some && below is Some
            &&& above->0 + below->0 == 0
            &&& below->0 >= 1
        }),
{
}

} // verus!
