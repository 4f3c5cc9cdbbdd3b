//! Scroll views with other defaults.

use crate::element::{AnyElement, ElementNode};
use crate::scroll_drain::ScrollDrainMode;
use crate::scroll_view::ScrollViewProps;
use crate::style::Color;
use vstd::prelude::*;

verus! {

/// The props of [`ScrollBox`].
#[derive(Debug)]
pub struct ScrollBoxProps {
    /// The elements inside of the scroll box.
    pub children: Vec<AnyElement>,
    /// A handle for imperative control, named by a number.
    pub handle: Option<u64>,
    /// Whether the box follows the bottom as the content grows.
    pub sticky_scroll: bool,
    /// The rows that the wheel scrolls.
    pub scroll_step: Option<u16>,
    /// Whether quick turns of the wheel scroll faster.
    pub wheel_acceleration: Option<bool>,
    /// Whether, and how, the wheel is drained over frames.
    pub scroll_drain_mode: Option<ScrollDrainMode>,
    /// Whether keys scroll.
    pub keyboard_scroll: Option<bool>,
    /// Whether the keys of a pager scroll too.
    pub modal_pager_keys: Option<bool>,
    /// The text selection that scrolls with the content, named by a number.
    pub selection: Option<u64>,
    /// Whether a scrollbar is shown; it is not by default.
    pub scrollbar: Option<bool>,
    /// The color of the thumb of the scrollbar.
    pub scrollbar_thumb_color: Option<Color>,
    /// The color of the track of the scrollbar.
    pub scrollbar_track_color: Option<Color>,
}

/// The props of [`FastScrollBox`]: those of a scroll box.
#[derive(Debug)]
pub struct FastScrollBoxProps {
    /// The elements inside of the scroll box.
    pub children: Vec<AnyElement>,
    /// A handle for imperative control, named by a number.
    pub handle: Option<u64>,
    /// Whether the box follows the bottom as the content grows.
    pub sticky_scroll: bool,
    /// The rows that the wheel scrolls.
    pub scroll_step: Option<u16>,
    /// Whether quick turns of the wheel scroll faster; they do by default.
    pub wheel_acceleration: Option<bool>,
    /// How the wheel is drained over frames; as the terminal likes it by default.
    pub scroll_drain_mode: Option<ScrollDrainMode>,
    /// Whether keys scroll.
    pub keyboard_scroll: Option<bool>,
    /// Whether the keys of a pager scroll too.
    pub modal_pager_keys: Option<bool>,
    /// The text selection that scrolls with the content, named by a number.
    pub selection: Option<u64>,
    /// Whether a scrollbar is shown; it is not by default.
    pub scrollbar: Option<bool>,
    /// The color of the thumb of the scrollbar.
    pub scrollbar_thumb_color: Option<Color>,
    /// The color of the track of the scrollbar.
    pub scrollbar_track_color: Option<Color>,
}

impl Default for ScrollBoxProps {
    fn default() -> (r: Self)
        ensures
            r.children@.len() == 0,
            r == (ScrollBoxProps {
                children: r.children,
                handle: None,
                sticky_scroll: false,
                scroll_step: None,
                wheel_acceleration: None,
                scroll_drain_mode: None,
                keyboard_scroll: None,
                modal_pager_keys: None,
                selection: None,
                scrollbar: None,
                scrollbar_thumb_color: None,
                scrollbar_track_color: None,
            }),
    {
        ScrollBoxProps {
            children: Vec::new(),
            handle: None,
            sticky_scroll: false,
            scroll_step: None,
            wheel_acceleration: None,
            scroll_drain_mode: None,
            keyboard_scroll: None,
            modal_pager_keys: None,
            selection: None,
            scrollbar: None,
            scrollbar_thumb_color: None,
            scrollbar_track_color: None,
        }
    }
}

impl Default for FastScrollBoxProps {
    fn default() -> (r: Self)
        ensures
            r.children@.len() == 0,
            r == (FastScrollBoxProps {
                children: r.children,
                handle: None,
                sticky_scroll: false,
                scroll_step: None,
                wheel_acceleration: None,
                scroll_drain_mode: None,
                keyboard_scroll: None,
                modal_pager_keys: None,
                selection: None,
                scrollbar: None,
                scrollbar_thumb_color: None,
                scrollbar_track_color: None,
            }),
    {
        FastScrollBoxProps {
            children: Vec::new(),
            handle: None,
            sticky_scroll: false,
            scroll_step: None,
            wheel_acceleration: None,
            scroll_drain_mode: None,
            keyboard_scroll: None,
            modal_pager_keys: None,
            selection: None,
            scrollbar: None,
            scrollbar_thumb_color: None,
            scrollbar_track_color: None,
        }
    }
}

/// Renders a scroll view without a scrollbar, unless one is asked for.
#[allow(non_snake_case)]
pub fn ScrollBox(props: ScrollBoxProps) -> (element: AnyElement)
    ensures
        element.key.value == 0,
        element.node == ElementNode::ScrollView(
            (ScrollViewProps {
                children: props.children,
                auto_scroll: props.sticky_scroll,
                scroll_step: props.scroll_step,
                wheel_acceleration: props.wheel_acceleration,
                handle: props.handle,
                scrollbar: Some(props.scrollbar == Some(true)),
                scrollbar_thumb_color: props.scrollbar_thumb_color,
                scrollbar_track_color: props.scrollbar_track_color,
                keyboard_scroll: props.keyboard_scroll,
                modal_pager_keys: props.modal_pager_keys,
                selection: props.selection,
                scroll_drain_mode: props.scroll_drain_mode,
            }),
        ),
        ({
            let view = element.node->ScrollView_0;
            &&& view.auto_scroll == props.sticky_scroll && view.children == props.children
            &&& props.scrollbar is None ==> view.scrollbar == Some(false)
            &&& props.scrollbar is Some ==> view.scrollbar == props.scrollbar
        }),
{
    let scrollbar: bool = match props.scrollbar {
        Some(scrollbar) => scrollbar,
        None => false,
    };
    AnyElement::at(
        0,
        ElementNode::ScrollView(
            ScrollViewProps {
                children: props.children,
                auto_scroll: props.sticky_scroll,
                scroll_step: props.scroll_step,
                wheel_acceleration: props.wheel_acceleration,
                handle: props.handle,
                scrollbar: Some(scrollbar),
                scrollbar_thumb_color: props.scrollbar_thumb_color,
                scrollbar_track_color: props.scrollbar_track_color,
                keyboard_scroll: props.keyboard_scroll,
                modal_pager_keys: props.modal_pager_keys,
                selection: props.selection,
                scroll_drain_mode: props.scroll_drain_mode,
            },
        ),
    )
}

/// Renders a scroll box with acceleration and draining, unless they are asked otherwise.
/// `xterm_js` says whether the terminal is an xterm.js host.
#[allow(non_snake_case)]
pub fn FastScrollBox(props: FastScrollBoxProps, xterm_js: bool) -> (element: AnyElement)
    ensures
        element.key.value == 0,
        element.node == ElementNode::ScrollBox(
            (ScrollBoxProps {
                children: props.children,
                handle: props.handle,
                sticky_scroll: props.sticky_scroll,
                scroll_step: props.scroll_step,
                wheel_acceleration: Some(props.wheel_acceleration != Some(false)),
                scroll_drain_mode: Some(
                    match props.scroll_drain_mode {
                        Some(mode) => mode,
                        None => if xterm_js {
                            ScrollDrainMode::XtermJs
                        } else {
                            ScrollDrainMode::Native
                        },
                    },
                ),
                keyboard_scroll: props.keyboard_scroll,
                modal_pager_keys: props.modal_pager_keys,
                selection: props.selection,
                scrollbar: props.scrollbar,
                scrollbar_thumb_color: props.scrollbar_thumb_color,
                scrollbar_track_color: props.scrollbar_track_color,
            }),
        ),
        ({
            let scroll_box = element.node->ScrollBox_0;
            &&& scroll_box.sticky_scroll == props.sticky_scroll && scroll_box.children
                == props.children
            &&& props.wheel_acceleration is None ==> scroll_box.wheel_acceleration == Some(true)
            &&& props.wheel_acceleration is Some ==> scroll_box.wheel_acceleration
                == props.wheel_acceleration
            &&& props.scroll_drain_mode is Some ==> scroll_box.scroll_drain_mode
                == props.scroll_drain_mode
            &&& props.scroll_drain_mode is None ==> (scroll_box.scroll_drain_mode == Some(
                ScrollDrainMode::XtermJs,
            )) == xterm_js && scroll_box.scroll_drain_mode is Some
        }),
{
    let mode = match props.scroll_drain_mode {
        Some(mode) => mode,
        None => ScrollDrainMode::for_current_terminal(xterm_js),
    };
    let wheel_acceleration: bool = match props.wheel_acceleration {
        Some(wheel_acceleration) => wheel_acceleration,
        None => true,
    };
    AnyElement::at(
        0,
        ElementNode::ScrollBox(
            ScrollBoxProps {
                children: props.children,
                handle: props.handle,
                sticky_scroll: props.sticky_scroll,
                scroll_step: props.scroll_step,
                wheel_acceleration: Some(wheel_acceleration),
                scroll_drain_mode: Some(mode),
                keyboard_scroll: props.keyboard_scroll,
                modal_pager_keys: props.modal_pager_keys,
                selection: props.selection,
                scrollbar: props.scrollbar,
                scrollbar_thumb_color: props.scrollbar_thumb_color,
                scrollbar_track_color: props.scrollbar_track_color,
            },
        ),
    )
}

} // verus!
