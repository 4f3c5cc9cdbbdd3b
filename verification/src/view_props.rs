//! What a view is asked for.

use crate::border::{BorderStyle, BorderText};
use crate::element::AnyElement;
use crate::style::{Color, Edges, LayoutStyle};
use vstd::prelude::*;

verus! {

/// How the border of a view looks.
#[derive(Clone, Copy, Debug, PartialEq, Eq, Structural)]
pub struct BorderProps {
    /// The style of the border.
    pub style: BorderStyle,
    /// The color of the border.
    pub color: Option<Color>,
    /// The color of the top edge, instead of `color`.
    pub top_color: Option<Color>,
    /// The color of the bottom edge, instead of `color`.
    pub bottom_color: Option<Color>,
    /// The color of the left edge, instead of `color`.
    pub left_color: Option<Color>,
    /// The color of the right edge, instead of `color`.
    pub right_color: Option<Color>,
    /// Whether the border is dim.
    pub dim_color: bool,
    /// Whether the top edge is dim, instead of `dim_color`.
    pub top_dim_color: Option<bool>,
    /// Whether the bottom edge is dim, instead of `dim_color`.
    pub bottom_dim_color: Option<bool>,
    /// Whether the left edge is dim, instead of `dim_color`.
    pub left_dim_color: Option<bool>,
    /// Whether the right edge is dim, instead of `dim_color`.
    pub right_dim_color: Option<bool>,
    /// The edges that are shown; all of them by default.
    pub edges: Option<Edges>,
    /// Whether the top edge is shown, instead of what `edges` says.
    pub top: Option<bool>,
    /// Whether the bottom edge is shown, instead of what `edges` says.
    pub bottom: Option<bool>,
    /// Whether the left edge is shown, instead of what `edges` says.
    pub left: Option<bool>,
    /// Whether the right edge is shown, instead of what `edges` says.
    pub right: Option<bool>,
}

/// No border.
pub open spec fn no_border() -> BorderProps {
    BorderProps {
        style: BorderStyle::NoBorder,
        color: None,
        top_color: None,
        bottom_color: None,
        left_color: None,
        right_color: None,
        dim_color: false,
        top_dim_color: None,
        bottom_dim_color: None,
        left_dim_color: None,
        right_dim_color: None,
        edges: None,
        top: None,
        bottom: None,
        left: None,
        right: None,
    }
}

impl Default for BorderProps {
    fn default() -> (r: Self)
        ensures
            r == no_border(),
    {
        BorderProps {
            style: BorderStyle::NoBorder,
            color: None,
            top_color: None,
            bottom_color: None,
            left_color: None,
            right_color: None,
            dim_color: false,
            top_dim_color: None,
            bottom_dim_color: None,
            left_dim_color: None,
            right_dim_color: None,
            edges: None,
            top: None,
            bottom: None,
            left: None,
            right: None,
        }
    }
}

/// How a view takes part in focus.
#[derive(Clone, Copy, Debug, PartialEq, Eq, Structural)]
pub struct FocusProps {
    /// Whether the view can get the focus, also by Tab.
    pub focusable: bool,
    /// A number below zero keeps the view out of Tab traversal; any number makes it one
    /// that can get the focus.
    pub tab_index: Option<i32>,
    /// Whether the view asks for the focus when it is mounted.
    pub auto_focus: bool,
}

impl FocusProps {
    /// A view that takes no part in focus.
    pub open spec fn none() -> FocusProps {
        FocusProps { focusable: false, tab_index: None, auto_focus: false }
    }

    /// Whether the view can get the focus.
    pub open spec fn active(self) -> bool {
        self.focusable || self.tab_index is Some || self.auto_focus
    }

    /// Whether Tab reaches the view.
    pub open spec fn tabbable(self) -> bool {
        self.active() && match self.tab_index {
            Some(tab_index) => tab_index >= 0,
            None => self.focusable,
        }
    }

    /// Whether a click on the view gives it the focus.
    pub open spec fn clickable(self) -> bool {
        self.focusable || self.tab_index is Some
    }

    /// Whether the view can get the focus.
    pub fn is_active(&self) -> (r: bool)
        ensures
            r == self.active(),
    {
        self.focusable || self.tab_index.is_some() || self.auto_focus
    }

    /// Whether Tab reaches the view.
    pub fn is_tabbable(&self) -> (r: bool)
        ensures
            r == self.tabbable(),
    {
        let wanted: bool = match self.tab_index {
            Some(tab_index) => tab_index >= 0,
            None => self.focusable,
        };
        wanted && self.is_active()
    }

    /// Whether a click on the view gives it the focus.
    pub fn is_clickable(&self) -> (r: bool)
        ensures
            r == self.clickable(),
    {
        self.focusable || self.tab_index.is_some()
    }
}

impl Default for FocusProps {
    fn default() -> (r: Self)
        ensures
            r == FocusProps::none(),
    {
        FocusProps { focusable: false, tab_index: None, auto_focus: false }
    }
}

/// The handlers of a view, each named by a number.
#[derive(Clone, Copy, Debug, PartialEq, Eq, Structural)]
pub struct ViewHandlers {
    pub on_click: Option<u64>,
    pub on_mouse_enter: Option<u64>,
    pub on_mouse_leave: Option<u64>,
    pub on_focus_capture: Option<u64>,
    pub on_focus: Option<u64>,
    pub on_blur_capture: Option<u64>,
    pub on_blur: Option<u64>,
    pub on_key_down_capture: Option<u64>,
    pub on_key_down: Option<u64>,
    pub on_paste_capture: Option<u64>,
    pub on_paste: Option<u64>,
    pub on_resize: Option<u64>,
}

impl ViewHandlers {
    /// No handler.
    pub open spec fn none() -> ViewHandlers {
        ViewHandlers {
            on_click: None,
            on_mouse_enter: None,
            on_mouse_leave: None,
            on_focus_capture: None,
            on_focus: None,
            on_blur_capture: None,
            on_blur: None,
            on_key_down_capture: None,
            on_key_down: None,
            on_paste_capture: None,
            on_paste: None,
            on_resize: None,
        }
    }
}

impl Default for ViewHandlers {
    fn default() -> (r: Self)
        ensures
            r == ViewHandlers::none(),
    {
        ViewHandlers {
            on_click: None,
            on_mouse_enter: None,
            on_mouse_leave: None,
            on_focus_capture: None,
            on_focus: None,
            on_blur_capture: None,
            on_blur: None,
            on_key_down_capture: None,
            on_key_down: None,
            on_paste_capture: None,
            on_paste: None,
            on_resize: None,
        }
    }
}

/// The props of a view.
#[derive(Debug)]
pub struct ViewProps {
    /// The elements inside of the view.
    pub children: Vec<AnyElement>,
    /// How the view is laid out.
    pub layout: LayoutStyle,
    /// How its border looks.
    pub border: BorderProps,
    /// A text in its border.
    pub border_text: Option<BorderText>,
    /// The color of the background.
    pub background_color: Option<Color>,
    /// Whether blank cells of the view hide what is behind it.
    pub opaque: bool,
    /// Whether the cells of the view are kept from text selection.
    pub no_select: bool,
    /// Whether the cells to the left of the view are kept from text selection too.
    pub no_select_from_left_edge: bool,
    /// How the view takes part in focus.
    pub focus: FocusProps,
    /// The handlers of the view.
    pub handlers: ViewHandlers,
}

impl ViewProps {
    /// A view with nothing but its layout and its children.
    pub open spec fn is_bare(self) -> bool {
        &&& self.border == no_border()
        &&& self.border_text is None
        &&& self.background_color is None
        &&& !self.opaque
        &&& !self.no_select
        &&& !self.no_select_from_left_edge
        &&& self.focus == FocusProps::none()
        &&& self.handlers == ViewHandlers::none()
    }

    /// A view with nothing but a layout and children.
    pub fn bare(layout: LayoutStyle, children: Vec<AnyElement>) -> (r: Self)
        ensures
            r.layout == layout,
            r.children == children,
            r.is_bare(),
    {
        ViewProps {
            children,
            layout,
            border: BorderProps::default(),
            border_text: None,
            background_color: None,
            opaque: false,
            no_select: false,
            no_select_from_left_edge: false,
            focus: FocusProps::default(),
            handlers: ViewHandlers::default(),
        }
    }
}

impl Default for ViewProps {
    fn default() -> (r: Self)
        ensures
            r.layout == crate::style::plain_layout(),
            r.children@.len() == 0,
            r.is_bare(),
    {
        ViewProps::bare(LayoutStyle::default(), Vec::new())
    }
}

/// A view can get the focus where it is focusable, has a tab index or asks for the focus. Tab
/// reaches it where its index is not negative, and without an index where it is focusable. A
/// click focuses it where it is focusable or has an index.
pub proof fn lemma_focus_props(props: FocusProps)
    ensures
        props.focusable || props.tab_index is Some || props.auto_focus ==> props.active(),
        !props.focusable && props.tab_index is None && !props.auto_focus ==> !props.active(),
        props.tab_index matches Some(index) ==> props.tabbable() == (index >= 0),
        props.tab_index is None ==> props.tabbable() == props.focusable,
        props.clickable() == (props.focusable || props.tab_index is Some),
        props.tabbable() ==> props.active(),
        props.clickable() ==> props.active(),
{
}

} // verus!
