//! Components that are little more than a box around their children, or a box alone.

use crate::context::ContextValue;
use crate::element::{AnyElement, ContextProviderProps, ElementNode, FragmentProps};
use crate::style::{Color, Dimension, LayoutStyle, Weight};
use crate::text::colored_text;
use crate::view_context::ViewFocusParentContext;
use crate::view_props::ViewProps;
use vstd::prelude::*;

verus! {

/// The props of [`NoSelect`].
#[derive(Debug)]
pub struct NoSelectProps {
    /// The elements that are kept from text selection.
    pub children: Vec<AnyElement>,
    /// Whether the cells to the left of them are kept from it too.
    pub from_left_edge: bool,
}

/// Renders elements that are kept from text selection.
#[allow(non_snake_case)]
pub fn NoSelect(props: NoSelectProps) -> (element: AnyElement)
    ensures
        element.key.value == 0,
        element.node is View,
        ({
            let view = element.node->View_0;
            &&& view.children == props.children
            &&& view.layout == crate::style::plain_layout()
            &&& view.no_select == !props.from_left_edge
            &&& view.no_select_from_left_edge == props.from_left_edge
            &&& (ViewProps { no_select: false, no_select_from_left_edge: false, ..view }).is_bare()
        }),
{
    let mut view = ViewProps::bare(LayoutStyle::default(), props.children);
    view.no_select = !props.from_left_edge;
    view.no_select_from_left_edge = props.from_left_edge;
    AnyElement::at(0, ElementNode::View(view))
}

/// The props of [`Newline`].
#[derive(Clone, Copy, Debug, PartialEq, Eq, Structural)]
pub struct NewlineProps {
    /// The number of blank rows.
    pub count: i32,
}

impl Default for NewlineProps {
    fn default() -> (r: Self)
        ensures
            r.count == 1,
    {
        NewlineProps { count: 1 }
    }
}

/// Blank rows.
#[derive(Clone, Copy, Debug, PartialEq, Eq, Structural)]
pub struct Newline {
    /// The number of blank rows.
    pub count: u16,
}

impl Newline {
    /// The blank rows for the given props: none for a negative number, and the low 16 bits of
    /// any other.
    pub fn new(props: &NewlineProps) -> (r: Self)
        ensures
            r.count == crate::math::max_int(props.count as int, 0) % 0x1_0000,
            0 <= props.count <= u16::MAX ==> r.count == props.count,
            props.count < 0 ==> r.count == 0,
    {
        let count: u32 = if props.count < 0 {
            0
        } else {
            props.count as u32
        };
        Newline { count: (count % 0x1_0000) as u16 }
    }

    /// How the blank rows are laid out: they do not shrink.
    pub fn layout(&self) -> (layout: LayoutStyle)
        ensures
            layout == (LayoutStyle {
                width: Dimension::Length(0),
                height: Dimension::Length(self.count as usize),
                flex_shrink: 0,
                ..crate::style::plain_layout()
            }),
            layout.height == Dimension::Length(self.count as usize) && layout.flex_shrink == 0,
    {
        let mut layout = LayoutStyle::default();
        layout.width = Dimension::Length(0);
        layout.height = Dimension::Length(self.count as usize);
        layout.flex_shrink = 0;
        layout
    }
}

/// The props of [`Spacer`].
#[derive(Clone, Copy, Debug, PartialEq, Eq, Structural)]
pub struct SpacerProps;

/// A box that takes all the room that is left.
#[derive(Clone, Copy, Debug, PartialEq, Eq, Structural)]
pub struct Spacer;

impl Spacer {
    /// The spacer.
    pub fn new(_props: &SpacerProps) -> (r: Self)
        ensures
            r == Spacer,
    {
        Spacer
    }

    /// How the spacer is laid out: it grows.
    pub fn layout(&self) -> (layout: LayoutStyle)
        ensures
            layout == (LayoutStyle { flex_grow: 1, ..crate::style::plain_layout() }),
    {
        let mut layout = LayoutStyle::default();
        layout.flex_grow = 1;
        layout
    }
}

/// The props of [`AlternateScreen`].
#[derive(Debug)]
pub struct AlternateScreenProps {
    /// The elements on the alternate screen.
    pub children: Vec<AnyElement>,
    /// Whether the mouse is tracked; it is by default.
    pub mouse_tracking: Option<bool>,
}

/// A request for the alternate screen, with what is shown on it.
#[derive(Debug)]
pub struct AlternateScreenRequest {
    /// Whether the mouse is tracked.
    pub mouse_tracking: bool,
    /// What is shown.
    pub element: AnyElement,
}

/// Renders elements that fill the alternate screen, and asks for it.
#[allow(non_snake_case)]
pub fn AlternateScreen(props: AlternateScreenProps) -> (r: AlternateScreenRequest)
    ensures
        r.mouse_tracking == (props.mouse_tracking != Some(false)),
        r.element.is_view_at(
            0,
            (LayoutStyle {
                width: Dimension::Percent(100),
                height: Dimension::Percent(100),
                flex_shrink: 0,
                ..crate::style::plain_layout()
            }),
            props.children@,
        ),
{
    let mouse_tracking: bool = match props.mouse_tracking {
        Some(mouse_tracking) => mouse_tracking,
        None => true,
    };
    let mut layout = LayoutStyle::default();
    layout.width = Dimension::Percent(100);
    layout.height = Dimension::Percent(100);
    layout.flex_shrink = 0;
    AlternateScreenRequest {
        mouse_tracking,
        element: AnyElement::at(0, ElementNode::View(ViewProps::bare(layout, props.children))),
    }
}

/// The context that a fragment hands down: one that its children share, unless there is one
/// already.
pub fn fragment_context(has_view_context: bool) -> (r: Option<ViewFocusParentContext>)
    ensures
        r is Some == !has_view_context,
        r matches Some(context) ==> context@ == (crate::view_context::ParentModel {
            shared_root_event_context: true,
            ..crate::view_context::ParentModel::outermost()
        }),
{
    if has_view_context {
        None
    } else {
        Some(ViewFocusParentContext::shared_root())
    }
}

/// An element that hands a value down.
pub open spec fn provides(
    element: AnyElement,
    value: ContextValue,
    children: Seq<AnyElement>,
) -> bool {
    &&& element.key.value == 0
    &&& element.node is ContextProvider
    &&& element.node->ContextProvider_0.value == Some(value)
    &&& element.node->ContextProvider_0.children@ == children
}

/// An element that hands a value down.
pub fn provide(value: ContextValue, children: Vec<AnyElement>) -> (element: AnyElement)
    ensures
        provides(element, value, children@),
{
    AnyElement::at(
        0,
        ElementNode::ContextProvider(ContextProviderProps { children, value: Some(value) }),
    )
}

/// The props of [`KeybindingProvider`].
#[derive(Debug)]
pub struct KeybindingProviderProps {
    /// The elements that see the key bindings.
    pub children: Vec<AnyElement>,
}

/// Renders elements that see key bindings, which are named by a number.
#[allow(non_snake_case)]
pub fn KeybindingProvider(props: KeybindingProviderProps, keybindings: u64) -> (element: AnyElement)
    ensures
        provides(element, ContextValue::Keybindings(keybindings), props.children@),
{
    provide(ContextValue::Keybindings(keybindings), props.children)
}

/// The props of [`NotificationProvider`].
#[derive(Debug)]
pub struct NotificationProviderProps {
    /// The elements that see the notifications.
    pub children: Vec<AnyElement>,
}

/// Renders elements that see notifications, which are named by a number.
#[allow(non_snake_case)]
pub fn NotificationProvider(props: NotificationProviderProps, notifications: u64) -> (element:
    AnyElement)
    ensures
        provides(element, ContextValue::Notifications(notifications), props.children@),
{
    provide(ContextValue::Notifications(notifications), props.children)
}

/// A notification.
#[derive(Debug)]
pub struct Notification {
    /// The text of the notification.
    pub text: String,
    /// The color of the notification.
    pub color: Option<Color>,
}

/// The props of [`NotificationViewport`].
#[derive(Debug)]
pub struct NotificationViewportProps {
    /// What stands before the text.
    pub prefix: Option<String>,
    /// The color of notifications that have none of their own.
    pub color: Option<Color>,
}

/// The row of a notification: its text after the prefix, in its own color, that of the
/// viewport, or grey.
pub open spec fn is_notification_row(
    element: AnyElement,
    notification: Notification,
    props: NotificationViewportProps,
) -> bool {
    let view = element.node->View_0;
    let prefix = match props.prefix {
        Some(prefix) => prefix@,
        None => Seq::empty(),
    };
    let color = if notification.color is Some {
        notification.color
    } else if props.color is Some {
        props.color
    } else {
        Some(Color::Grey)
    };
    &&& element.key.value == 0
    &&& element.node is View
    &&& view.layout == (LayoutStyle {
        height: Dimension::Length(1),
        ..crate::style::plain_layout()
    })
    &&& view.no_select
    &&& (ViewProps { no_select: false, ..view }).is_bare()
    &&& view.children@.len() == 1
    &&& view.children@[0].key.value == 0
    &&& view.children@[0].node is Text
    &&& crate::text::is_colored_text(
        view.children@[0].node->Text_0,
        prefix + notification.text@,
        color,
        None,
        Weight::Normal,
    )
}

/// Renders the current notification, if there is one.
#[allow(non_snake_case)]
pub fn NotificationViewport(
    current: &Option<Notification>,
    props: &NotificationViewportProps,
) -> (element: AnyElement)
    ensures
        element.key.value == 0,
        element.node is Fragment,
        ({
            let children = element.node->Fragment_0.children@;
            match *current {
                Some(notification) => children.len() == 1 && is_notification_row(
                    children[0],
                    notification,
                    *props,
                ),
                None => children.len() == 0,
            }
        }),
{
    let mut rows: Vec<AnyElement> = Vec::new();
    if let Some(notification) = current {
        let mut text: String = match &props.prefix {
            Some(prefix) => prefix.clone(),
            None => String::new(),
        };
        assert(props.prefix is None ==> text@ =~= Seq::empty());
        text.append(notification.text.as_str());
        let color: Option<Color> = if notification.color.is_some() {
            notification.color
        } else if props.color.is_some() {
            props.color
        } else {
            Some(Color::Grey)
        };
        let mut children: Vec<AnyElement> = Vec::new();
        children.push(
            AnyElement::at(
                0,
                ElementNode::Text(colored_text(text, color, None, Weight::Normal)),
            ),
        );
        let mut layout = LayoutStyle::default();
        layout.height = Dimension::Length(1);
        let mut view = ViewProps::bare(layout, children);
        view.no_select = true;
        rows.push(AnyElement::at(0, ElementNode::View(view)));
    }
    AnyElement::at(0, ElementNode::Fragment(FragmentProps { children: rows }))
}

/// The props of [`SelectionClipboardNotifications`]. Contexts are named by numbers.
#[derive(Debug)]
pub struct SelectionClipboardNotificationsProps {
    /// The elements that are rendered.
    pub children: Vec<AnyElement>,
    /// The text selection that is watched, instead of the one around the component.
    pub selection: Option<u64>,
    /// The stream that is written to, instead of the one of the application.
    pub stdout: Option<u64>,
    /// The notifications that tell of a copy, instead of those around the component.
    pub notifications: Option<u64>,
    /// Whether copies are told of; they are by default.
    pub active: Option<bool>,
    /// How a copy reaches the clipboard, in words of the notification, instead of the way
    /// that the application has.
    pub clipboard_path: Option<u64>,
}

/// What the component watches, and what it renders.
#[derive(Debug)]
pub struct SelectionClipboardWatch {
    /// The text selection that is watched.
    pub selection: u64,
    /// The stream that is written to.
    pub stdout: u64,
    /// The notifications that tell of a copy.
    pub notifications: u64,
    /// Whether copies are told of.
    pub active: bool,
    /// How a copy reaches the clipboard.
    pub clipboard_path: u64,
    /// What is rendered.
    pub element: AnyElement,
}

/// Renders elements, and tells of copies of a text selection. The defaults are the contexts
/// around the component.
#[allow(non_snake_case)]
pub fn SelectionClipboardNotifications(
    props: SelectionClipboardNotificationsProps,
    default_selection: u64,
    default_stdout: u64,
    default_notifications: u64,
    default_clipboard_path: u64,
) -> (r: SelectionClipboardWatch)
    ensures
        r.selection == match props.selection {
            Some(selection) => selection,
            None => default_selection,
        },
        r.stdout == match props.stdout {
            Some(stdout) => stdout,
            None => default_stdout,
        },
        r.notifications == match props.notifications {
            Some(notifications) => notifications,
            None => default_notifications,
        },
        r.active == (props.active != Some(false)),
        r.clipboard_path == match props.clipboard_path {
            Some(clipboard_path) => clipboard_path,
            None => default_clipboard_path,
        },
        r.element.key.value == 0,
        r.element.node is Fragment,
        r.element.node->Fragment_0.children == props.children,
{
    SelectionClipboardWatch {
        selection: match props.selection {
            Some(selection) => selection,
            None => default_selection,
        },
        stdout: match props.stdout {
            Some(stdout) => stdout,
            None => default_stdout,
        },
        notifications: match props.notifications {
            Some(notifications) => notifications,
            None => default_notifications,
        },
        active: match props.active {
            Some(active) => active,
            None => true,
        },
        clipboard_path: match props.clipboard_path {
            Some(clipboard_path) => clipboard_path,
            None => default_clipboard_path,
        },
        element: AnyElement::at(
            0,
            ElementNode::Fragment(FragmentProps { children: props.children }),
        ),
    }
}

/// A notification is shown behind the prefix, if there is one, in its own color, or in that of the
/// viewport, or in grey; its one row cannot be selected.
pub proof fn lemma_notification_row(
    element: AnyElement,
    notification: Notification,
    props: NotificationViewportProps,
)
    requires
        is_notification_row(element, notification, props),
    ensures
        ({
            let text = element.node->View_0.children@[0].node->Text_0;
            &&& props.prefix is None ==> text.content@ == notification.text@
            &&& props.prefix matches Some(prefix) ==> text.content@ == prefix@
                + notification.text@
            &&& notification.color is Some ==> text.color == notification.color
            &&& notification.color is None && props.color is Some ==> text.color == props.color
            &&& notification.color is None && props.color is None ==> text.color == Some(
                Color::Grey,
            )
            &&& text.weight == Weight::Normal && text.background_color is None
            &&& element.node->View_0.no_select
            &&& element.node->View_0.layout.height == Dimension::Length(1)
        }),
{
    if props.prefix is None {
        let text = element.node->View_0.children@[0].node->Text_0;
        assert(Seq::<char>::empty() + notification.text@ =~= notification.text@);
    }
}

} // verus!
