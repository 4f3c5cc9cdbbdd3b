//! The view: the box that lays out, styles and handles events for what is inside of
//! it.

use crate::canvas::DrawOp;
use crate::event::{Rect, TerminalEvent};
use crate::event_dispatch::{EventDispatch, ViewCaptureHandler};
use crate::view_context::{clone_handlers, extend_handlers, ViewFocusParentContext};
use crate::view_event::{
    FocusChange, FocusId, ViewFocusEvent, ViewFocusEventKind, ViewId, ViewResizeEvent,
};
use crate::view_props::{FocusProps, ViewHandlers, ViewProps};
use crate::view_registry::{FocusTarget, PendingClick, ViewRecord};
use crate::view_style::ViewStyle;
use vstd::prelude::*;
use vstd::view::View as Viewed;

verus! {

use crate::event_dispatch::{ChainModel, DispatchStage};
use crate::view_context::ParentModel;
use crate::view_event::{EventFlags, EventRoute};

/// A request to a focus context, which is named by a number.
#[derive(Clone, Copy, Debug, PartialEq, Eq, Structural)]
pub enum FocusOp {
    /// Adds an entry.
    Register { context: u64, id: FocusId, auto_focus: bool, is_active: bool },
    /// Says whether an entry can get the focus.
    SetActive { context: u64, id: FocusId, active: bool },
    /// Says whether Tab reaches an entry.
    SetTabbable { context: u64, id: FocusId, tabbable: bool },
    /// Says which entry is around an entry.
    SetParent { context: u64, id: FocusId, parent: Option<FocusId> },
    /// Puts an entry after those that were rendered before it.
    NoteRenderPosition { context: u64, id: FocusId },
    /// Removes an entry.
    Unregister { context: u64, id: FocusId },
}

/// How a view takes part in focus.
#[derive(Clone, Copy, Debug, PartialEq, Eq, Structural)]
pub struct FocusState {
    /// The focus context of the view.
    pub context: Option<u64>,
    /// The entry of the view.
    pub id: Option<FocusId>,
    /// Whether the view can get the focus.
    pub active: bool,
    /// Whether Tab reaches the view.
    pub tabbable: bool,
    /// Whether the view had the focus at its last update.
    pub was_focused: bool,
}

/// One request where something changed, none where it did not.
pub open spec fn op_if(changed: bool, op: FocusOp) -> Seq<FocusOp> {
    if changed {
        seq![op]
    } else {
        Seq::empty()
    }
}

impl FocusState {
    /// A view that takes no part in focus.
    pub open spec fn none() -> FocusState {
        FocusState {
            context: None,
            id: None,
            active: false,
            tabbable: false,
            was_focused: false,
        }
    }

    /// The state after an update. `new_id` is the entry that the focus context makes where
    /// the view has none.
    pub open spec fn updated(
        self,
        props: FocusProps,
        context: Option<u64>,
        new_id: FocusId,
    ) -> FocusState {
        match context {
            Some(context) => FocusState {
                context: Some(context),
                id: Some(
                    match self.id {
                        Some(id) => id,
                        None => new_id,
                    },
                ),
                active: props.active(),
                tabbable: props.tabbable(),
                ..self
            },
            None => if self.context is Some && self.id is Some {
                FocusState::none()
            } else {
                FocusState { context: None, id: None, ..self }
            },
        }
    }

    /// What an update asks of focus contexts. An entry is added once and changed where it
    /// has to be; a view that has lost its context gives its entry back.
    pub open spec fn ops(
        self,
        props: FocusProps,
        context: Option<u64>,
        new_id: FocusId,
        parent: Option<FocusId>,
    ) -> Seq<FocusOp> {
        match context {
            Some(context) => {
                let active: bool = props.active();
                let tabbable: bool = props.tabbable();
                let id: FocusId = match self.id {
                    Some(id) => id,
                    None => new_id,
                };
                let entry: Seq<FocusOp> = match self.id {
                    Some(_) => op_if(
                        self.active != active,
                        FocusOp::SetActive { context, id, active },
                    ) + op_if(
                        self.tabbable != tabbable,
                        FocusOp::SetTabbable { context, id, tabbable },
                    ),
                    None => seq![
                        FocusOp::Register {
                            context,
                            id,
                            auto_focus: props.auto_focus,
                            is_active: active,
                        },
                    ] + op_if(
                        tabbable != active,
                        FocusOp::SetTabbable { context, id, tabbable },
                    ),
                };
                entry + seq![
                    FocusOp::SetParent { context, id, parent },
                    FocusOp::NoteRenderPosition { context, id },
                ]
            },
            None => if self.context is Some && self.id is Some {
                seq![FocusOp::Unregister { context: self.context->0, id: self.id->0 }]
            } else {
                Seq::empty()
            },
        }
    }
}

/// A view.
#[derive(Debug)]
pub struct View {
    view_id: ViewId,
    style: ViewStyle,
    event_rect: Option<Rect>,
    pending_click: Option<PendingClick>,
    focus: FocusState,
}

/// What is drawn of a view.
#[derive(Debug)]
pub struct ViewDrawing {
    /// What draws the view itself.
    pub ops: Vec<DrawOp>,
    /// Whether the elements inside of it are not drawn.
    pub skip_children: bool,
}

/// A change of focus, dispatched to the handlers of a view and of the views around it.
#[derive(Debug)]
pub struct FocusDispatch {
    /// The event.
    pub event: ViewFocusEvent,
    /// Its handlers.
    pub dispatch: EventDispatch,
}

impl View {
    /// The identifier of the view.
    pub closed spec fn id(self) -> ViewId {
        self.view_id
    }

    /// How the view looks.
    pub closed spec fn look(self) -> crate::view_style::StyleModel {
        self.style@
    }

    /// The cells that the view was drawn on.
    pub closed spec fn rect(self) -> Option<Rect> {
        self.event_rect
    }

    /// The press that may become a click.
    pub closed spec fn pressed(self) -> Option<PendingClick> {
        self.pending_click
    }

    /// How the view takes part in focus.
    pub closed spec fn focusing(self) -> FocusState {
        self.focus
    }

    /// The view as a whole, but for how it looks.
    pub open spec fn same_but_look(self, other: View) -> bool {
        &&& self.id() == other.id()
        &&& self.rect() == other.rect()
        &&& self.pressed() == other.pressed()
        &&& self.focusing() == other.focusing()
    }

    /// A handler of the view.
    pub open spec fn own(self, handler: Option<u64>) -> Option<ViewCaptureHandler> {
        match handler {
            Some(handler) => Some(
                ViewCaptureHandler {
                    focus_id: self.focusing().id,
                    view_id: self.id(),
                    handler,
                },
            ),
            None => None,
        }
    }

    /// The handlers for getting or losing the focus.
    pub open spec fn focus_chain(
        self,
        gets_focus: bool,
        handlers: ViewHandlers,
        parent: ParentModel,
    ) -> ChainModel {
        if gets_focus {
            ChainModel {
                captures: parent.focus_captures,
                target_capture: self.own(handlers.on_focus_capture),
                target_handler: self.own(handlers.on_focus),
                bubbles: parent.focus,
            }
        } else {
            ChainModel {
                captures: parent.blur_captures,
                target_capture: self.own(handlers.on_blur_capture),
                target_handler: self.own(handlers.on_blur),
                bubbles: parent.blur,
            }
        }
    }

    /// A view that was not drawn yet.
    pub fn new(view_id: ViewId) -> (r: Self)
        ensures
            r.id() == view_id,
            r.look() == crate::view_style::plain_style(),
            r.rect() is None,
            r.pressed() is None,
            r.focusing() == FocusState::none(),
    {
        View {
            view_id,
            style: ViewStyle::new(&ViewProps::default()),
            event_rect: None,
            pending_click: None,
            focus: FocusState {
                context: None,
                id: None,
                active: false,
                tabbable: false,
                was_focused: false,
            },
        }
    }

    /// The identifier of the view.
    pub fn view_id(&self) -> (r: ViewId)
        ensures
            r == self.id(),
    {
        self.view_id
    }

    /// Takes over how the view looks.
    pub fn update_style(&mut self, props: &ViewProps)
        ensures
            final(self).look() == crate::view_style::style_of(*props),
            final(self).same_but_look(*old(self)),
    {
        self.style = ViewStyle::new(props);
    }

    /// The edges at which the border takes a cell.
    pub fn layout_border(&self) -> (r: crate::style::Edges)
        ensures
            r == self.look().bordered(),
    {
        self.style.layout_border()
    }

    /// Takes over how the view takes part in focus, and returns what it asks of focus
    /// contexts. `new_id` is the entry that `context` makes if it is asked for one.
    pub fn update_focus(
        &mut self,
        props: FocusProps,
        context: Option<u64>,
        new_id: FocusId,
        parent: Option<FocusId>,
    ) -> (ops: Vec<FocusOp>)
        ensures
            ops@ == old(self).focusing().ops(props, context, new_id, parent),
            final(self).focusing() == old(self).focusing().updated(props, context, new_id),
            final(self).id() == old(self).id(),
            final(self).look() == old(self).look(),
            final(self).rect() == old(self).rect(),
            final(self).pressed() == old(self).pressed(),
    {
        let ghost before = self.focus;
        let mut ops: Vec<FocusOp> = Vec::new();
        match context {
            Some(context) => {
                let active: bool = props.is_active();
                let tabbable: bool = props.is_tabbable();
                let id: FocusId = match self.focus.id {
                    Some(id) => {
                        if self.focus.active != active {
                            ops.push(FocusOp::SetActive { context, id, active });
                        }
                        if self.focus.tabbable != tabbable {
                            ops.push(FocusOp::SetTabbable { context, id, tabbable });
                        }
                        id
                    },
                    None => {
                        ops.push(
                            FocusOp::Register {
                                context,
                                id: new_id,
                                auto_focus: props.auto_focus,
                                is_active: active,
                            },
                        );
                        if tabbable != active {
                            ops.push(FocusOp::SetTabbable { context, id: new_id, tabbable });
                        }
                        new_id
                    },
                };
                self.focus.id = Some(id);
                self.focus.active = active;
                self.focus.tabbable = tabbable;
                self.focus.context = Some(context);
                ops.push(FocusOp::SetParent { context, id, parent });
                ops.push(FocusOp::NoteRenderPosition { context, id });
            },
            None => {
                let lost_context: Option<u64> = self.focus.context;
                let lost_id: Option<FocusId> = self.focus.id;
                self.focus.context = None;
                self.focus.id = None;
                if let Some(context) = lost_context {
                    if let Some(id) = lost_id {
                        ops.push(FocusOp::Unregister { context, id });
                        self.focus.active = false;
                        self.focus.tabbable = false;
                        self.focus.was_focused = false;
                    }
                }
            },
        }
        assert(ops@ =~= before.ops(props, context, new_id, parent));
        ops
    }

    /// What a view that is unmounted asks of its focus context.
    pub fn unmount(&self) -> (op: Option<FocusOp>)
        ensures
            op == if self.focusing().context is Some && self.focusing().id is Some {
                Some(
                    FocusOp::Unregister {
                        context: self.focusing().context->0,
                        id: self.focusing().id->0,
                    },
                )
            } else {
                None
            },
    {
        match self.focus.context {
            Some(context) => match self.focus.id {
                Some(id) => Some(FocusOp::Unregister { context, id }),
                None => None,
            },
            None => None,
        }
    }

    /// The record of the view for the dispatch of mouse events.
    pub fn record(
        &self,
        parent: &ViewFocusParentContext,
        focus: FocusProps,
        handlers: ViewHandlers,
    ) -> (r: ViewRecord)
        ensures
            r == (ViewRecord {
                id: self.id(),
                parent: parent@.view_id,
                rect: self.rect(),
                on_enter: handlers.on_mouse_enter,
                on_leave: handlers.on_mouse_leave,
                on_click: handlers.on_click,
                focus: if focus.clickable() && self.focusing().context is Some
                    && self.focusing().id is Some {
                    Some(
                        FocusTarget {
                            context: self.focusing().context->0,
                            id: self.focusing().id->0,
                        },
                    )
                } else {
                    None
                },
            }),
    {
        let mut target: Option<FocusTarget> = None;
        if focus.is_clickable() {
            if let Some(context) = self.focus.context {
                if let Some(id) = self.focus.id {
                    target = Some(FocusTarget { context, id });
                }
            }
        }
        ViewRecord {
            id: self.view_id,
            parent: parent.view_id,
            rect: self.event_rect,
            on_enter: handlers.on_mouse_enter,
            on_leave: handlers.on_mouse_leave,
            on_click: handlers.on_click,
            focus: target,
        }
    }

    /// Whether the view dispatches events of the pointer for the views inside of it: it is
    /// inside of no other view.
    pub fn is_hover_dispatch_root(&self, parent: &ViewFocusParentContext) -> (r: bool)
        ensures
            r == parent@.view_id is None,
    {
        parent.view_id.is_none()
    }

    /// A handler of the view.
    fn own_handler(&self, handler: Option<u64>) -> (r: Option<ViewCaptureHandler>)
        ensures
            r == self.own(handler),
    {
        match handler {
            Some(handler) => Some(
                ViewCaptureHandler { focus_id: self.focus.id, view_id: self.view_id, handler },
            ),
            None => None,
        }
    }

    /// The press that may become a click, for [`crate::view_registry::handle_click`].
    pub fn pending_click(&self) -> (r: Option<PendingClick>)
        ensures
            r == self.pressed(),
    {
        self.pending_click
    }

    /// Takes over the press that may become a click.
    pub fn set_pending_click(&mut self, pending: Option<PendingClick>)
        ensures
            final(self).pressed() == pending,
            final(self).id() == old(self).id(),
            final(self).look() == old(self).look(),
            final(self).rect() == old(self).rect(),
            final(self).focusing() == old(self).focusing(),
    {
        self.pending_click = pending;
    }

    /// Takes over whether the view has the focus, and returns the event that tells of a
    /// change. There is none where nothing changed, where no handler wants to know of
    /// focus, and where the view takes no part in it.
    pub fn update_focused(
        &mut self,
        focused: bool,
        handlers: ViewHandlers,
        parent: &ViewFocusParentContext,
        change: Option<FocusChange>,
    ) -> (r: Option<FocusDispatch>)
        ensures
            final(self).focusing() == (FocusState {
                was_focused: focused,
                ..old(self).focusing()
            }),
            final(self).id() == old(self).id(),
            final(self).look() == old(self).look(),
            final(self).rect() == old(self).rect(),
            final(self).pressed() == old(self).pressed(),
            r is Some == {
                let gets = old(self).focus_chain(true, handlers, parent@);
                let loses = old(self).focus_chain(false, handlers, parent@);
                &&& old(self).focusing().was_focused != focused
                &&& gets.has_handlers() || loses.has_handlers()
                &&& old(self).focusing().context is Some
                &&& old(self).focusing().id is Some
            },
            r matches Some(r) ==> {
                let kind = if focused {
                    ViewFocusEventKind::Focus
                } else {
                    ViewFocusEventKind::Blur
                };
                &&& r.dispatch.chain() == old(self).focus_chain(focused, handlers, parent@)
                &&& r.dispatch.at() == DispatchStage::Capturing(0)
                &&& r.dispatch.wf()
                &&& r.event.kind == kind
                &&& r.event.event_type@ == if focused {
                    "focus"@
                } else {
                    "blur"@
                }
                &&& r.event.bubbles
                &&& !r.event.cancelable
                &&& r.event.related_target == ViewFocusEvent::related(kind, change)
                &&& r.event.route == (EventRoute {
                    target: old(self).focusing().id,
                    target_view: Some(old(self).id()),
                    ..EventRoute::nowhere()
                })
                &&& r.event.flags == EventFlags::none()
            },
    {
        let changed = self.focus.was_focused != focused;
        self.focus.was_focused = focused;
        if !changed {
            return None;
        }
        let wants_focus = handlers.on_focus_capture.is_some() || handlers.on_focus.is_some()
            || parent.focus_capture_handlers.len() > 0 || parent.focus_handlers.len() > 0;
        let wants_blur = handlers.on_blur_capture.is_some() || handlers.on_blur.is_some()
            || parent.blur_capture_handlers.len() > 0 || parent.blur_handlers.len() > 0;
        if !wants_focus && !wants_blur {
            return None;
        }
        if self.focus.context.is_none() {
            return None;
        }
        match self.focus.id {
            Some(id) => {
                let kind = if focused {
                    ViewFocusEventKind::Focus
                } else {
                    ViewFocusEventKind::Blur
                };
                let event = ViewFocusEvent::from_change(kind, id, self.view_id, change);
                let dispatch = if focused {
                    EventDispatch::new(
                        clone_handlers(&parent.focus_capture_handlers),
                        self.own_handler(handlers.on_focus_capture),
                        self.own_handler(handlers.on_focus),
                        clone_handlers(&parent.focus_handlers),
                    )
                } else {
                    EventDispatch::new(
                        clone_handlers(&parent.blur_capture_handlers),
                        self.own_handler(handlers.on_blur_capture),
                        self.own_handler(handlers.on_blur),
                        clone_handlers(&parent.blur_handlers),
                    )
                };
                Some(FocusDispatch { event, dispatch })
            },
            None => None,
        }
    }

    /// The handlers that see a key while the view has the focus.
    pub fn key_dispatch(&self, handlers: ViewHandlers, parent: &ViewFocusParentContext) -> (r:
        EventDispatch)
        ensures
            r.chain() == (ChainModel {
                captures: parent@.key_captures,
                target_capture: self.own(handlers.on_key_down_capture),
                target_handler: self.own(handlers.on_key_down),
                bubbles: parent@.key,
            }),
            handlers.on_key_down matches Some(handler) ==> r.chain().target_handler->0.handler
                == handler && r.chain().target_handler->0.view_id == self.id(),
            handlers.on_key_down_capture matches Some(handler)
                ==> r.chain().target_capture->0.handler == handler,
            r.chain().captures == parent@.key_captures && r.chain().bubbles == parent@.key,
            r.at() == DispatchStage::Capturing(0),
            r.wf(),
    {
        EventDispatch::new(
            clone_handlers(&parent.key_down_capture_handlers),
            self.own_handler(handlers.on_key_down_capture),
            self.own_handler(handlers.on_key_down),
            clone_handlers(&parent.key_down_handlers),
        )
    }

    /// The handlers that see a pasted text while the view has the focus.
    pub fn paste_dispatch(&self, handlers: ViewHandlers, parent: &ViewFocusParentContext) -> (r:
        EventDispatch)
        ensures
            r.chain() == (ChainModel {
                captures: parent@.paste_captures,
                target_capture: self.own(handlers.on_paste_capture),
                target_handler: self.own(handlers.on_paste),
                bubbles: parent@.paste,
            }),
            handlers.on_paste matches Some(handler) ==> r.chain().target_handler->0.handler
                == handler && r.chain().target_handler->0.view_id == self.id(),
            handlers.on_paste_capture matches Some(handler)
                ==> r.chain().target_capture->0.handler == handler,
            r.chain().captures == parent@.paste_captures && r.chain().bubbles == parent@.paste,
            r.at() == DispatchStage::Capturing(0),
            r.wf(),
    {
        EventDispatch::new(
            clone_handlers(&parent.paste_capture_handlers),
            self.own_handler(handlers.on_paste_capture),
            self.own_handler(handlers.on_paste),
            clone_handlers(&parent.paste_handlers),
        )
    }

    /// The call that a new size of the terminal makes.
    pub fn resize_call(handlers: ViewHandlers, event: &TerminalEvent) -> (r: Option<(
        u64,
        ViewResizeEvent,
    )>)
        ensures
            r == match *event {
                TerminalEvent::Resize(columns, rows) => match handlers.on_resize {
                    Some(handler) => Some((handler, ViewResizeEvent { columns, rows })),
                    None => None,
                },
                _ => None,
            },
    {
        match event {
            TerminalEvent::Resize(columns, rows) => match handlers.on_resize {
                Some(handler) => Some(
                    (handler, ViewResizeEvent { columns: *columns, rows: *rows }),
                ),
                None => None,
            },
            _ => None,
        }
    }

    /// What the view hands down to the views inside of it: its own focus entry, or the one
    /// around it, and the handlers around it with its own.
    pub fn child_context(&self, handlers: ViewHandlers, parent: &ViewFocusParentContext) -> (r:
        ViewFocusParentContext)
        ensures
            r@ == (ParentModel {
                id: if self.focusing().id is Some {
                    self.focusing().id
                } else {
                    parent@.id
                },
                view_id: Some(self.id()),
                shared_root_event_context: parent@.shared_root_event_context,
                focus_captures: crate::view_context::extended(
                    parent@.focus_captures,
                    self.own(handlers.on_focus_capture),
                ),
                focus: crate::view_context::extended(parent@.focus, self.own(handlers.on_focus)),
                blur_captures: crate::view_context::extended(
                    parent@.blur_captures,
                    self.own(handlers.on_blur_capture),
                ),
                blur: crate::view_context::extended(parent@.blur, self.own(handlers.on_blur)),
                key_captures: crate::view_context::extended(
                    parent@.key_captures,
                    self.own(handlers.on_key_down_capture),
                ),
                key: crate::view_context::extended(parent@.key, self.own(handlers.on_key_down)),
                paste_captures: crate::view_context::extended(
                    parent@.paste_captures,
                    self.own(handlers.on_paste_capture),
                ),
                paste: crate::view_context::extended(parent@.paste, self.own(handlers.on_paste)),
            }),
            handlers.on_focus_capture matches Some(handler) ==> r@.focus_captures.len() == parent@.focus_captures.len() + 1
                && r@.focus_captures.last().handler == handler && r@.focus_captures.last().view_id == self.id(),
            handlers.on_focus_capture is None ==> r@.focus_captures == parent@.focus_captures,
            handlers.on_focus matches Some(handler) ==> r@.focus.len() == parent@.focus.len() + 1
                && r@.focus.last().handler == handler && r@.focus.last().view_id == self.id(),
            handlers.on_focus is None ==> r@.focus == parent@.focus,
            handlers.on_blur_capture matches Some(handler) ==> r@.blur_captures.len() == parent@.blur_captures.len() + 1
                && r@.blur_captures.last().handler == handler && r@.blur_captures.last().view_id == self.id(),
            handlers.on_blur_capture is None ==> r@.blur_captures == parent@.blur_captures,
            handlers.on_blur matches Some(handler) ==> r@.blur.len() == parent@.blur.len() + 1
                && r@.blur.last().handler == handler && r@.blur.last().view_id == self.id(),
            handlers.on_blur is None ==> r@.blur == parent@.blur,
            handlers.on_key_down_capture matches Some(handler) ==> r@.key_captures.len() == parent@.key_captures.len() + 1
                && r@.key_captures.last().handler == handler && r@.key_captures.last().view_id == self.id(),
            handlers.on_key_down_capture is None ==> r@.key_captures == parent@.key_captures,
            handlers.on_key_down matches Some(handler) ==> r@.key.len() == parent@.key.len() + 1
                && r@.key.last().handler == handler && r@.key.last().view_id == self.id(),
            handlers.on_key_down is None ==> r@.key == parent@.key,
            handlers.on_paste_capture matches Some(handler) ==> r@.paste_captures.len() == parent@.paste_captures.len() + 1
                && r@.paste_captures.last().handler == handler && r@.paste_captures.last().view_id == self.id(),
            handlers.on_paste_capture is None ==> r@.paste_captures == parent@.paste_captures,
            handlers.on_paste matches Some(handler) ==> r@.paste.len() == parent@.paste.len() + 1
                && r@.paste.last().handler == handler && r@.paste.last().view_id == self.id(),
            handlers.on_paste is None ==> r@.paste == parent@.paste,
    {
        ViewFocusParentContext {
            id: if self.focus.id.is_some() {
                self.focus.id
            } else {
                parent.id
            },
            view_id: Some(self.view_id),
            shared_root_event_context: parent.shared_root_event_context,
            focus_capture_handlers: extend_handlers(
                &parent.focus_capture_handlers,
                self.own_handler(handlers.on_focus_capture),
            ),
            focus_handlers: extend_handlers(
                &parent.focus_handlers,
                self.own_handler(handlers.on_focus),
            ),
            blur_capture_handlers: extend_handlers(
                &parent.blur_capture_handlers,
                self.own_handler(handlers.on_blur_capture),
            ),
            blur_handlers: extend_handlers(
                &parent.blur_handlers,
                self.own_handler(handlers.on_blur),
            ),
            key_down_capture_handlers: extend_handlers(
                &parent.key_down_capture_handlers,
                self.own_handler(handlers.on_key_down_capture),
            ),
            key_down_handlers: extend_handlers(
                &parent.key_down_handlers,
                self.own_handler(handlers.on_key_down),
            ),
            paste_capture_handlers: extend_handlers(
                &parent.paste_capture_handlers,
                self.own_handler(handlers.on_paste_capture),
            ),
            paste_handlers: extend_handlers(
                &parent.paste_handlers,
                self.own_handler(handlers.on_paste),
            ),
        }
    }

    /// The cells of a view at a position of the canvas.
    pub open spec fn cells_at(x: i16, y: i16, width: u16, height: u16) -> Rect {
        Rect {
            left: x as i32,
            right: (x + width) as i32,
            top: y as i32,
            bottom: (y + height) as i32,
        }
    }

    /// Records the cells that the view is drawn on, and draws it. A view without height
    /// that shares its row with a sibling draws nothing, nor what is inside of it.
    pub fn draw(&mut self, x: i16, y: i16, width: u16, height: u16, shares_row: bool) -> (r:
        ViewDrawing)
        requires
            old(self).look().countable(width as int, height as int, x as int),
            shares_row || old(self).look().text_fits(width as int),
        ensures
            final(self).rect() == Some(View::cells_at(x, y, width, height)),
            final(self).id() == old(self).id(),
            final(self).look() == old(self).look(),
            final(self).pressed() == old(self).pressed(),
            final(self).focusing() == old(self).focusing(),
            r.skip_children == shares_row,
            crate::canvas::drawing(r.ops@) == if shares_row {
                Seq::empty()
            } else {
                old(self).look().drawing(width as int, height as int, x as int)
            },
    {
        self.event_rect = Some(
            Rect {
                left: x as i32,
                right: x as i32 + width as i32,
                top: y as i32,
                bottom: y as i32 + height as i32,
            },
        );
        if shares_row {
            let ops: Vec<DrawOp> = Vec::new();
            assert(crate::canvas::drawing(ops@) =~= Seq::empty());
            return ViewDrawing { ops, skip_children: true };
        }
        ViewDrawing {
            ops: self.style.draw(width as usize, height as usize, x as isize),
            skip_children: false,
        }
    }

    /// As [`View::draw`], for a view of which it is not known whether the text in its
    /// border fits in the edge that holds it: nothing is drawn where it does not.
    pub fn try_draw(&mut self, x: i16, y: i16, width: u16, height: u16, shares_row: bool) -> (r:
        Option<ViewDrawing>)
        requires
            old(self).look().countable(width as int, height as int, x as int),
        ensures
            final(self).rect() == Some(View::cells_at(x, y, width, height)),
            final(self).id() == old(self).id(),
            final(self).look() == old(self).look(),
            final(self).pressed() == old(self).pressed(),
            final(self).focusing() == old(self).focusing(),
            r is Some == (shares_row || old(self).look().text_fits(width as int)),
            r matches Some(r) ==> {
                &&& r.skip_children == shares_row
                &&& crate::canvas::drawing(r.ops@) == if shares_row {
                    Seq::empty()
                } else {
                    old(self).look().drawing(width as int, height as int, x as int)
                }
            },
    {
        let drawn = self.style.try_draw(width as usize, height as usize, x as isize);
        if shares_row || drawn.is_some() {
            Some(self.draw(x, y, width, height, shares_row))
        } else {
            self.event_rect = Some(
                Rect {
                    left: x as i32,
                    right: x as i32 + width as i32,
                    top: y as i32,
                    bottom: y as i32 + height as i32,
                },
            );
            None
        }
    }
}

/// A view that gets the focus calls the handlers for getting it, one that loses it those for
/// losing it: those around the view, and its own, which are named with the view and its entry.
pub proof fn lemma_focus_handlers(view: View, handlers: ViewHandlers, parent: ParentModel)
    ensures
        ({
            let gets = view.focus_chain(true, handlers, parent);
            let loses = view.focus_chain(false, handlers, parent);
            &&& gets.captures == parent.focus_captures && gets.bubbles == parent.focus
            &&& loses.captures == parent.blur_captures && loses.bubbles == parent.blur
            &&& gets.target_capture == view.own(handlers.on_focus_capture)
            &&& gets.target_handler == view.own(handlers.on_focus)
            &&& loses.target_capture == view.own(handlers.on_blur_capture)
            &&& loses.target_handler == view.own(handlers.on_blur)
        }),
        view.own(None) is None,
        forall|handler: u64|
            {
                let own = #[trigger] view.own(Some(handler));
                own is Some && own->0.handler == handler && own->0.view_id == view.id()
                    && own->0.focus_id == view.focusing().id
            },
{
}

/// A view is drawn on as many columns and rows as it has, from its position on.
pub proof fn lemma_cells_of_view(x: i16, y: i16, width: u16, height: u16, column: int, row: int)
    ensures
        View::cells_at(x, y, width, height).has_cell(column, row) == (0 <= column - x < width && 0
            <= row - y < height),
        View::cells_at(x, y, width, height).left == x,
        View::cells_at(x, y, width, height).top == y,
{
}

/// In a focus context a view has an entry: a new one where it had none, and otherwise the one
/// that it had. Without a context it has none.
pub proof fn lemma_focus_entry_is_kept(
    state: FocusState,
    props: FocusProps,
    context: u64,
    new_id: FocusId,
)
    ensures
        ({
            let within = state.updated(props, Some(context), new_id);
            let without = state.updated(props, None, new_id);
            &&& within.context == Some(context)
            &&& state.id is Some ==> within.id == state.id
            &&& state.id is None ==> within.id == Some(new_id)
            &&& within.active == props.active() && within.tabbable == props.tabbable()
            &&& within.was_focused == state.was_focused
            &&& without.context is None && without.id is None
        }),
{
}

/// A view asks for an entry once, and gives it back where it has lost its context. In a context
/// it says each time which entry is around it and that it was rendered, and otherwise only what
/// has changed.
pub proof fn lemma_focus_requests(
    state: FocusState,
    props: FocusProps,
    context: u64,
    new_id: FocusId,
    parent: Option<FocusId>,
)
    ensures
        ({
            let asked = state.ops(props, Some(context), new_id, parent);
            let id = if state.id is Some {
                state.id->0
            } else {
                new_id
            };
            let count = asked.len() as int;
            &&& count >= 2
            &&& asked[count - 1] == (FocusOp::NoteRenderPosition { context, id })
            &&& asked[count - 2] == (FocusOp::SetParent { context, id, parent })
            &&& state.id is None ==> asked[0] == (FocusOp::Register {
                context,
                id: new_id,
                auto_focus: props.auto_focus,
                is_active: props.active(),
            })
            &&& state.id is None ==> count == if props.tabbable() != props.active() {
                4int
            } else {
                3
            }
            &&& state.id is None && count == 4 ==> asked[1] == (FocusOp::SetTabbable {
                context,
                id,
                tabbable: props.tabbable(),
            })
            &&& state.id is Some && state.active != props.active() ==> asked[0] == (
            FocusOp::SetActive { context, id, active: props.active() })
            &&& state.id is Some && state.tabbable != props.tabbable() ==> asked[count - 3] == (
            FocusOp::SetTabbable { context, id, tabbable: props.tabbable() })
            &&& state.id is Some && state.active == props.active() && state.tabbable
                == props.tabbable() ==> count == 2
        }),
        state.context is Some && state.id is Some ==> state.ops(props, None, new_id, parent)
            == seq![FocusOp::Unregister { context: state.context->0, id: state.id->0 }],
        state.context is None || state.id is None ==> state.ops(
            props,
            None,
            new_id,
            parent,
        ).len() == 0,
{
}

} // verus!
