//! What a view hands down to the views inside of it.

use crate::event_dispatch::ViewCaptureHandler;
use crate::view_event::{FocusId, ViewId};
use vstd::prelude::*;

verus! {

/// A list of handlers that grows from the outermost view inwards.
pub type HandlerList = Vec<ViewCaptureHandler>;

/// What a view knows of the views around it: the focus entry and the view that are
/// next to it, and the handlers of all of them.
#[derive(Debug)]
pub struct ViewFocusParentContext {
    /// The focus entry around the view.
    pub id: Option<FocusId>,
    /// The view around the view.
    pub view_id: Option<ViewId>,
    /// Whether the views of one frame share their registry across siblings.
    pub shared_root_event_context: bool,
    /// Capture handlers for getting the focus.
    pub focus_capture_handlers: HandlerList,
    /// Handlers for getting the focus.
    pub focus_handlers: HandlerList,
    /// Capture handlers for losing the focus.
    pub blur_capture_handlers: HandlerList,
    /// Handlers for losing the focus.
    pub blur_handlers: HandlerList,
    /// Capture handlers for keys.
    pub key_down_capture_handlers: HandlerList,
    /// Handlers for keys.
    pub key_down_handlers: HandlerList,
    /// Capture handlers for pasted text.
    pub paste_capture_handlers: HandlerList,
    /// Handlers for pasted text.
    pub paste_handlers: HandlerList,
}

/// What a [`ViewFocusParentContext`] holds.
pub struct ParentModel {
    pub id: Option<FocusId>,
    pub view_id: Option<ViewId>,
    pub shared_root_event_context: bool,
    pub focus_captures: Seq<ViewCaptureHandler>,
    pub focus: Seq<ViewCaptureHandler>,
    pub blur_captures: Seq<ViewCaptureHandler>,
    pub blur: Seq<ViewCaptureHandler>,
    pub key_captures: Seq<ViewCaptureHandler>,
    pub key: Seq<ViewCaptureHandler>,
    pub paste_captures: Seq<ViewCaptureHandler>,
    pub paste: Seq<ViewCaptureHandler>,
}

impl ParentModel {
    /// No view around.
    pub open spec fn outermost() -> ParentModel {
        ParentModel {
            id: None,
            view_id: None,
            shared_root_event_context: false,
            focus_captures: Seq::empty(),
            focus: Seq::empty(),
            blur_captures: Seq::empty(),
            blur: Seq::empty(),
            key_captures: Seq::empty(),
            key: Seq::empty(),
            paste_captures: Seq::empty(),
            paste: Seq::empty(),
        }
    }
}

impl View for ViewFocusParentContext {
    type V = ParentModel;

    open spec fn view(&self) -> ParentModel {
        ParentModel {
            id: self.id,
            view_id: self.view_id,
            shared_root_event_context: self.shared_root_event_context,
            focus_captures: self.focus_capture_handlers@,
            focus: self.focus_handlers@,
            blur_captures: self.blur_capture_handlers@,
            blur: self.blur_handlers@,
            key_captures: self.key_down_capture_handlers@,
            key: self.key_down_handlers@,
            paste_captures: self.paste_capture_handlers@,
            paste: self.paste_handlers@,
        }
    }
}

/// A copy of a list of handlers.
pub fn clone_handlers(handlers: &Vec<ViewCaptureHandler>) -> (copy: Vec<ViewCaptureHandler>)
    ensures
        copy@ == handlers@,
{
    let mut copy: Vec<ViewCaptureHandler> = Vec::new();
    let mut i: usize = 0;
    while i < handlers.len()
        invariant
            i <= handlers@.len(),
            copy@ == handlers@.take(i as int),
        decreases handlers@.len() - i,
    {
        copy.push(handlers[i]);
        i = i + 1;
        assert(copy@ =~= handlers@.take(i as int));
    }
    assert(handlers@.take(i as int) =~= handlers@);
    copy
}

/// A list of handlers with one more, if there is one.
pub open spec fn extended(
    handlers: Seq<ViewCaptureHandler>,
    handler: Option<ViewCaptureHandler>,
) -> Seq<ViewCaptureHandler> {
    match handler {
        Some(handler) => handlers.push(handler),
        None => handlers,
    }
}

/// A copy of a list of handlers with one more, if there is one.
pub fn extend_handlers(
    handlers: &Vec<ViewCaptureHandler>,
    handler: Option<ViewCaptureHandler>,
) -> (copy: Vec<ViewCaptureHandler>)
    ensures
        copy@ == extended(handlers@, handler),
{
    let mut copy = clone_handlers(handlers);
    if let Some(handler) = handler {
        copy.push(handler);
    }
    copy
}

impl Default for ViewFocusParentContext {
    fn default() -> (r: Self)
        ensures
            r@ == ParentModel::outermost(),
    {
        let r = ViewFocusParentContext {
            id: None,
            view_id: None,
            shared_root_event_context: false,
            focus_capture_handlers: Vec::new(),
            focus_handlers: Vec::new(),
            blur_capture_handlers: Vec::new(),
            blur_handlers: Vec::new(),
            key_down_capture_handlers: Vec::new(),
            key_down_handlers: Vec::new(),
            paste_capture_handlers: Vec::new(),
            paste_handlers: Vec::new(),
        };
        assert(r@.focus_captures =~= Seq::empty());
        r
    }
}

impl Clone for ViewFocusParentContext {
    fn clone(&self) -> (r: Self)
        ensures
            r@ == self@,
    {
        ViewFocusParentContext {
            id: self.id,
            view_id: self.view_id,
            shared_root_event_context: self.shared_root_event_context,
            focus_capture_handlers: clone_handlers(&self.focus_capture_handlers),
            focus_handlers: clone_handlers(&self.focus_handlers),
            blur_capture_handlers: clone_handlers(&self.blur_capture_handlers),
            blur_handlers: clone_handlers(&self.blur_handlers),
            key_down_capture_handlers: clone_handlers(&self.key_down_capture_handlers),
            key_down_handlers: clone_handlers(&self.key_down_handlers),
            paste_capture_handlers: clone_handlers(&self.paste_capture_handlers),
            paste_handlers: clone_handlers(&self.paste_handlers),
        }
    }
}

impl ViewFocusParentContext {
    /// The context of views that share their registry across siblings.
    pub fn shared_root() -> (r: Self)
        ensures
            r@ == (ParentModel { shared_root_event_context: true, ..ParentModel::outermost() }),
    {
        let mut context = ViewFocusParentContext::default();
        context.shared_root_event_context = true;
        context
    }

    /// The context for the views inside of a focus scope. A scope has a focus context of
    /// its own, in which the focus entries around it mean nothing; the views and the
    /// handlers around it stay known.
    pub fn for_nested_focus_scope(&self) -> (r: Self)
        ensures
            r@ == (ParentModel { id: None, ..self@ }),
    {
        let mut context = self.clone();
        context.id = None;
        context
    }
}

/// The handlers of a view stand behind those of the views around it; a view without a handler
/// adds none.
pub proof fn lemma_own_handler_is_innermost(
    handlers: Seq<ViewCaptureHandler>,
    handler: ViewCaptureHandler,
    i: int,
)
    ensures
        extended(handlers, None) == handlers,
        extended(handlers, Some(handler)).len() == handlers.len() + 1,
        extended(handlers, Some(handler))[handlers.len() as int] == handler,
        0 <= i < handlers.len() ==> extended(handlers, Some(handler))[i] == handlers[i],
{
}

} // verus!
