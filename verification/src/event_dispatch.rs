//! The order in which the handlers of an event run: capture handlers of the
//! ancestors from the outermost in, the handlers of the target, and the bubble
//! handlers of the ancestors from the innermost out.

use crate::event::{KeyEventKind, TerminalEvent};
use crate::view_event::{
    EventFlags, EventRoute, FocusId, ViewEventPhase, ViewId, ViewKeyboardEvent, ViewPasteEvent,
};
use vstd::prelude::*;

verus! {

/// A handler of a view, named by a number.
#[derive(Clone, Copy, Debug, PartialEq, Eq, Structural)]
pub struct ViewCaptureHandler {
    /// The focus entry of the view.
    pub focus_id: Option<FocusId>,
    /// The view.
    pub view_id: ViewId,
    /// The handler.
    pub handler: u64,
}

/// A call of a handler.
#[derive(Clone, Copy, Debug, PartialEq, Eq, Structural)]
pub struct Delivery {
    /// The handler to call.
    pub handler: ViewCaptureHandler,
    /// The phase in which it runs.
    pub phase: ViewEventPhase,
}

impl Delivery {
    /// Where an event is when this handler runs.
    pub fn route(&self, target: Option<FocusId>, target_view: Option<ViewId>) -> (r: EventRoute)
        ensures
            r == (EventRoute {
                target,
                current_target: self.handler.focus_id,
                target_view,
                current_target_view: Some(self.handler.view_id),
                phase: self.phase,
            }),
    {
        EventRoute {
            target,
            current_target: self.handler.focus_id,
            target_view,
            current_target_view: Some(self.handler.view_id),
            phase: self.phase,
        }
    }
}

/// How far a dispatch has come.
#[derive(Clone, Copy, Debug, PartialEq, Eq, Structural)]
pub enum DispatchStage {
    /// This many capture handlers of ancestors have run.
    Capturing(usize),
    /// The capture handler of the target has run.
    Target,
    /// This many bubble handlers of ancestors are left.
    Bubbling(usize),
    /// No handler is left.
    Finished,
}

/// The handlers of one event.
pub struct ChainModel {
    /// Capture handlers of the ancestors, outermost first.
    pub captures: Seq<ViewCaptureHandler>,
    /// The capture handler of the target.
    pub target_capture: Option<ViewCaptureHandler>,
    /// The handler of the target.
    pub target_handler: Option<ViewCaptureHandler>,
    /// Bubble handlers of the ancestors, outermost first.
    pub bubbles: Seq<ViewCaptureHandler>,
}

impl ChainModel {
    /// Whether there is a handler.
    pub open spec fn has_handlers(self) -> bool {
        ||| self.captures.len() > 0
        ||| self.target_capture is Some
        ||| self.target_handler is Some
        ||| self.bubbles.len() > 0
    }

    /// The next bubble handler of an ancestor, of which `count` are left.
    pub open spec fn bubbling(self, count: int, flags: EventFlags) -> (
        Option<Delivery>,
        DispatchStage,
    ) {
        if count > 0 && !flags.halted() {
            (
                Some(
                    Delivery {
                        handler: self.bubbles[count - 1],
                        phase: ViewEventPhase::Bubbling,
                    },
                ),
                DispatchStage::Bubbling((count - 1) as usize),
            )
        } else {
            (None, DispatchStage::Finished)
        }
    }

    /// The handler of the target, once the target was reached: only a handler that
    /// stops everything keeps the event from it.
    pub open spec fn at_target(self, flags: EventFlags) -> (Option<Delivery>, DispatchStage) {
        if self.target_handler is Some && !flags.immediate_stopped {
            (
                Some(
                    Delivery {
                        handler: self.target_handler->0,
                        phase: ViewEventPhase::AtTarget,
                    },
                ),
                DispatchStage::Bubbling(self.bubbles.len() as usize),
            )
        } else {
            self.bubbling(self.bubbles.len() as int, flags)
        }
    }

    /// The next handler after `count` capture handlers of ancestors.
    pub open spec fn capturing(self, count: int, flags: EventFlags) -> (
        Option<Delivery>,
        DispatchStage,
    ) {
        if flags.halted() {
            (None, DispatchStage::Finished)
        } else if count < self.captures.len() {
            (
                Some(
                    Delivery {
                        handler: self.captures[count],
                        phase: ViewEventPhase::Capturing,
                    },
                ),
                DispatchStage::Capturing((count + 1) as usize),
            )
        } else if self.target_capture is Some {
            (
                Some(
                    Delivery {
                        handler: self.target_capture->0,
                        phase: ViewEventPhase::AtTarget,
                    },
                ),
                DispatchStage::Target,
            )
        } else {
            self.at_target(flags)
        }
    }

    /// The next handler, and how far the dispatch has come with it.
    pub open spec fn next(self, stage: DispatchStage, flags: EventFlags) -> (
        Option<Delivery>,
        DispatchStage,
    ) {
        match stage {
            DispatchStage::Capturing(count) => self.capturing(count as int, flags),
            DispatchStage::Target => self.at_target(flags),
            DispatchStage::Bubbling(count) => self.bubbling(count as int, flags),
            DispatchStage::Finished => (None, DispatchStage::Finished),
        }
    }

    /// Whether a stage is one that the dispatch can come to.
    pub open spec fn valid(self, stage: DispatchStage) -> bool {
        match stage {
            DispatchStage::Capturing(count) => count <= self.captures.len(),
            DispatchStage::Bubbling(count) => count <= self.bubbles.len(),
            _ => true,
        }
    }

    /// How many handlers are left at most.
    pub open spec fn left(self, stage: DispatchStage) -> int {
        match stage {
            DispatchStage::Capturing(count) => self.captures.len() - count + self.bubbles.len() + 3,
            DispatchStage::Target => self.bubbles.len() as int + 2,
            DispatchStage::Bubbling(count) => count as int + 1,
            DispatchStage::Finished => 0,
        }
    }

    /// The handlers that run from a stage on where none of them asks for anything.
    pub open spec fn undisturbed(self, stage: DispatchStage) -> Seq<Delivery>
        decreases self.left(stage),
        when self.valid(stage) && self.captures.len() < usize::MAX && self.bubbles.len()
            <= usize::MAX
    {
        let step = self.next(stage, EventFlags::none());
        match step.0 {
            Some(delivery) => seq![delivery] + self.undisturbed(step.1),
            None => Seq::empty(),
        }
    }
}

/// The order of all handlers of an event.
pub open spec fn full_order(chain: ChainModel) -> Seq<Delivery> {
    chain.captures.map_values(
        |handler: ViewCaptureHandler| Delivery { handler, phase: ViewEventPhase::Capturing },
    ) + (match chain.target_capture {
        Some(handler) => seq![Delivery { handler, phase: ViewEventPhase::AtTarget }],
        None => Seq::empty(),
    }) + (match chain.target_handler {
        Some(handler) => seq![Delivery { handler, phase: ViewEventPhase::AtTarget }],
        None => Seq::empty(),
    }) + chain.bubbles.reverse().map_values(
        |handler: ViewCaptureHandler| Delivery { handler, phase: ViewEventPhase::Bubbling },
    )
}

proof fn lemma_bubbles_in_order(chain: ChainModel, count: int)
    requires
        0 <= count <= chain.bubbles.len() <= usize::MAX,
        chain.captures.len() < usize::MAX,
    ensures
        chain.undisturbed(DispatchStage::Bubbling(count as usize)) == chain.bubbles.take(
            count,
        ).reverse().map_values(
            |handler: ViewCaptureHandler| Delivery { handler, phase: ViewEventPhase::Bubbling },
        ),
    decreases count,
{
    let order = chain.bubbles.take(count).reverse().map_values(
        |handler: ViewCaptureHandler| Delivery { handler, phase: ViewEventPhase::Bubbling },
    );
    let stage = DispatchStage::Bubbling(count as usize);
    if count > 0 {
        lemma_bubbles_in_order(chain, count - 1);
        let rest = chain.bubbles.take(count - 1).reverse().map_values(
            |handler: ViewCaptureHandler| Delivery { handler, phase: ViewEventPhase::Bubbling },
        );
        assert(order =~= seq![
            Delivery { handler: chain.bubbles[count - 1], phase: ViewEventPhase::Bubbling },
        ] + rest);
    } else {
        assert(chain.undisturbed(stage) =~= order);
    }
}

proof fn lemma_captures_in_order(chain: ChainModel, count: int)
    requires
        0 <= count <= chain.captures.len() < usize::MAX,
        chain.bubbles.len() <= usize::MAX,
    ensures
        chain.undisturbed(DispatchStage::Capturing(count as usize)) == full_order(
            ChainModel { captures: chain.captures.skip(count), ..chain },
        ),
    decreases chain.captures.len() - count,
{
    let stage = DispatchStage::Capturing(count as usize);
    let here = ChainModel { captures: chain.captures.skip(count), ..chain };
    if count < chain.captures.len() {
        lemma_captures_in_order(chain, count + 1);
        let next = ChainModel { captures: chain.captures.skip(count + 1), ..chain };
        assert(full_order(here) =~= seq![
            Delivery { handler: chain.captures[count], phase: ViewEventPhase::Capturing },
        ] + full_order(next));
    } else {
        let all = chain.bubbles.len() as int;
        lemma_bubbles_in_order(chain, all);
        assert(chain.bubbles.take(all) =~= chain.bubbles);
        let bubbling = chain.undisturbed(DispatchStage::Bubbling(all as usize));
        let target = chain.undisturbed(DispatchStage::Target);
        if chain.target_handler is Some {
            assert(target == seq![
                Delivery { handler: chain.target_handler->0, phase: ViewEventPhase::AtTarget },
            ] + bubbling);
        } else {
            assert(target == bubbling);
        }
        if chain.target_capture is Some {
            assert(chain.undisturbed(stage) == seq![
                Delivery { handler: chain.target_capture->0, phase: ViewEventPhase::AtTarget },
            ] + target);
        } else {
            assert(chain.undisturbed(stage) == target);
        }
        assert(full_order(here) =~= chain.undisturbed(stage));
    }
}

/// Where no handler asks for anything, the capture handlers of the ancestors run from
/// the outermost in, then those of the target, then the bubble handlers of the
/// ancestors from the innermost out.
pub proof fn lemma_undisturbed_order(chain: ChainModel)
    requires
        chain.captures.len() < usize::MAX,
        chain.bubbles.len() <= usize::MAX,
    ensures
        chain.undisturbed(DispatchStage::Capturing(0)) == full_order(chain),
{
    lemma_captures_in_order(chain, 0);
    assert(chain.captures.skip(0) =~= chain.captures);
}

/// After a handler has stopped everything no other handler runs.
pub proof fn lemma_immediate_stop_ends_dispatch(
    chain: ChainModel,
    stage: DispatchStage,
    flags: EventFlags,
)
    requires
        flags.immediate_stopped,
    ensures
        chain.next(stage, flags) == (None::<Delivery>, DispatchStage::Finished),
{
}

/// A capture handler of an ancestor that stops the event keeps it from its target.
pub proof fn lemma_stop_before_target_ends_dispatch(
    chain: ChainModel,
    count: usize,
    flags: EventFlags,
)
    requires
        flags.stopped,
    ensures
        chain.next(DispatchStage::Capturing(count), flags) == (
            None::<Delivery>,
            DispatchStage::Finished,
        ),
{
}

/// A capture handler of the target that stops the event keeps it from the ancestors,
/// but not from the other handler of the target.
pub proof fn lemma_stop_at_target_reaches_target(chain: ChainModel, flags: EventFlags)
    requires
        flags.stopped,
        !flags.immediate_stopped,
    ensures
        ({
            let step = chain.next(DispatchStage::Target, flags);
            &&& chain.target_handler matches Some(handler) ==> step.0 == Some(
                Delivery { handler, phase: ViewEventPhase::AtTarget },
            )
            &&& chain.target_handler is None ==> step.0 is None
            &&& chain.next(step.1, flags).0 is None
        }),
{
}

/// The handlers of one event, and how far its dispatch has come.
#[derive(Debug)]
pub struct EventDispatch {
    captures: Vec<ViewCaptureHandler>,
    target_capture: Option<ViewCaptureHandler>,
    target_handler: Option<ViewCaptureHandler>,
    bubbles: Vec<ViewCaptureHandler>,
    stage: DispatchStage,
}

impl EventDispatch {
    /// The handlers.
    pub closed spec fn chain(self) -> ChainModel {
        ChainModel {
            captures: self.captures@,
            target_capture: self.target_capture,
            target_handler: self.target_handler,
            bubbles: self.bubbles@,
        }
    }

    /// How far the dispatch has come.
    pub closed spec fn at(self) -> DispatchStage {
        self.stage
    }

    /// The dispatch is at a place that it can come to.
    pub open spec fn wf(self) -> bool {
        self.chain().valid(self.at())
    }

    /// A dispatch of which no handler has run.
    pub fn new(
        captures: Vec<ViewCaptureHandler>,
        target_capture: Option<ViewCaptureHandler>,
        target_handler: Option<ViewCaptureHandler>,
        bubbles: Vec<ViewCaptureHandler>,
    ) -> (r: Self)
        ensures
            r.chain() == (ChainModel {
                captures: captures@,
                target_capture,
                target_handler,
                bubbles: bubbles@,
            }),
            r.at() == DispatchStage::Capturing(0),
            r.wf(),
    {
        EventDispatch {
            captures,
            target_capture,
            target_handler,
            bubbles,
            stage: DispatchStage::Capturing(0),
        }
    }

    /// The next handler to run, given what the handlers so far have asked.
    pub fn next(&mut self, flags: EventFlags) -> (delivery: Option<Delivery>)
        requires
            old(self).wf(),
        ensures
            (delivery, final(self).at()) == old(self).chain().next(old(self).at(), flags),
            final(self).chain() == old(self).chain(),
            final(self).wf(),
    {
        let halted = flags.stopped || flags.immediate_stopped;
        let mut bubbling: Option<usize> = None;
        let mut at_target = false;
        match self.stage {
            DispatchStage::Capturing(count) => {
                if halted {
                    self.stage = DispatchStage::Finished;
                    return None;
                }
                if count < self.captures.len() {
                    self.stage = DispatchStage::Capturing(count + 1);
                    return Some(
                        Delivery {
                            handler: self.captures[count],
                            phase: ViewEventPhase::Capturing,
                        },
                    );
                }
                if let Some(handler) = self.target_capture {
                    self.stage = DispatchStage::Target;
                    return Some(Delivery { handler, phase: ViewEventPhase::AtTarget });
                }
                at_target = true;
            },
            DispatchStage::Target => {
                at_target = true;
            },
            DispatchStage::Bubbling(count) => {
                bubbling = Some(count);
            },
            DispatchStage::Finished => {},
        }
        if at_target {
            bubbling = Some(self.bubbles.len());
            if let Some(handler) = self.target_handler {
                if !flags.immediate_stopped {
                    self.stage = DispatchStage::Bubbling(self.bubbles.len());
                    return Some(Delivery { handler, phase: ViewEventPhase::AtTarget });
                }
            }
        }
        if let Some(count) = bubbling {
            if count > 0 && !halted {
                self.stage = DispatchStage::Bubbling(count - 1);
                return Some(
                    Delivery {
                        handler: self.bubbles[count - 1],
                        phase: ViewEventPhase::Bubbling,
                    },
                );
            }
        }
        self.stage = DispatchStage::Finished;
        None
    }
}

/// What a dispatched event asks of the event of the terminal.
#[derive(Clone, Copy, Debug, PartialEq, Eq, Structural)]
pub struct EventEffects {
    /// Its default action is not to be taken.
    pub prevent_default: bool,
    /// Other components are not to see it.
    pub stop_component_propagation: bool,
}

/// What a dispatched event asks of the event of the terminal.
pub fn event_effects(flags: EventFlags) -> (r: EventEffects)
    ensures
        r == (EventEffects {
            prevent_default: flags.default_prevented,
            stop_component_propagation: flags.stopped,
        }),
{
    EventEffects {
        prevent_default: flags.default_prevented,
        stop_component_propagation: flags.stopped,
    }
}

/// The key event that a focused view dispatches: none for a release, nor without the
/// focus. It starts out with its default action prevented where that of the event of
/// the terminal is.
pub fn keyboard_event(focused: bool, event: &TerminalEvent, default_prevented: bool) -> (r: Option<
    ViewKeyboardEvent,
>)
    ensures
        r is Some == (focused && *event is Key && event->Key_0.kind != KeyEventKind::Release),
        r matches Some(key_event) ==> {
            &&& key_event.reports(event->Key_0)
            &&& key_event.route == EventRoute::nowhere()
            &&& key_event.flags == (EventFlags { default_prevented, ..EventFlags::none() })
        },
        !focused ==> r is None,
        *event matches TerminalEvent::Key(key) ==> {
            &&& key.kind == KeyEventKind::Release ==> r is None
            &&& focused && key.kind == KeyEventKind::Press ==> r is Some && r->0.code == key.code
            &&& focused && key.kind == KeyEventKind::Repeat ==> r is Some && r->0.code == key.code
        },
{
    if !focused {
        return None;
    }
    match event {
        TerminalEvent::Key(key) => {
            if key.kind == KeyEventKind::Release {
                return None;
            }
            let mut key_event = ViewKeyboardEvent::new(key);
            if default_prevented {
                key_event.prevent_default();
            }
            Some(key_event)
        },
        _ => None,
    }
}

/// The paste event that a focused view dispatches.
pub fn paste_event(focused: bool, event: &TerminalEvent, default_prevented: bool) -> (r: Option<
    ViewPasteEvent,
>)
    ensures
        r is Some == (focused && *event is Paste),
        r matches Some(paste) ==> {
            &&& paste.event_type@ == "paste"@
            &&& paste.bubbles
            &&& paste.cancelable
            &&& paste.text@ == event->Paste_0@
            &&& paste.route == EventRoute::nowhere()
            &&& paste.flags == (EventFlags { default_prevented, ..EventFlags::none() })
        },
{
    if !focused {
        return None;
    }
    match event {
        TerminalEvent::Paste(text) => {
            let mut paste = ViewPasteEvent::new(text.as_str());
            if default_prevented {
                paste.prevent_default();
            }
            Some(paste)
        },
        _ => None,
    }
}

/// Only a handler that stops the event changes its way: to prevent the default action does not.
pub proof fn lemma_only_stopping_ends_dispatch(
    chain: ChainModel,
    stage: DispatchStage,
    flags: EventFlags,
)
    requires
        !flags.stopped,
        !flags.immediate_stopped,
    ensures
        chain.next(stage, flags) == chain.next(
            stage,
            EventFlags { stopped: false, immediate_stopped: false, default_prevented: false },
        ),
{
}

/// A handler of the target or of an ancestor that stops the event keeps it from all ancestors
/// that are further out.
pub proof fn lemma_stop_while_bubbling_ends_dispatch(
    chain: ChainModel,
    count: usize,
    flags: EventFlags,
)
    requires
        flags.stopped || flags.immediate_stopped,
    ensures
        chain.next(DispatchStage::Bubbling(count), flags) == (
            None::<Delivery>,
            DispatchStage::Finished,
        ),
{
}

/// The handlers of an event in their order: the capture handlers of the ancestors as they are
/// listed, the capture handler and the handler of the target, and the bubble handlers of the
/// ancestors from the last listed to the first.
pub proof fn lemma_order_of_handlers(chain: ChainModel, i: int)
    ensures
        ({
            let order = full_order(chain);
            let first: int = chain.captures.len() as int;
            let second: int = first + if chain.target_capture is Some {
                1int
            } else {
                0
            };
            let third: int = second + if chain.target_handler is Some {
                1int
            } else {
                0
            };
            let end: int = third + chain.bubbles.len();
            &&& order.len() == end
            &&& 0 <= i < first ==> order[i].handler == chain.captures[i] && order[i].phase
                == ViewEventPhase::Capturing
            &&& first <= i < second ==> Some(order[i].handler) == chain.target_capture
                && order[i].phase == ViewEventPhase::AtTarget
            &&& second <= i < third ==> Some(order[i].handler) == chain.target_handler
                && order[i].phase == ViewEventPhase::AtTarget
            &&& third <= i < end ==> order[i].handler == chain.bubbles[end - 1 - i]
                && order[i].phase == ViewEventPhase::Bubbling
        }),
{
}

} // verus!
