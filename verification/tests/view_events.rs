use iocraft::event::{
    FullscreenMouseEvent, KeyCode, KeyEvent, KeyEventKind, MouseButton, MouseEventKind, Rect,
    TerminalEvent,
};
use iocraft::boxes::{fragment_context, provide};
use iocraft::context::{Context, ContextStack, ContextType, ContextValue};
use iocraft::element::ElementNode;
use iocraft::event_dispatch::{
    event_effects, keyboard_event, paste_event, EventDispatch, ViewCaptureHandler,
};
use iocraft::focus_scope::{focus_action, FocusAction};
use iocraft::view::{FocusOp, View};
use iocraft::view_context::ViewFocusParentContext;
use iocraft::view_event::{
    EventFlags, FocusChange, FocusId, ViewEventPhase, ViewFocusEvent, ViewFocusEventKind, ViewId,
    ViewKeyboardEvent, ViewPasteEvent,
};
use iocraft::view_props::{FocusProps, ViewHandlers, ViewProps};
use iocraft::view_registry::{ClickDispatch, ClickOutcome, FocusTarget, ViewRegistry};

const CONTEXT: u64 = 1;

fn mouse(kind: MouseEventKind, column: u16, row: u16) -> FullscreenMouseEvent {
    FullscreenMouseEvent::new(kind, column, row)
}

fn press(column: u16, row: u16) -> FullscreenMouseEvent {
    mouse(MouseEventKind::Down(MouseButton::Left), column, row)
}

fn release(column: u16, row: u16) -> FullscreenMouseEvent {
    mouse(MouseEventKind::Up(MouseButton::Left), column, row)
}

fn drag(column: u16, row: u16) -> FullscreenMouseEvent {
    mouse(MouseEventKind::Drag(MouseButton::Left), column, row)
}

fn key(code: KeyCode) -> TerminalEvent {
    TerminalEvent::Key(KeyEvent::new(KeyEventKind::Press, code))
}

/// A view with what it was asked for, and what is around it.
struct Shown {
    view: View,
    focus: FocusProps,
    handlers: ViewHandlers,
    parent: ViewFocusParentContext,
}

/// The views of a screen, with the focus among them.
struct App {
    registry: ViewRegistry,
    views: Vec<Shown>,
    entries: Vec<(FocusId, bool, bool)>,
    focused: Option<FocusId>,
}

impl App {
    fn new() -> App {
        App {
            registry: ViewRegistry::new(),
            views: Vec::new(),
            entries: Vec::new(),
            focused: None,
        }
    }

    /// Shows a view at some cells, and returns what it hands down.
    fn show(
        &mut self,
        parent: &ViewFocusParentContext,
        scoped: bool,
        cells: (i16, i16, u16, u16),
        focus: FocusProps,
        handlers: ViewHandlers,
    ) -> ViewFocusParentContext {
        let number = self.views.len() as u64 + 1;
        let mut view = View::new(ViewId(number));
        view.update_style(&ViewProps::default());
        let context = if scoped { Some(CONTEXT) } else { None };
        for op in view.update_focus(focus, context, FocusId(number + 100), parent.id) {
            match op {
                FocusOp::Register { id, auto_focus, is_active, .. } => {
                    self.entries.push((id, is_active, is_active));
                    if auto_focus && self.focused.is_none() {
                        self.focused = Some(id);
                    }
                }
                FocusOp::SetTabbable { id, tabbable, .. } => {
                    for entry in &mut self.entries {
                        if entry.0 == id {
                            entry.2 = tabbable;
                        }
                    }
                }
                _ => {}
            }
        }
        view.try_draw(cells.0, cells.1, cells.2, cells.3, false).unwrap();
        self.registry.register(view.record(parent, focus, handlers));
        let handed_down = view.child_context(handlers, parent);
        self.views.push(Shown {
            view,
            focus,
            handlers,
            parent: parent.clone(),
        });
        handed_down
    }

    /// Hands a mouse event to every view, innermost last, and returns the click it makes.
    fn point(&mut self, event: &FullscreenMouseEvent) -> Option<ClickOutcome> {
        let mut made = None;
        for shown in &mut self.views {
            let mut pending = shown.view.pending_click();
            let outcome = self
                .registry
                .click(shown.view.view_id(), &mut pending, event);
            shown.view.set_pending_click(pending);
            if outcome.is_some() {
                made = outcome;
            }
        }
        if let Some(ClickOutcome { focus: Some(target), .. }) = &made {
            self.focused = Some(target.id);
        }
        made
    }

    /// The handlers that a press and a release at one cell call.
    fn click(&mut self, column: u16, row: u16) -> Vec<u64> {
        self.point(&press(column, row));
        let outcome = self.point(&release(column, row));
        outcome.map_or(Vec::new(), |outcome| {
            outcome.deliveries.iter().map(|delivery| delivery.handler).collect()
        })
    }

    fn focused_view(&self) -> Option<usize> {
        self.views
            .iter()
            .position(|shown| self.focused == Some(FocusId(shown.view.view_id().0 + 100)))
    }

    /// Dispatches a key to the view that has the focus.
    fn press_key(
        &self,
        event: &TerminalEvent,
        call: &mut dyn FnMut(u64, &mut ViewKeyboardEvent),
    ) -> EventFlags {
        let Some(at) = self.focused_view() else {
            return EventFlags::new();
        };
        let shown = &self.views[at];
        let Some(mut key) = keyboard_event(true, event, false) else {
            return EventFlags::new();
        };
        let mut dispatch = shown.view.key_dispatch(shown.handlers, &shown.parent);
        let mut next = dispatch.next(key.flags);
        while let Some(delivery) = next {
            key = key.for_dispatch(delivery.route(self.focused, Some(shown.view.view_id())));
            call(delivery.handler.handler, &mut key);
            next = dispatch.next(key.flags);
        }
        key.flags
    }

    fn paste(
        &self,
        text: &str,
        call: &mut dyn FnMut(u64, &mut ViewPasteEvent),
    ) -> EventFlags {
        let shown = &self.views[self.focused_view().unwrap()];
        let event = TerminalEvent::Paste(text.to_string());
        let mut paste = paste_event(true, &event, false).unwrap();
        let mut dispatch = shown.view.paste_dispatch(shown.handlers, &shown.parent);
        let mut next = dispatch.next(paste.flags);
        while let Some(delivery) = next {
            paste = paste.for_dispatch(delivery.route(self.focused, Some(shown.view.view_id())));
            call(delivery.handler.handler, &mut paste);
            next = dispatch.next(paste.flags);
        }
        paste.flags
    }

    /// Tells the views where the focus is.
    fn settle(&mut self, change: Option<FocusChange>, call: &mut dyn FnMut(u64, &mut ViewFocusEvent)) {
        for shown in &mut self.views {
            let has_focus = self.focused == Some(FocusId(shown.view.view_id().0 + 100));
            let told = shown
                .view
                .update_focused(has_focus, shown.handlers, &shown.parent, change);
            if let Some(told) = told {
                let mut event = told.event;
                let mut dispatch = told.dispatch;
                let mut next = dispatch.next(event.flags);
                while let Some(delivery) = next {
                    event = event.for_dispatch(
                        delivery.phase,
                        delivery.handler.focus_id,
                        Some(delivery.handler.view_id),
                    );
                    call(delivery.handler.handler, &mut event);
                    next = dispatch.next(event.flags);
                }
            }
        }
    }

    /// Moves the focus as a key asks, unless its default action was prevented.
    fn default_action(&mut self, event: &TerminalEvent, flags: EventFlags) -> Option<FocusChange> {
        if event_effects(flags).prevent_default {
            return None;
        }
        let previous = self.focused;
        match focus_action(true, event) {
            Some(FocusAction::FocusNext) => {
                let tabbable: Vec<FocusId> = self
                    .entries
                    .iter()
                    .filter(|entry| entry.1 && entry.2)
                    .map(|entry| entry.0)
                    .collect();
                let at = tabbable.iter().position(|id| Some(*id) == previous);
                self.focused = tabbable
                    .get(at.map_or(0, |at| (at + 1) % tabbable.len()))
                    .copied();
            }
            Some(FocusAction::Clear) => self.focused = None,
            _ => return None,
        }
        Some(FocusChange {
            previous,
            current: self.focused,
        })
    }
}

fn outside() -> ViewFocusParentContext {
    ViewFocusParentContext::default()
}

fn unfocusable() -> FocusProps {
    FocusProps::default()
}

fn focusable() -> FocusProps {
    FocusProps {
        focusable: true,
        ..FocusProps::default()
    }
}

fn auto_focused() -> FocusProps {
    FocusProps {
        auto_focus: true,
        ..focusable()
    }
}

fn on_click(handler: u64) -> ViewHandlers {
    ViewHandlers {
        on_click: Some(handler),
        ..ViewHandlers::default()
    }
}

fn on_key_down(handler: u64) -> ViewHandlers {
    ViewHandlers {
        on_key_down: Some(handler),
        ..ViewHandlers::default()
    }
}

const CHILD: u64 = 10;
const PARENT: u64 = 20;

fn click_app() -> App {
    let mut app = App::new();
    let inside = app.show(&outside(), false, (0, 0, 6, 1), unfocusable(), on_click(PARENT));
    app.show(&inside, false, (0, 0, 3, 1), unfocusable(), on_click(CHILD));
    app
}

#[test]
fn test_view_terminal_event_metadata_matches_ink_defaults() {
    let mut key =
        ViewKeyboardEvent::new(&KeyEvent::new(KeyEventKind::Press, KeyCode::Char('a')));
    assert_eq!(key.event_type, "keydown");
    assert!(key.bubbles);
    assert!(key.cancelable);
    key.prevent_default();
    assert!(key.default_prevented());

    let mut paste = ViewPasteEvent::new("hello");
    assert_eq!(paste.event_type, "paste");
    assert!(paste.bubbles);
    assert!(paste.cancelable);
    paste.prevent_default();
    assert!(paste.default_prevented());
}

#[test]
fn test_view_on_click_bubbles_to_ancestors() {
    assert_eq!(click_app().click(1, 0), vec![CHILD, PARENT]);
}

#[test]
fn test_view_on_click_can_stop_bubbling_to_ancestors() {
    let mut app = click_app();
    app.point(&press(1, 0));
    let outcome = app.point(&release(1, 0)).unwrap();
    assert!(outcome.stops_propagation);
    let mut called = Vec::new();
    let mut dispatch = ClickDispatch::new(outcome.deliveries);
    let mut stopped = false;
    while let Some(delivery) = dispatch.next(stopped) {
        let mut event = delivery.event;
        called.push(delivery.handler);
        event.stop_immediate_propagation();
        stopped = event.did_stop_immediate_propagation();
    }
    assert_eq!(called, vec![CHILD]);
    assert!(dispatch.next(false).is_none(), "a click that was stopped does not go on");
}

#[test]
fn test_view_on_click_ignores_drag_between_press_and_release() {
    let mut app = App::new();
    app.show(&outside(), false, (0, 0, 12, 1), unfocusable(), on_click(CHILD));
    app.point(&press(1, 0));
    assert!(app.point(&drag(2, 0)).is_none());
    assert!(app.point(&release(2, 0)).is_none());
}

fn click_focus_app() -> App {
    let mut app = App::new();
    let inside = app.show(&outside(), true, (0, 0, 8, 2), unfocusable(), ViewHandlers::default());
    app.show(&inside, true, (0, 0, 8, 1), auto_focused(), on_key_down(1));
    app.show(&inside, true, (0, 1, 8, 1), focusable(), on_key_down(2));
    app
}

fn key_target(app: &App) -> Vec<u64> {
    let mut called = Vec::new();
    app.press_key(&key(KeyCode::Char('x')), &mut |handler, event| {
        if event.key == "x" {
            called.push(handler);
        }
    });
    called
}

#[test]
fn test_view_click_to_focus_happens_on_release_click() {
    let mut app = click_focus_app();
    assert_eq!(key_target(&app), vec![1]);
    app.point(&press(0, 1));
    assert_eq!(key_target(&app), vec![1], "a press alone focuses nothing");
    app.point(&release(0, 1));
    assert_eq!(key_target(&app), vec![2]);
}

#[test]
fn test_view_drag_does_not_click_to_focus() {
    let mut app = click_focus_app();
    app.point(&press(0, 1));
    app.point(&drag(1, 1));
    app.point(&release(1, 1));
    assert_eq!(key_target(&app), vec![1]);
}

#[test]
fn test_view_on_click_reports_screen_and_local_coordinates() {
    let mut app = App::new();
    let inside = app.show(&outside(), false, (0, 0, 26, 1), unfocusable(), ViewHandlers::default());
    app.show(&inside, false, (2, 0, 24, 1), unfocusable(), on_click(CHILD));
    app.point(&press(3, 0));
    let outcome = app.point(&release(3, 0)).unwrap();
    let event = outcome.deliveries[0].event;
    assert_eq!(
        (event.column, event.row, event.local_column, event.local_row),
        (3, 0, 1, 0)
    );
}

#[test]
fn test_view_on_click_reports_blank_cell_from_retained_canvas() {
    let mut app = App::new();
    app.show(&outside(), false, (0, 0, 12, 1), unfocusable(), on_click(CHILD));
    app.point(&press(4, 0));
    let mut up = release(4, 0);
    up.cell_is_blank = true;
    assert!(app.point(&up).unwrap().deliveries[0].event.cell_is_blank);
}

#[test]
fn test_view_on_click_bubbles_from_child_target_to_parent_current_target() {
    let mut app = App::new();
    let inside = app.show(&outside(), false, (0, 0, 40, 1), unfocusable(), on_click(PARENT));
    app.show(&inside, false, (2, 0, 36, 1), unfocusable(), ViewHandlers::default());
    app.point(&press(2, 0));
    let outcome = app.point(&release(2, 0)).unwrap();
    let event = outcome.deliveries[0].event;
    assert_eq!(event.target, Some(ViewId(2)));
    assert_eq!(event.current_target, Some(ViewId(1)));
    assert_eq!(event.phase, ViewEventPhase::Bubbling);
    assert_eq!((event.local_column, event.local_row), (2, 0));
}

#[test]
fn test_view_click_bubbles_across_focus_scope_boundary() {
    let mut app = App::new();
    let around = app.show(&outside(), false, (0, 0, 10, 1), unfocusable(), on_click(PARENT));
    let inside = around.for_nested_focus_scope();
    app.show(&inside, true, (0, 0, 10, 1), unfocusable(), ViewHandlers::default());
    assert_eq!(app.click(1, 0), vec![PARENT]);
}

#[test]
fn test_view_on_click_prefers_topmost_later_sibling() {
    let mut app = App::new();
    let inside = app.show(&outside(), false, (0, 0, 8, 1), unfocusable(), ViewHandlers::default());
    app.show(&inside, false, (0, 0, 6, 1), unfocusable(), on_click(1));
    app.show(&inside, false, (0, 0, 6, 1), unfocusable(), on_click(2));
    assert_eq!(app.click(1, 0), vec![2]);
}

fn hovering(enter: u64, leave: Option<u64>) -> ViewHandlers {
    ViewHandlers {
        on_mouse_enter: Some(enter),
        on_mouse_leave: leave,
        ..ViewHandlers::default()
    }
}

#[test]
fn test_view_mouse_enter_leave_handlers() {
    let mut app = App::new();
    app.show(&outside(), false, (0, 0, 3, 1), unfocusable(), hovering(1, Some(2)));
    assert_eq!(app.registry.handle_pointer(&mouse(MouseEventKind::Moved, 1, 0)), vec![1]);
    assert_eq!(app.registry.handle_pointer(&mouse(MouseEventKind::Moved, 5, 0)), vec![2]);
}

#[test]
fn test_view_hover_state_persists_across_rerendered_root_context() {
    let mut app = App::new();
    app.show(&outside(), false, (0, 0, 8, 1), unfocusable(), hovering(1, None));
    assert_eq!(app.registry.handle_pointer(&mouse(MouseEventKind::Moved, 1, 0)), vec![1]);
    app.registry.begin_root_event_frame();
    let shown = &app.views[0];
    let record = shown.view.record(&shown.parent, shown.focus, shown.handlers);
    app.registry.register(record);
    assert!(app.registry.handle_pointer(&mouse(MouseEventKind::Moved, 1, 0)).is_empty());
}

#[test]
fn test_view_mouse_enter_prefers_topmost_later_sibling() {
    let mut app = App::new();
    let inside = app.show(&outside(), false, (0, 0, 10, 1), unfocusable(), ViewHandlers::default());
    app.show(&inside, false, (0, 0, 8, 1), unfocusable(), hovering(1, Some(2)));
    app.show(&inside, false, (0, 0, 8, 1), unfocusable(), hovering(3, Some(4)));
    assert_eq!(app.registry.handle_pointer(&mouse(MouseEventKind::Moved, 1, 0)), vec![3]);
    assert_eq!(app.registry.handle_pointer(&mouse(MouseEventKind::Moved, 9, 0)), vec![4]);
}

#[test]
fn test_view_on_resize_receives_terminal_size() {
    let handlers = ViewHandlers {
        on_resize: Some(5),
        ..ViewHandlers::default()
    };
    let (handler, event) = View::resize_call(handlers, &TerminalEvent::Resize(120, 40)).unwrap();
    assert_eq!((handler, event.columns, event.rows), (5, 120, 40));
    assert!(View::resize_call(ViewHandlers::default(), &TerminalEvent::Resize(1, 1)).is_none());
    assert!(View::resize_call(handlers, &key(KeyCode::Tab)).is_none());
}

#[test]
fn test_view_focusable_on_key_down() {
    let mut app = App::new();
    app.show(&outside(), true, (0, 0, 6, 1), auto_focused(), on_key_down(CHILD));
    let mut keys = 0;
    app.press_key(&key(KeyCode::Char('a')), &mut |_, event| {
        if event.code == KeyCode::Char('a') {
            keys += 1;
        }
    });
    assert_eq!(keys, 1);
}

#[test]
fn test_view_keyboard_event_can_stop_propagation() {
    let mut app = App::new();
    app.show(&outside(), true, (0, 0, 6, 1), auto_focused(), on_key_down(CHILD));
    let mut keys = 0;
    let flags = app.press_key(&key(KeyCode::Char('a')), &mut |_, event| {
        if event.key == "a" && !event.default_prevented() {
            event.prevent_default();
            event.stop_propagation();
            keys += 1;
        }
    });
    assert_eq!(keys, 1);
    assert!(event_effects(flags).stop_component_propagation);
    assert!(event_effects(flags).prevent_default);
}

#[test]
fn test_view_keyboard_event_bubbles_to_ancestor_not_sibling() {
    let mut app = App::new();
    let inside = app.show(&outside(), true, (0, 0, 3, 1), unfocusable(), on_key_down(PARENT));
    app.show(&inside, true, (0, 0, 3, 1), auto_focused(), ViewHandlers::default());
    app.show(&outside(), true, (3, 0, 7, 1), unfocusable(), on_key_down(30));
    let mut called = Vec::new();
    app.press_key(&key(KeyCode::Char('a')), &mut |handler, _| called.push(handler));
    assert_eq!(called, vec![PARENT]);
}

#[test]
fn test_view_keyboard_bubbles_across_focus_scope_boundary_with_view_targets() {
    let mut app = App::new();
    let around = app.show(&outside(), false, (0, 0, 9, 1), unfocusable(), on_key_down(PARENT));
    let inside = around.for_nested_focus_scope();
    app.show(&inside, true, (0, 0, 9, 1), auto_focused(), ViewHandlers::default());
    let mut keys = 0;
    app.press_key(&key(KeyCode::Char('a')), &mut |_, event| {
        if event.key == "a"
            && event.route.phase == ViewEventPhase::Bubbling
            && event.route.current_target.is_none()
            && event.route.target_view.is_some()
            && event.route.current_target_view.is_some()
            && event.route.target_view != event.route.current_target_view
        {
            keys += 1;
        }
    });
    assert_eq!(keys, 1);
}

/// An ancestor and a target with handlers of both kinds; 1 and 2 capture.
fn capture_app(handlers: fn(u64, u64) -> ViewHandlers) -> App {
    let mut app = App::new();
    let inside = app.show(&outside(), true, (0, 0, 9, 1), unfocusable(), handlers(1, 4));
    app.show(&inside, true, (0, 0, 9, 1), auto_focused(), handlers(2, 3));
    app
}

fn key_handlers(capture: u64, bubble: u64) -> ViewHandlers {
    ViewHandlers {
        on_key_down_capture: Some(capture),
        on_key_down: Some(bubble),
        ..ViewHandlers::default()
    }
}

fn paste_handlers(capture: u64, bubble: u64) -> ViewHandlers {
    ViewHandlers {
        on_paste_capture: Some(capture),
        on_paste: Some(bubble),
        ..ViewHandlers::default()
    }
}

fn focus_handlers(capture: u64, bubble: u64) -> ViewHandlers {
    ViewHandlers {
        on_focus_capture: Some(capture),
        on_focus: Some(bubble),
        ..ViewHandlers::default()
    }
}

#[test]
fn test_view_keyboard_capture_runs_before_target_and_bubble() {
    let app = capture_app(key_handlers);
    let mut log = Vec::new();
    app.press_key(&key(KeyCode::Char('a')), &mut |handler, event| {
        let at_target = event.route.target == event.route.current_target;
        assert!(event.route.target.is_some() && event.route.current_target.is_some());
        log.push((handler, event.route.phase, at_target));
    });
    assert_eq!(
        log,
        vec![
            (1, ViewEventPhase::Capturing, false),
            (2, ViewEventPhase::AtTarget, true),
            (3, ViewEventPhase::AtTarget, true),
            (4, ViewEventPhase::Bubbling, false),
        ]
    );
}

#[test]
fn test_view_keyboard_stop_propagation_allows_same_target_bubble() {
    let app = capture_app(key_handlers);
    let mut log = Vec::new();
    app.press_key(&key(KeyCode::Char('a')), &mut |handler, event| {
        if handler == 2 {
            event.stop_propagation();
        }
        log.push(handler);
    });
    assert_eq!(log, vec![1, 2, 3]);
}

#[test]
fn test_view_keyboard_stop_immediate_blocks_same_target_bubble() {
    let app = capture_app(key_handlers);
    let mut log = Vec::new();
    app.press_key(&key(KeyCode::Char('a')), &mut |handler, event| {
        if handler == 2 {
            event.stop_immediate_propagation();
        }
        log.push(handler);
    });
    assert_eq!(log, vec![1, 2]);
}

fn tab_app(first: ViewHandlers) -> App {
    let mut app = App::new();
    app.show(&outside(), true, (0, 0, 6, 1), auto_focused(), first);
    app.show(&outside(), true, (6, 0, 6, 1), focusable(), focus_handlers(8, 9));
    app
}

/// Presses Tab, and counts how often the second view is told of the focus.
fn press_tab(app: &mut App, call: &mut dyn FnMut(&mut ViewKeyboardEvent)) -> usize {
    app.settle(None, &mut |_, _| {});
    let tab = key(KeyCode::Tab);
    let flags = app.press_key(&tab, &mut |_, event| {
        if event.key == "tab" {
            call(event);
        }
    });
    let change = app.default_action(&tab, flags);
    let mut focuses = 0;
    app.settle(change, &mut |handler, _| {
        if handler == 9 {
            focuses += 1;
        }
    });
    focuses
}

#[test]
fn test_view_keyboard_event_prevent_default_blocks_focus_scope_tab() {
    let mut app = tab_app(on_key_down(1));
    let mut prevented = false;
    let focuses = press_tab(&mut app, &mut |event| {
        event.prevent_default();
        prevented = true;
    });
    assert!(prevented);
    assert_eq!(focuses, 0);
}

#[test]
fn test_view_keyboard_stop_propagation_does_not_block_focus_scope_tab_default() {
    let mut app = tab_app(key_handlers(1, 2));
    let mut stopped = false;
    let focuses = press_tab(&mut app, &mut |event| {
        event.stop_propagation();
        stopped = true;
    });
    assert!(stopped);
    assert_eq!(focuses, 1);
}

#[test]
fn test_view_keyboard_default_prevented_is_visible_to_ancestor_bubble() {
    let app = capture_app(key_handlers);
    let mut seen = None;
    app.press_key(&key(KeyCode::Char('a')), &mut |handler, event| match handler {
        3 => {
            event.prevent_default();
            assert!(event.default_prevented());
        }
        4 => seen = Some(event.default_prevented()),
        _ => {}
    });
    assert_eq!(seen, Some(true));
}

#[test]
fn test_view_paste_event_can_stop_propagation() {
    let mut app = App::new();
    app.show(&outside(), true, (0, 0, 6, 1), auto_focused(), paste_handlers(1, 2));
    let mut pastes = 0;
    let flags = app.paste("xy", &mut |handler, event| {
        if handler == 2 && event.text == "xy" {
            event.stop_propagation();
            pastes += 1;
        }
    });
    assert_eq!(pastes, 1);
    assert!(event_effects(flags).stop_component_propagation);
}

#[test]
fn test_view_paste_stop_propagation_allows_same_target_bubble() {
    let app = capture_app(paste_handlers);
    let mut log = Vec::new();
    app.paste("xy", &mut |handler, event| {
        if handler == 2 && event.text == "xy" {
            event.stop_propagation();
        }
        log.push(handler);
    });
    assert_eq!(log, vec![1, 2, 3]);
}

#[test]
fn test_view_paste_default_prevented_is_visible_to_ancestor_bubble() {
    let app = capture_app(paste_handlers);
    let mut seen = None;
    app.paste("xy", &mut |handler, event| match handler {
        3 => event.prevent_default(),
        4 => seen = Some(event.default_prevented()),
        _ => {}
    });
    assert_eq!(seen, Some(true));
}

fn blur_app() -> App {
    let mut app = App::new();
    let first = ViewHandlers {
        on_focus: Some(1),
        on_blur: Some(2),
        ..ViewHandlers::default()
    };
    let second = ViewHandlers {
        on_focus: Some(3),
        ..ViewHandlers::default()
    };
    app.show(&outside(), true, (0, 0, 3, 1), auto_focused(), first);
    app.show(&outside(), true, (3, 0, 5, 1), focusable(), second);
    app
}

#[test]
fn test_view_focus_and_blur_handlers() {
    let mut app = blur_app();
    let mut log = Vec::new();
    let mut note = |handler: u64, event: &mut ViewFocusEvent| {
        assert!(event.bubbles && !event.cancelable);
        event.prevent_default();
        assert!(!event.default_prevented(), "it cannot be prevented");
        log.push((handler, event.event_type.clone()));
    };
    app.settle(None, &mut note);
    let tab = key(KeyCode::Tab);
    let change = app.default_action(&tab, EventFlags::new());
    app.settle(change, &mut note);
    assert_eq!(
        log,
        vec![
            (1, "focus".to_string()),
            (2, "blur".to_string()),
            (3, "focus".to_string()),
        ]
    );
}

#[test]
fn test_view_focus_stop_propagation_allows_same_target_bubble() {
    let mut app = capture_app(focus_handlers);
    let mut log = Vec::new();
    app.settle(None, &mut |handler, event| {
        if handler == 2 && event.kind == ViewFocusEventKind::Focus {
            event.stop_propagation();
        }
        log.push(handler);
    });
    assert_eq!(log, vec![1, 2, 3]);
}

#[test]
fn test_view_focus_event_related_target() {
    let mut app = blur_app();
    let mut related = Vec::new();
    app.settle(None, &mut |handler, event| {
        related.push((handler, event.related_target.is_some()))
    });
    let change = app.default_action(&key(KeyCode::Tab), EventFlags::new());
    app.settle(change, &mut |handler, event| {
        related.push((handler, event.related_target.is_some()))
    });
    assert_eq!(related, vec![(1, false), (2, true), (3, true)]);
}

#[test]
fn test_view_focus_capture_runs_before_target_and_bubble() {
    let mut app = capture_app(focus_handlers);
    let mut log = Vec::new();
    app.settle(None, &mut |handler, event| {
        let at_target = event.route.target == event.route.current_target;
        log.push((handler, event.route.phase, at_target));
    });
    assert_eq!(
        log,
        vec![
            (1, ViewEventPhase::Capturing, false),
            (2, ViewEventPhase::AtTarget, true),
            (3, ViewEventPhase::AtTarget, true),
            (4, ViewEventPhase::Bubbling, false),
        ]
    );
}

fn out_of_tab_order() -> FocusProps {
    FocusProps {
        tab_index: Some(-1),
        ..FocusProps::default()
    }
}

#[test]
fn test_view_tab_index_minus_one_skips_tab_traversal() {
    let mut app = App::new();
    app.show(&outside(), true, (0, 0, 1, 1), out_of_tab_order(), focus_handlers(1, 2));
    app.show(&outside(), true, (1, 0, 3, 1), focusable(), focus_handlers(3, 4));
    app.settle(None, &mut |_, _| {});
    let change = app.default_action(&key(KeyCode::Tab), EventFlags::new());
    let mut log = Vec::new();
    app.settle(change, &mut |handler, _| log.push(handler));
    assert_eq!(log, vec![3, 4]);
}

#[test]
fn test_view_tab_index_minus_one_can_autofocus_and_receive_keys() {
    let mut app = App::new();
    let props = FocusProps {
        auto_focus: true,
        ..out_of_tab_order()
    };
    app.show(&outside(), true, (0, 0, 6, 1), props, on_key_down(1));
    let mut keys = 0;
    app.press_key(&key(KeyCode::Char('a')), &mut |_, event| {
        if event.code == KeyCode::Char('a') {
            keys += 1;
        }
    });
    assert_eq!(keys, 1);
}

#[test]
fn test_fragment_shares_root_event_context_for_topmost_hit_test() {
    let shared = fragment_context(false).unwrap();
    let mut app = App::new();
    app.show(&shared, false, (0, 0, 6, 1), unfocusable(), on_click(1));
    app.show(&shared, false, (0, 0, 6, 1), unfocusable(), on_click(2));
    assert_eq!(app.click(1, 0), vec![2]);
    assert!(fragment_context(true).is_none());
}

#[test]
fn test_fragment_shares_root_hover_state_for_topmost_hit_test() {
    let shared = fragment_context(false).unwrap();
    let mut app = App::new();
    app.show(&shared, false, (0, 0, 8, 1), unfocusable(), hovering(1, Some(2)));
    app.show(&shared, false, (0, 0, 8, 1), unfocusable(), hovering(3, Some(4)));
    assert!(app.views[0].view.is_hover_dispatch_root(&shared));
    assert_eq!(app.registry.handle_pointer(&mouse(MouseEventKind::Moved, 1, 0)), vec![3]);
    assert_eq!(app.registry.handle_pointer(&mouse(MouseEventKind::Moved, 9, 0)), vec![4]);
}

#[test]
fn test_context_provider_preserves_root_event_context_for_topmost_hit_test() {
    // Two views lie over one another, each inside of a provider of its own.
    let mut root = ContextValue::ViewParent(ViewFocusParentContext::shared_root());
    let mut stack = ContextStack::root(&mut root);
    let mut app = App::new();
    for (value, handler) in [("first", 1), ("second", 2)] {
        let provider = provide(ContextValue::Text(value.to_string()), Vec::new());
        let ElementNode::ContextProvider(provider) = provider.node else {
            panic!("a provider")
        };
        stack.enter(provider.value.map(Context::owned));
        let own = stack.get_context(ContextType::Text).unwrap();
        assert!(matches!(stack.value(own), ContextValue::Text(text) if text == value));
        stack.release(own);
        let around = stack.get_context(ContextType::ViewParent).unwrap();
        let parent = match stack.value(around) {
            ContextValue::ViewParent(parent) => parent.clone(),
            other => panic!("found {other:?}"),
        };
        assert!(parent.shared_root_event_context);
        app.show(&parent, false, (0, 0, 8, 1), unfocusable(), on_click(handler));
        stack.release(around);
        stack.leave(true);
    }
    stack.finish();
    assert_eq!(app.click(1, 0), vec![2]);
}

#[test]
fn a_click_on_a_focusable_view_names_its_focus_entry() {
    let mut app = click_focus_app();
    app.point(&press(0, 1));
    let outcome = app.point(&release(0, 1)).unwrap();
    assert_eq!(
        outcome.focus,
        Some(FocusTarget { context: CONTEXT, id: FocusId(103) })
    );
}

#[test]
fn a_moved_rectangle_moves_what_is_hit() {
    let mut app = App::new();
    app.show(&outside(), false, (0, 0, 3, 1), unfocusable(), hovering(1, Some(2)));
    app.registry.set_rect(
        ViewId(1),
        Rect { left: 10, right: 12, top: 0, bottom: 1 },
    );
    assert!(app.registry.handle_pointer(&mouse(MouseEventKind::Moved, 1, 0)).is_empty());
    assert_eq!(app.registry.handle_pointer(&mouse(MouseEventKind::Moved, 11, 0)), vec![1]);
}

#[test]
fn keys_have_names() {
    let named = |code: KeyCode| {
        ViewKeyboardEvent::new(&KeyEvent::new(KeyEventKind::Press, code)).key
    };
    assert_eq!(named(KeyCode::Enter), "return");
    assert_eq!(named(KeyCode::Esc), "escape");
    assert_eq!(named(KeyCode::Char('q')), "q");
    assert_eq!(named(KeyCode::F(5)), "f5");
}

#[test]
fn a_release_is_not_dispatched() {
    let release = TerminalEvent::Key(KeyEvent::new(KeyEventKind::Release, KeyCode::Enter));
    assert!(keyboard_event(true, &release, false).is_none());
    assert!(keyboard_event(false, &key(KeyCode::Enter), false).is_none());
    let prevented = keyboard_event(true, &key(KeyCode::Enter), true).unwrap();
    assert!(prevented.default_prevented());
}

#[test]
fn a_stop_before_the_target_ends_the_dispatch() {
    let handler = |number: u64| ViewCaptureHandler {
        focus_id: None,
        view_id: ViewId(number),
        handler: number,
    };
    let mut dispatch = EventDispatch::new(
        vec![handler(1), handler(2)],
        Some(handler(3)),
        Some(handler(4)),
        vec![handler(5)],
    );
    let first = dispatch.next(EventFlags::new()).unwrap();
    assert_eq!((first.handler.handler, first.phase), (1, ViewEventPhase::Capturing));
    let stopped = EventFlags {
        stopped: true,
        ..EventFlags::new()
    };
    assert!(dispatch.next(stopped).is_none());
    assert!(dispatch.next(EventFlags::new()).is_none());
}

#[test]
fn an_unmounted_view_gives_its_focus_entry_back() {
    let mut view = View::new(ViewId(1));
    assert_eq!(view.unmount(), None);
    view.update_focus(focusable(), Some(CONTEXT), FocusId(4), None);
    assert_eq!(
        view.unmount(),
        Some(FocusOp::Unregister { context: CONTEXT, id: FocusId(4) })
    );
    let ops = view.update_focus(focusable(), None, FocusId(5), None);
    assert_eq!(ops, vec![FocusOp::Unregister { context: CONTEXT, id: FocusId(4) }]);
    assert_eq!(view.unmount(), None);
}

#[test]
fn a_click_goes_on_where_it_is_not_stopped() {
    let mut app = click_app();
    app.point(&press(1, 0));
    let outcome = app.point(&release(1, 0)).unwrap();
    let mut dispatch = ClickDispatch::new(outcome.deliveries);
    let mut called = Vec::new();
    while let Some(delivery) = dispatch.next(false) {
        called.push(delivery.handler);
    }
    assert_eq!(called, vec![CHILD, PARENT]);
}

#[test]
fn copies_of_an_event_share_what_is_asked() {
    let mut event = ViewKeyboardEvent::new(&KeyEvent::new(KeyEventKind::Press, KeyCode::Enter));
    let mut copy = event.clone();
    assert_eq!(copy.key, "return");
    copy.stop_propagation();
    event.absorb(&copy);
    assert!(event.is_propagation_stopped() && !event.did_stop_immediate_propagation());
    let mut copy = event.clone();
    copy.stop_immediate_propagation();
    event.absorb(&copy);
    assert!(event.is_propagation_stopped() && event.did_stop_immediate_propagation());
    assert!(!event.default_prevented());

    let mut paste = ViewPasteEvent::new("text");
    let mut copy = paste.clone();
    copy.prevent_default();
    paste.absorb(&copy);
    assert_eq!(copy.text, "text");
    assert!(paste.default_prevented() && !paste.is_propagation_stopped());

    let mut blur =
        ViewFocusEvent::from_change(ViewFocusEventKind::Blur, FocusId(1), ViewId(1), None);
    let mut copy = blur.clone();
    copy.stop_propagation();
    copy.prevent_default();
    blur.absorb(&copy);
    assert!(blur.is_propagation_stopped() && !blur.default_prevented());
}
