use iocraft::boxes::{
    provide, AlternateScreen, AlternateScreenProps, KeybindingProvider, KeybindingProviderProps,
    NotificationProvider, NotificationProviderProps, SelectionClipboardNotifications,
    SelectionClipboardNotificationsProps,
};
use iocraft::button::{
    Button, ButtonEvent, ButtonHandlers, ButtonProps, ButtonState, BUTTON_ACTIVE_MILLIS,
};
use iocraft::checkbox::{Checkbox, CheckboxProps, CheckboxState};
use iocraft::context::{
    Context, ContextStack, ContextType, ContextValue, KeyboardEnhancementFlags, SystemContext,
};
use iocraft::element::{
    extend_with_elements, render_to_screen, AnyElement, Element, ElementKey, ElementNode,
    Output, RenderedScreen,
};
use iocraft::error_boundary::{CapturedPanic, ErrorBoundary, PanicPayload};
use iocraft::error_overview::ErrorLocation;
use iocraft::event::{
    FullscreenMouseEvent, KeyCode, KeyEvent, KeyEventKind, MouseButton, MouseEventKind,
    TerminalEvent,
};
use iocraft::focus_scope::{focus_action, FocusAction, FocusScope, FocusScopeProps};
use iocraft::render_loop::{RenderLoopFuture, RenderLoopStep, Throttle, FRAME_INTERVAL_MILLIS};
use iocraft::retained::{
    is_visible_in_terminal_viewport, memo_key_eq, CachedSubtree, CachedSubtreeHook,
    CachedSubtreeProps, DrawnRegion, FreezeDrawing, Memo, MemoProps, OffscreenFreeze,
    OffscreenFreezeProps, StaticOutput, StaticOutputProps,
};
use iocraft::scroll_box::{FastScrollBox, FastScrollBoxProps, ScrollBox, ScrollBoxProps};
use iocraft::scroll_drain::ScrollDrainMode;
use iocraft::scroll_handle::ScrollViewHandle;
use iocraft::scroll_motion::scroll_action;
use iocraft::style::{Dimension, LayoutStyle};
use iocraft::text::{Text, TextProps};
use iocraft::view_props::ViewProps;

fn text(content: &str) -> AnyElement {
    AnyElement::at(
        0,
        ElementNode::Text(TextProps {
            content: content.to_string(),
            ..TextProps::default()
        }),
    )
}

fn content(element: &AnyElement) -> &str {
    match &element.node {
        ElementNode::Text(props) => props.content.as_str(),
        _ => panic!("a text"),
    }
}

fn press(code: KeyCode) -> KeyEvent {
    KeyEvent::new(KeyEventKind::Press, code)
}

#[test]
fn context_value_type_id_tracks_wrapped_type() {
    let by_ref = ContextValue::Text(String::from("ref"));
    let mut by_mut = ContextValue::Text(String::from("mut"));
    assert_eq!(Context::from_ref(&by_ref).value_type_id(), ContextType::Text);
    assert_eq!(Context::from_mut(&mut by_mut).value_type_id(), ContextType::Text);
    assert_eq!(
        Context::owned(ContextValue::Text(String::from("owned"))).value_type_id(),
        ContextType::Text
    );
    assert_eq!(
        Context::owned(ContextValue::Number(4)).value_type_id(),
        ContextType::Number
    );
}

#[test]
fn borrowed_inner_context_does_not_fall_back_to_outer_same_type() {
    let mut outer = ContextValue::Text(String::from("outer"));
    let mut inner = ContextValue::Text(String::from("inner"));
    let mut stack = ContextStack::root(&mut outer);
    stack.enter(Some(Context::from_mut(&mut inner)));
    assert_eq!(stack.get_context_mut(ContextType::Text), Some(1));
    assert_eq!(stack.get_context(ContextType::Text), None);
    stack.release_mut(1);
    assert_eq!(stack.get_context(ContextType::Text), Some(1));
    stack.release(1);
    stack.leave(true);
    assert_eq!(stack.get_context(ContextType::Text), Some(0));
}

#[test]
fn types_of_the_application_are_told_apart_by_their_numbers() {
    let mut theme = ContextValue::Application { type_number: 1, value: 10 };
    let locale = ContextValue::Application { type_number: 2, value: 20 };
    assert_eq!(theme.type_id(), ContextType::Application(1));
    {
        let mut stack = ContextStack::root(&mut theme);
        stack.enter(Some(Context::from_ref(&locale)));
        assert_eq!(stack.get_context(ContextType::Application(3)), None);
        assert_eq!(stack.get_context_mut(ContextType::Application(2)), None);
        let found = stack.get_context(ContextType::Application(2)).unwrap();
        assert_eq!(found, 1);
        assert!(matches!(
            stack.value(found),
            ContextValue::Application { type_number: 2, value: 20 }
        ));
        stack.release(found);
        let found = stack.get_context_mut(ContextType::Application(1)).unwrap();
        assert_eq!(found, 0);
        stack.set_value(found, ContextValue::Application { type_number: 1, value: 11 });
        stack.release_mut(found);
        stack.leave(true);
    }
    assert!(matches!(theme, ContextValue::Application { type_number: 1, value: 11 }));
}

#[test]
fn what_is_written_to_a_context_is_read_back() {
    let mut outer = ContextValue::Number(1);
    {
        let mut stack = ContextStack::root(&mut outer);
        let index = stack.get_context_mut(ContextType::Number).unwrap();
        stack.set_value(index, ContextValue::Number(2));
        stack.release_mut(index);
        assert!(matches!(stack.value(index), ContextValue::Number(2)));
    }
    assert!(matches!(outer, ContextValue::Number(2)));
}

#[test]
fn what_is_written_to_a_lent_context_reaches_the_lender() {
    let mut root = ContextValue::System(SystemContext::new());
    let mut inner = ContextValue::Number(1);
    {
        let mut stack = ContextStack::root(&mut root);
        stack.enter(Some(Context::from_mut(&mut inner)));
        let index = stack.get_context_mut(ContextType::Number).unwrap();
        stack.set_value(index, ContextValue::Number(7));
        stack.release_mut(index);
        let index = stack.get_context_mut(ContextType::System).unwrap();
        let mut system = SystemContext::new();
        system.exit();
        stack.set_value(index, ContextValue::System(system));
        stack.release_mut(index);
        stack.leave(true);
        stack.finish();
    }
    assert!(matches!(inner, ContextValue::Number(7)));
    match root {
        ContextValue::System(system) => assert!(system.should_exit()),
        other => panic!("found {other:?}"),
    }
}

#[test]
fn test_context_provider() {
    let by_ref = ContextValue::Text("x".to_string());
    let mut by_mut_ref = ContextValue::Text("y".to_string());
    let mut root = ContextValue::System(SystemContext::new());
    let mut stack = ContextStack::root(&mut root);
    stack.enter(Some(Context::from_ref(&by_ref)));
    stack.enter(Some(Context::from_mut(&mut by_mut_ref)));
    stack.enter(Some(Context::owned(ContextValue::Text("foo".to_string()))));
    let index = stack.get_context(ContextType::Text).unwrap();
    match stack.value(index) {
        ContextValue::Text(found) => assert_eq!(found, "foo"),
        other => panic!("found {other:?}"),
    }
    stack.release(index);
    assert_eq!(stack.get_context_mut(ContextType::Text), Some(index));
    stack.release_mut(index);

    // Without the owned one the next is found; a value lent for reading is not written to.
    stack.leave(true);
    assert_eq!(stack.get_context_mut(ContextType::Text), Some(2));
    stack.release_mut(2);
    stack.leave(true);
    assert_eq!(stack.get_context(ContextType::Text), Some(1));
    stack.release(1);
    assert_eq!(stack.get_context_mut(ContextType::Text), None);
}

#[test]
fn a_context_is_lent_on() {
    let mut number = ContextValue::Number(3);
    let mut context = Context::from_mut(&mut number);
    {
        let mut lent = context.borrow();
        if let Some(value) = lent.downcast_mut(ContextType::Number) {
            *value = ContextValue::Number(8);
        }
        assert!(lent.downcast_mut(ContextType::Text).is_none());
    }
    assert!(matches!(
        context.downcast_ref(ContextType::Number),
        Some(ContextValue::Number(8))
    ));
    assert!(context.downcast_ref(ContextType::Focus).is_none());
    let fixed = ContextValue::Number(1);
    assert!(Context::from_ref(&fixed).downcast_mut(ContextType::Number).is_none());
}

#[test]
fn the_system_is_asked_through_its_context() {
    let mut system = SystemContext::new();
    assert!(!system.should_exit());
    assert_eq!(system.mouse_capture(), None);
    assert_eq!(system.terminal_title(), None);
    system.exit();
    system.set_mouse_capture(false);
    system.set_terminal_title("title");
    system.set_keyboard_enhancement_flags(KeyboardEnhancementFlags { bits: 5 });
    assert!(system.should_exit());
    assert_eq!(system.mouse_capture(), Some(false));
    assert_eq!(system.terminal_title(), Some("title"));
    assert_eq!(
        system.keyboard_enhancement_flags(),
        Some(KeyboardEnhancementFlags { bits: 5 })
    );
}

#[test]
fn test_element() {
    let element: Element<iocraft::view::View> = Element {
        key: ElementKey::new(4),
        props: ViewProps::default(),
    };
    assert_eq!(element.key, ElementKey::new(4));
    let any = element.into_any();
    assert_eq!(any.key, ElementKey::new(4));
    assert!(matches!(any.node, ElementNode::View(_)));

    let mut children = vec![text("first")];
    extend_with_elements(&mut children, any);
    extend_with_elements(&mut children, vec![text("second"), text("third")]);
    extend_with_elements(&mut children, None::<AnyElement>);
    extend_with_elements(&mut children, Some(text("fourth")));
    let typed: Element<Text> = Element {
        key: ElementKey::new(9),
        props: TextProps::default(),
    };
    extend_with_elements(&mut children, typed);
    let keys: Vec<u64> = children.iter().map(|child| child.key.value).collect();
    assert_eq!(keys, vec![0, 4, 0, 0, 0, 9]);
    assert_eq!(content(&children[3]), "third");
}

#[test]
fn test_render_to_screen_matches_cc_ink_side_render_helper() {
    assert_eq!(
        render_to_screen(12, 12, 2),
        RenderedScreen { canvas_width: 12, canvas_height: 2, height: 2 }
    );
    assert_eq!(
        render_to_screen(12, 0, 0),
        RenderedScreen { canvas_width: 12, canvas_height: 1, height: 0 }
    );
}

#[test]
fn test_render_loop_future() {
    fn assert_send<F: Send>(_f: F) {}

    assert_eq!(FRAME_INTERVAL_MILLIS, 16);
    assert_send(RenderLoopFuture::new());
}

#[test]
fn a_render_loop_starts_once() {
    let mut render_loop = RenderLoopFuture::new();
    let RenderLoopStep::Start(start) = render_loop.poll() else {
        panic!("a start")
    };
    assert!(!start.mouse_capture);
    assert_eq!(start.config.throttle, Throttle::Millis(16));
    assert_eq!(start.config.output, Output::Stdout);
    assert_eq!(render_loop.poll(), RenderLoopStep::Poll);
    render_loop.fail();
}

#[test]
fn a_render_loop_does_what_it_was_asked() {
    let mut render_loop = RenderLoopFuture::new()
        .fullscreen()
        .ignore_ctrl_c()
        .suspend_on_ctrl_z()
        .max_fps(30)
        .on_frame_profile(6)
        .stdout(1)
        .stderr(2)
        .output(Output::Stderr);
    let RenderLoopStep::Start(start) = render_loop.poll() else {
        panic!("a start")
    };
    assert!(start.mouse_capture, "the whole screen captures the mouse");
    assert!(!start.enable_mouse_capture);
    assert!(start.config.ignore_ctrl_c && start.config.suspend_on_ctrl_z);
    assert_eq!(start.config.throttle, Throttle::FramesPerSecond(30));
    assert_eq!(start.config.frame_profile, Some(6));
    assert_eq!(
        (start.config.stdout_writer, start.config.stderr_writer),
        (Some(1), Some(2))
    );
    assert_eq!(start.config.output, Output::Stderr);

    let mut released = RenderLoopFuture::new().fullscreen().disable_mouse_capture();
    assert!(matches!(released.poll(), RenderLoopStep::Start(start) if !start.mouse_capture));
    let mut captured = RenderLoopFuture::new().without_throttle().enable_mouse_capture();
    assert!(matches!(
        captured.poll(),
        RenderLoopStep::Start(start)
            if start.enable_mouse_capture && start.config.throttle == Throttle::Unlimited
    ));
}

fn region() -> DrawnRegion {
    DrawnRegion {
        x: 0,
        y: 0,
        width: 10,
        height: 1,
        canvas_width: 10,
        canvas_height: 1,
    }
}

fn cached(key: &str) -> CachedSubtreeProps {
    CachedSubtreeProps {
        children: Vec::new(),
        cache_key: key.to_string(),
        enabled: None,
    }
}

#[test]
fn test_cached_subtree_blits_and_skips_child_draw_when_key_is_stable() {
    let mut hook = CachedSubtreeHook::new();
    hook.update(&cached("stable"));
    assert!(!hook.pre_component_draw(10, 1), "nothing was drawn yet");
    assert!(hook.post_component_draw(&region()));
    hook.update(&cached("stable"));
    assert!(hook.pre_component_draw(10, 1));
    assert!(!hook.pre_component_draw(9, 1), "another size");
}

#[test]
fn test_cached_subtree_rerenders_when_key_changes() {
    let mut hook = CachedSubtreeHook::new();
    hook.update(&cached("phase-0"));
    hook.post_component_draw(&region());
    hook.update(&cached("phase-1"));
    assert!(!hook.pre_component_draw(10, 1));
}

#[test]
fn a_subtree_that_is_not_cached_keeps_no_snapshot() {
    let mut hook = CachedSubtreeHook::new();
    let mut props = cached("stable");
    hook.update(&props);
    assert!(!hook.post_component_draw(&DrawnRegion { x: -1, ..region() }));
    assert!(!hook.pre_component_draw(10, 1), "it was not all on the canvas");
    hook.post_component_draw(&region());
    props.enabled = Some(false);
    hook.update(&props);
    assert!(!hook.pre_component_draw(10, 1));
    let element = CachedSubtree(CachedSubtreeProps {
        children: vec![text("child")],
        ..cached("stable")
    });
    let ElementNode::View(view) = element.node else {
        panic!("a view")
    };
    assert_eq!(view.layout.width, Dimension::Percent(100));
    assert_eq!(view.children.len(), 1);
}

fn keyed(key: &str, compares: bool) -> MemoProps {
    MemoProps {
        memo_key: key.to_string(),
        compares,
        children: Vec::new(),
    }
}

/// The number of times that the child is updated under these keys.
fn updates(keys: &[&str], compares: bool, child_changes: bool) -> usize {
    let mut memo = Memo::new();
    let mut count = 0;
    for key in keys {
        let equal = memo
            .previous_key()
            .is_some_and(|previous| memo_key_eq(previous, key));
        if memo.update(&keyed(key, compares), equal, child_changes) {
            count += 1;
        }
    }
    count
}

#[test]
fn test_memo_equal_comparator_skips_child_update() {
    assert_eq!(updates(&["stable", "stable", "stable", "stable"], true, false), 1);
}

#[test]
fn test_memo_changed_comparator_rerenders_child() {
    assert_eq!(updates(&["tick-1", "tick-2", "tick-3", "tick-3"], true, false), 3);
}

#[test]
fn test_memo_requires_explicit_comparator() {
    assert_eq!(updates(&["stable", "stable", "stable", "stable"], false, false), 4);
}

#[test]
fn test_memo_does_not_skip_stateful_child_changes() {
    assert_eq!(updates(&["stable", "stable", "stable"], true, true), 3);
}

fn freezing(rows: u16, skip_poll: Option<bool>) -> OffscreenFreezeProps {
    OffscreenFreezeProps {
        children: Vec::new(),
        terminal_rows: Some(rows),
        damage_on_restore: None,
        skip_poll,
    }
}

/// Runs frames in which a row stands above seven others, and counts its updates and the
/// frames in which it is polled.
fn frames(rows: &[u16], skip_poll: Option<bool>, in_virtual_list: bool) -> (usize, usize) {
    let mut freeze = OffscreenFreeze::new();
    let (mut updated, mut polled) = (0, 0);
    for rows in rows {
        let update = freeze.update(&freezing(*rows, skip_poll), 24, in_virtual_list);
        updated += update.update_children as usize;
        polled += !update.skip_child_poll as usize;
        freeze.pre_component_draw(0, 15, 1, 8);
        freeze.post_component_draw(&DrawnRegion {
            width: 15,
            canvas_width: 15,
            canvas_height: 8,
            ..region()
        });
    }
    (updated, polled)
}

#[test]
fn test_offscreen_freeze_reuses_previous_child_tree() {
    assert_eq!(frames(&[3, 3, 3, 3], None, false).0, 1);
}

#[test]
fn test_offscreen_freeze_bypasses_cache_inside_virtual_list_context() {
    assert_eq!(frames(&[3, 3, 3, 3], None, true).0, 4);
}

#[test]
fn test_offscreen_freeze_skip_poll_is_opt_in() {
    let default_polls = frames(&[3; 5], None, false).1;
    let skip_polls = frames(&[3; 5], Some(true), false).1;
    assert!(default_polls > skip_polls);
    assert!(skip_polls <= 1);
}

#[test]
fn test_offscreen_freeze_skip_poll_thaws_and_updates_children() {
    assert_eq!(frames(&[3, 3, 20, 20, 20, 20], Some(true), false).0, 4);
}

#[test]
fn test_offscreen_freeze_skip_poll_keeps_virtual_list_bypass() {
    assert!(frames(&[3; 5], Some(true), true).1 > 1);
}

#[test]
fn a_frozen_subtree_is_drawn_from_its_last_snapshot() {
    let mut freeze = OffscreenFreeze::new();
    freeze.update(&freezing(20, None), 24, false);
    assert_eq!(freeze.pre_component_draw(0, 10, 1, 1), FreezeDrawing::Children);
    assert!(freeze.post_component_draw(&region()));
    let damaging = OffscreenFreezeProps {
        damage_on_restore: Some(true),
        ..freezing(3, None)
    };
    freeze.update(&damaging, 24, false);
    assert_eq!(
        freeze.pre_component_draw(0, 10, 1, 8),
        FreezeDrawing::Snapshot { damages: true }
    );
    assert!(!freeze.post_component_draw(&region()));
    assert_eq!(freeze.pre_component_draw(0, 11, 1, 8), FreezeDrawing::Children);
}

#[test]
fn the_terminal_shows_the_last_rows() {
    assert!(is_visible_in_terminal_viewport(0, 1, 3, 3));
    assert!(!is_visible_in_terminal_viewport(1, 1, 4, 3), "the cursor takes a row");
    assert!(is_visible_in_terminal_viewport(2, 1, 4, 3));
    assert!(is_visible_in_terminal_viewport(-5, 1, 900, 0), "no rows are known");
}

#[test]
fn lines_are_written_once() {
    let mut count = 0;
    let items = |upto: usize| StaticOutputProps {
        items: (0..upto).map(|item| format!("item {item}")).collect(),
    };
    assert_eq!(StaticOutput(&items(2), &mut count).new_items, vec!["item 0", "item 1"]);
    assert!(StaticOutput(&items(2), &mut count).new_items.is_empty());
    assert_eq!(StaticOutput(&items(3), &mut count).new_items, vec!["item 2"]);
    assert!(StaticOutput(&items(1), &mut count).new_items.is_empty());
    assert_eq!(count, 3, "a shorter list does not lower the mark");
    assert!(StaticOutput(&items(2), &mut count).new_items.is_empty());
    assert_eq!(StaticOutput(&items(4), &mut count).new_items, vec!["item 3"]);
    assert_eq!(count, 4);
}

#[test]
fn test_error_boundary_passes_through_when_no_panic() {
    let mut boundary = ErrorBoundary::new();
    assert!(boundary.update(&None, None).is_none());
    assert!(boundary.updates_children());
}

#[test]
fn a_boundary_shows_where_the_panic_happened_and_does_not_recover() {
    let mut boundary = ErrorBoundary::new();
    let fallback = boundary
        .update(
            &Some(PanicPayload::Message("boom".to_string())),
            Some(CapturedPanic {
                message: "boom".to_string(),
                location: Some(ErrorLocation {
                    file: "error_boundary.rs".to_string(),
                    line: 3,
                    column: Some(4),
                }),
            }),
        )
        .unwrap();
    let ElementNode::ErrorOverview(overview) = fallback.node else {
        panic!("an overview")
    };
    assert_eq!(overview.message, "boom");
    assert_eq!(overview.location.unwrap().file, "error_boundary.rs");
    assert!(!boundary.updates_children());
    let later = boundary.update(&Some(PanicPayload::Unknown), None).unwrap();
    assert!(matches!(
        later.node,
        ElementNode::ErrorOverview(overview) if overview.message == "boom"
    ));
    assert!(boundary.update(&None, None).is_some());
}

#[test]
fn a_panic_without_a_text_is_unknown() {
    let shown = |payload: PanicPayload| {
        match ErrorBoundary::new().update(&Some(payload), None).unwrap().node {
            ElementNode::ErrorOverview(overview) => overview.message,
            _ => panic!("an overview"),
        }
    };
    assert_eq!(shown(PanicPayload::Unknown), "unknown panic");
    assert_eq!(shown(PanicPayload::Message("late".to_string())), "late");
}

fn scrolled_by_wheel(mode: ScrollDrainMode) -> (Vec<i32>, i32) {
    let mut handle = ScrollViewHandle::default();
    handle.attach(false, true);
    let inner = handle.inner.as_mut().unwrap();
    inner.state.measure_viewport(1, 9);
    inner.state.begin_render(80, false, true);
    let down = TerminalEvent::FullscreenMouse(FullscreenMouseEvent::new(
        MouseEventKind::ScrollDown,
        0,
        1,
    ));
    let action = scroll_action(&down, 9, true, false, 40).unwrap();
    inner.state.act(action, false, false);
    let mut pending = Vec::new();
    while inner.state.pending_scroll_delta != 0 {
        pending.push(inner.state.pending_scroll_delta);
        inner.state.drain_frame(mode);
    }
    (pending, handle.get_scroll_top())
}

#[test]
fn test_scroll_box_handle_and_default_no_scrollbar() {
    let mut handle = ScrollViewHandle::default();
    handle.attach(false, false);
    let inner = handle.inner.as_mut().unwrap();
    inner.state.measure_viewport(0, 3);
    inner.state.begin_render(8, false, false);
    handle.scroll_by(2);
    assert_eq!(handle.get_scroll_top(), 2);
    let element = ScrollBox(ScrollBoxProps::default());
    assert!(matches!(
        element.node,
        ElementNode::ScrollView(view) if view.scrollbar == Some(false)
    ));
}

#[test]
fn test_scroll_box_opt_in_drain_exposes_pending_delta_for_wheel_and_handle() {
    let (pending, top) = scrolled_by_wheel(ScrollDrainMode::XtermJs);
    assert_eq!(pending[0], 40);
    assert_eq!(top, 40);

    let mut handle = ScrollViewHandle::default();
    handle.attach(false, true);
    let inner = handle.inner.as_mut().unwrap();
    inner.state.measure_viewport(1, 9);
    inner.state.begin_render(80, false, true);
    handle.scroll_by(40);
    assert_eq!(handle.get_pending_delta(), 40);
    assert_eq!(handle.get_scroll_top(), 0);
    let inner = handle.inner.as_mut().unwrap();
    inner.state.drain_frame(ScrollDrainMode::XtermJs);
    assert!(handle.get_scroll_top() > 0);
}

#[test]
fn test_fast_scroll_box_defaults_to_opt_in_drain() {
    let props = FastScrollBoxProps {
        wheel_acceleration: Some(false),
        ..FastScrollBoxProps::default()
    };
    let ElementNode::ScrollBox(fast) = FastScrollBox(props, false).node else {
        panic!("a scroll box")
    };
    assert_eq!(fast.wheel_acceleration, Some(false));
    assert_eq!(fast.scroll_drain_mode, Some(ScrollDrainMode::Native));
    let (pending, top) = scrolled_by_wheel(ScrollDrainMode::Native);
    assert_eq!(pending, vec![40, 32, 24, 16, 8, 2]);
    assert_eq!(top, 40);
}

#[test]
fn test_alternate_screen_constrains_canvas_and_unmounts_to_main_screen() {
    let request = AlternateScreen(AlternateScreenProps {
        children: vec![text("alt")],
        mouse_tracking: None,
    });
    assert!(request.mouse_tracking);
    let ElementNode::View(view) = request.element.node else {
        panic!("a view")
    };
    assert_eq!(
        view.layout,
        LayoutStyle {
            width: Dimension::Percent(100),
            height: Dimension::Percent(100),
            flex_shrink: 0,
            ..LayoutStyle::default()
        }
    );
    assert_eq!(content(&view.children[0]), "alt");
    let request = AlternateScreen(AlternateScreenProps {
        children: Vec::new(),
        mouse_tracking: Some(false),
    });
    assert!(!request.mouse_tracking);
}

#[test]
fn keybinding_provider_keeps_children_across_rerenders() {
    for count in ["count=0", "count=1"] {
        let element = KeybindingProvider(
            KeybindingProviderProps {
                children: vec![text(count)],
            },
            5,
        );
        let ElementNode::ContextProvider(provider) = element.node else {
            panic!("a provider")
        };
        assert!(matches!(provider.value, Some(ContextValue::Keybindings(5))));
        assert_eq!(content(&provider.children[0]), count);
    }
}

#[test]
fn providers_hand_their_values_down() {
    let element = NotificationProvider(
        NotificationProviderProps {
            children: vec![text("child")],
        },
        8,
    );
    assert!(matches!(
        element.node,
        ElementNode::ContextProvider(provider)
            if matches!(provider.value, Some(ContextValue::Notifications(8)))
                && provider.children.len() == 1
    ));
    let scope = FocusScope(
        FocusScopeProps {
            children: vec![text("child")],
            handle_keys: Some(false),
        },
        3,
    );
    assert!(!scope.handle_keys);
    assert!(matches!(
        scope.element.node,
        ElementNode::ContextProvider(provider)
            if matches!(provider.value, Some(ContextValue::Focus(3)))
    ));
    assert!(matches!(
        provide(ContextValue::InVirtualList, Vec::new()).node,
        ElementNode::ContextProvider(provider) if provider.children.is_empty()
    ));
}

#[test]
fn copies_are_told_of_where_they_are_asked_to_be() {
    let watch = SelectionClipboardNotifications(
        SelectionClipboardNotificationsProps {
            children: vec![text("child")],
            selection: Some(4),
            stdout: None,
            notifications: None,
            active: None,
            clipboard_path: None,
        },
        1,
        2,
        3,
        5,
    );
    assert_eq!((watch.selection, watch.stdout, watch.notifications), (4, 2, 3));
    assert_eq!(watch.clipboard_path, 5);
    assert!(watch.active);
}

#[test]
fn keys_move_the_focus() {
    let mut shifted = press(KeyCode::Tab);
    shifted.modifiers.shift = true;
    let acts = |event: KeyEvent| focus_action(true, &TerminalEvent::Key(event));
    assert_eq!(acts(press(KeyCode::Tab)), Some(FocusAction::FocusNext));
    assert_eq!(acts(shifted), Some(FocusAction::FocusPrev));
    assert_eq!(acts(press(KeyCode::BackTab)), Some(FocusAction::FocusPrev));
    assert_eq!(acts(press(KeyCode::Esc)), Some(FocusAction::Clear));
    assert_eq!(acts(press(KeyCode::Enter)), None);
    assert_eq!(
        focus_action(false, &TerminalEvent::Key(press(KeyCode::Tab))),
        None
    );
}

fn button_props(is_active: Option<bool>, has_focus: bool) -> ButtonProps {
    ButtonProps {
        children: Vec::new(),
        handler: Some(1),
        on_action: Some(2),
        has_focus,
        focusable: true,
        tab_index: None,
        auto_focus: false,
        is_active,
        state: Some(9),
    }
}

#[test]
fn a_button_is_pressed_by_a_click_and_by_keys() {
    let props = button_props(None, false);
    let mut state = ButtonState::new(&props);
    let reaction = state.handle(&props, ButtonEvent::Click);
    assert_eq!((reaction.handler, reaction.on_action), (Some(1), Some(2)));
    assert!(!reaction.prevent_default);
    assert!(state.shown(&props).focused);
    assert_eq!(state.written(&props), Some((9, state.shown(&props))));
    assert_eq!(state.timeout_millis(), None);

    let reaction = state.handle(&props, ButtonEvent::KeyDown(KeyCode::Enter));
    assert!(reaction.prevent_default && !reaction.stop_propagation);
    assert!(state.active);
    assert_eq!(state.timeout_millis(), Some(BUTTON_ACTIVE_MILLIS));
    state.handle(&props, ButtonEvent::Timeout);
    assert!(!state.active);
    state.handle(&props, ButtonEvent::MouseEnter);
    assert!(state.hovered);
    state.handle(&props, ButtonEvent::MouseLeave);
    state.handle(&props, ButtonEvent::Blur);
    assert_eq!(state, ButtonState::default());
    assert_eq!(state.handle(&props, ButtonEvent::KeyDown(KeyCode::Tab)).handler, None);

    let focused = button_props(None, true);
    let reaction = state.handle(&focused, ButtonEvent::Key(press(KeyCode::Char(' '))));
    assert!(reaction.stop_propagation);
    assert_eq!(reaction.handler, Some(1));
}

#[test]
fn a_disabled_button_does_nothing() {
    let props = button_props(Some(false), true);
    let mut state = ButtonState::new(&props);
    for event in [
        ButtonEvent::Click,
        ButtonEvent::KeyDown(KeyCode::Enter),
        ButtonEvent::Key(press(KeyCode::Enter)),
    ] {
        let reaction = state.handle(&props, event);
        assert_eq!((reaction.handler, reaction.on_action), (None, None));
        assert!(!reaction.prevent_default && !reaction.stop_propagation);
    }
    let handlers = ButtonHandlers {
        on_focus: 1,
        on_blur: 2,
        on_mouse_enter: 3,
        on_mouse_leave: 4,
        on_key_down: 5,
        on_click: 6,
    };
    let ElementNode::View(view) = Button(props, handlers).node else {
        panic!("a view")
    };
    assert!(!view.focus.is_active());
    assert_eq!(view.handlers.on_click, Some(6));
    let ElementNode::View(view) = Button(button_props(None, false), handlers).node else {
        panic!("a view")
    };
    assert_eq!(view.focus.tab_index, Some(0));
}

#[test]
fn a_checkbox_changes_once_for_a_toggle() {
    let mut state = CheckboxState::default();
    let click = TerminalEvent::FullscreenMouse(FullscreenMouseEvent::new(
        MouseEventKind::Down(MouseButton::Left),
        0,
        0,
    ));
    assert!(state.handle(false, &click));
    assert_eq!(state.take_change(false), Some(true));
    assert_eq!(state.take_change(true), None);
    assert!(!state.handle(false, &TerminalEvent::Key(press(KeyCode::Enter))));
    assert!(state.handle(true, &TerminalEvent::Key(press(KeyCode::Char(' ')))));
    assert_eq!(state.take_change(true), Some(false));

    let shown = |checked: bool| CheckboxProps {
        checked,
        ..CheckboxProps::default()
    };
    assert_eq!(content(&Checkbox(&shown(true))), "[x]");
    assert_eq!(content(&Checkbox(&shown(false))), "[ ]");
    let custom = CheckboxProps {
        checked_symbol: Some("on".to_string()),
        ..shown(true)
    };
    assert_eq!(content(&Checkbox(&custom)), "on");
}
