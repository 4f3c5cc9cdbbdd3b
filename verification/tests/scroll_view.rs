use iocraft::canvas::DrawOp;
use iocraft::element::{AnyElement, ElementNode};
use iocraft::event::{
    FullscreenMouseEvent, KeyCode, KeyEvent, KeyEventKind, KeyModifiers, MouseEventKind, Rect,
    TerminalEvent,
};
use iocraft::scroll_box::{FastScrollBox, FastScrollBoxProps, ScrollBox, ScrollBoxProps};
use iocraft::scroll_drain::ScrollDrainMode;
use iocraft::scroll_handle::{
    ScrollClampBounds, ScrollViewHandle, ScrollViewState, ScrollViewSubscription,
};
use iocraft::scroll_keys::scroll_key_delta;
use iocraft::scroll_motion::{
    allow_drag_autoscroll_tick, content_measured, drag_autoscroll_tick,
    reset_drag_autoscroll_ticks_for_render, scroll_action, update_drag_autoscroll,
    wheel_direction, DragAutoscrollTickState, DragSelection, FollowScroll, ScrollAction,
    ScrollHintHook, SelectionDragScrollDirection, SelectionRequest,
    SELECTION_AUTOSCROLL_MAX_TICKS,
};
use iocraft::scroll_view::{
    ScrollView, ScrollViewProps, ScrollViewScrollbar, ScrollViewScrollbarProps,
};
use iocraft::style::{Color, Dimension, JustifyContent, Position};
use iocraft::text::TextProps;
use iocraft::wheel_accel::{WheelAccelState, WheelRows};

fn text(place: u64, content: &str) -> AnyElement {
    AnyElement::at(
        place,
        ElementNode::Text(TextProps {
            content: content.to_string(),
            ..TextProps::default()
        }),
    )
}

fn scrolled_state() -> ScrollViewState {
    let mut state = ScrollViewState::new(false, false);
    state.begin_render(20, false, false);
    state.measure_viewport(2, 5);
    state
}

fn key(code: KeyCode) -> TerminalEvent {
    TerminalEvent::Key(KeyEvent::new(KeyEventKind::Press, code))
}

fn wheel(kind: MouseEventKind) -> TerminalEvent {
    TerminalEvent::FullscreenMouse(FullscreenMouseEvent::new(kind, 0, 0))
}

#[test]
fn test_drag_autoscroll_tick_cap_allows_200_ticks_then_caps() {
    let mut state = DragAutoscrollTickState {
        focus: Some((3, 4)),
        ticks: 0,
        capped: false,
        blocked_focus: None,
    };
    for _ in 0..SELECTION_AUTOSCROLL_MAX_TICKS {
        assert!(allow_drag_autoscroll_tick(&mut state));
    }
    assert_eq!(state.ticks, SELECTION_AUTOSCROLL_MAX_TICKS);
    assert_eq!(state.ticks, 200);
    assert!(!state.capped);

    assert!(!allow_drag_autoscroll_tick(&mut state));
    assert!(state.capped);
}

#[test]
fn test_drag_autoscroll_tick_cap_resets_on_focus_change_or_inactive() {
    let capped = DragAutoscrollTickState {
        focus: Some((3, 4)),
        ticks: SELECTION_AUTOSCROLL_MAX_TICKS + 1,
        capped: true,
        blocked_focus: Some((3, 4)),
    };

    assert_eq!(
        reset_drag_autoscroll_ticks_for_render(capped, true, Some((3, 4))),
        capped
    );
    assert_eq!(
        reset_drag_autoscroll_ticks_for_render(capped, true, Some((3, 5))),
        DragAutoscrollTickState {
            focus: Some((3, 5)),
            ticks: 0,
            capped: false,
            blocked_focus: None,
        }
    );
    assert_eq!(
        reset_drag_autoscroll_ticks_for_render(capped, false, Some((3, 4))),
        DragAutoscrollTickState::default()
    );
}

#[test]
fn keys_scroll_and_stay_in_range() {
    let mut state = scrolled_state();
    let down = scroll_action(&key(KeyCode::Down), 5, true, false, 3).unwrap();
    assert_eq!(down, ScrollAction { delta: 1, is_wheel: false });
    let outcome = state.act(down, false, false);
    assert!(outcome.moved);
    assert_eq!(outcome.selection, SelectionRequest::Keep);
    assert_eq!(state.scroll_offset, 1);

    let end = scroll_action(&key(KeyCode::End), 5, true, false, 3).unwrap();
    assert!(state.act(end, false, false).moved);
    assert_eq!(state.scroll_offset, 15);
    assert!(!state.act(end, false, false).moved, "already at the end");

    let home = scroll_action(&key(KeyCode::Home), 5, true, false, 3).unwrap();
    state.act(home, false, false);
    assert_eq!(state.scroll_offset, 0);
    let page = scroll_action(&key(KeyCode::PageDown), 5, true, false, 3).unwrap();
    state.act(page, false, false);
    assert_eq!(state.scroll_offset, 5);
}

#[test]
fn keys_scroll_only_where_they_are_asked_to() {
    assert_eq!(scroll_action(&key(KeyCode::Down), 5, false, false, 3), None);
    assert_eq!(scroll_action(&key(KeyCode::Char('j')), 5, true, false, 3), None);
    assert_eq!(
        scroll_action(&key(KeyCode::Char('j')), 5, true, true, 3),
        Some(ScrollAction { delta: 1, is_wheel: false })
    );
    let release = TerminalEvent::Key(KeyEvent::new(KeyEventKind::Release, KeyCode::Down));
    assert_eq!(scroll_action(&release, 5, true, false, 3), None);
    assert_eq!(scroll_action(&TerminalEvent::Resize(3, 4), 5, true, true, 3), None);
}

#[test]
fn pager_keys_move_by_half_pages_and_pages() {
    let mut event = KeyEvent::new(KeyEventKind::Press, KeyCode::Char('d'));
    event.modifiers = KeyModifiers {
        control: true,
        ..KeyModifiers::empty()
    };
    assert_eq!(scroll_key_delta(&event, 10, true), Some(5));
    assert_eq!(scroll_key_delta(&event, 10, false), None);
    let space = KeyEvent::new(KeyEventKind::Press, KeyCode::Char(' '));
    assert_eq!(scroll_key_delta(&space, 10, true), Some(10));
    assert_eq!(scroll_key_delta(&space, 10, false), None);
}

#[test]
fn the_wheel_scrolls_and_clears_the_selection() {
    let mut state = scrolled_state();
    assert_eq!(wheel_direction(&wheel(MouseEventKind::ScrollDown)), Some(1));
    assert_eq!(wheel_direction(&wheel(MouseEventKind::ScrollUp)), Some(-1));
    assert_eq!(wheel_direction(&wheel(MouseEventKind::Moved)), None);
    let down = scroll_action(&wheel(MouseEventKind::ScrollDown), 5, true, false, 3).unwrap();
    let outcome = state.act(down, true, true);
    assert_eq!(outcome.selection, SelectionRequest::Clear);
    assert!(outcome.moved);
    assert_eq!(state.scroll_offset, 3);
    assert_eq!(
        scroll_action(&wheel(MouseEventKind::ScrollDown), 5, true, false, 0),
        None,
        "a step without rows asks for nothing"
    );
}

#[test]
fn a_key_moves_the_selection_with_the_rows() {
    let mut state = scrolled_state();
    let outcome = state.act(ScrollAction { delta: 4, is_wheel: false }, true, true);
    assert_eq!(
        outcome.selection,
        SelectionRequest::Translate { delta: 4, top: 2, bottom: 6 }
    );
    let outcome = state.act(ScrollAction { delta: 1, is_wheel: false }, true, false);
    assert_eq!(outcome.selection, SelectionRequest::Keep);
}

#[test]
fn a_drained_wheel_waits_for_frames() {
    let mut state = ScrollViewState::new(true, true);
    state.measure_viewport(0, 5);
    state.begin_render(40, true, true);
    assert_eq!(state.committed_scroll_offset(), 35, "the bottom is followed");
    let up = scroll_action(&wheel(MouseEventKind::ScrollUp), 5, true, false, 12).unwrap();
    let outcome = state.act(up, true, true);
    assert!(outcome.moved);
    assert_eq!(outcome.selection, SelectionRequest::Clear);
    assert_eq!(state.pending_scroll_delta, -12);
    assert_eq!(state.scroll_offset, 35);
    assert!(state.user_scrolled_up);

    let mut frames = 0;
    while state.pending_scroll_delta != 0 {
        assert!(state.drain_frame(ScrollDrainMode::Native));
        frames += 1;
    }
    assert_eq!(state.scroll_offset, 23);
    assert_eq!(frames, 3);
    assert!(!state.drain_frame(ScrollDrainMode::Native), "nothing is left");
}

#[test]
fn a_drained_wheel_stops_at_the_end_and_follows_it_again() {
    let mut state = ScrollViewState::new(true, true);
    state.measure_viewport(0, 10);
    state.begin_render(40, true, true);
    state.act(ScrollAction { delta: -3, is_wheel: true }, false, false);
    while state.pending_scroll_delta != 0 {
        state.drain_frame(ScrollDrainMode::Native);
    }
    assert_eq!(state.committed_scroll_offset(), 27);
    state.act(ScrollAction { delta: 200, is_wheel: true }, false, false);
    while state.pending_scroll_delta != 0 {
        state.drain_frame(ScrollDrainMode::Native);
    }
    assert_eq!(state.scroll_offset, 30);
    assert!(!state.user_scrolled_up);
}

#[test]
fn a_viewport_without_height_drops_what_is_pending() {
    let mut state = ScrollViewState::new(false, true);
    state.queue_delta(9);
    assert!(!state.drain_frame(ScrollDrainMode::Native));
    assert_eq!(state.pending_scroll_delta, 0);
}

#[test]
fn scrolling_up_leaves_the_bottom_and_reaching_it_comes_back() {
    let mut state = ScrollViewState::new(true, false);
    state.measure_viewport(0, 5);
    state.begin_render(20, true, false);
    assert_eq!(state.committed_scroll_offset(), 15);
    state.act(ScrollAction { delta: -1, is_wheel: false }, false, false);
    assert!(state.user_scrolled_up);
    assert_eq!(state.scroll_offset, 14);
    state.begin_render(30, true, false);
    assert_eq!(state.committed_scroll_offset(), 14, "growing content does not move it");
    state.act(ScrollAction { delta: 100, is_wheel: false }, false, false);
    assert!(!state.user_scrolled_up);
    assert_eq!(state.committed_scroll_offset(), 25);
}

#[test]
fn a_render_keeps_the_offset_inside_the_content() {
    let mut state = scrolled_state();
    state.act(ScrollAction { delta: 15, is_wheel: false }, false, false);
    state.queue_delta(3);
    state.begin_render(8, false, false);
    assert_eq!(state.scroll_offset, 3);
    assert_eq!(state.pending_scroll_delta, 0);
}

#[test]
fn a_dragged_selection_scrolls_row_by_row() {
    let mut state = scrolled_state();
    let mut ticks = DragAutoscrollTickState::default();
    let selection = DragSelection {
        enabled: true,
        dragging: true,
        focus: Some((4, 9)),
        anchor_row: Some(3),
        captured_rows_empty: true,
    };
    assert!(update_drag_autoscroll(&mut ticks, &selection, &state));
    let down = Some(SelectionDragScrollDirection::Down);
    let scroll = drag_autoscroll_tick(&mut state, &mut ticks, down, selection.focus, true, 2)
        .unwrap();
    assert_eq!((scroll.lines, scroll.top, scroll.bottom), (2, 2, 6));
    assert_eq!(state.scroll_offset, 2);
    assert_eq!(ticks.ticks, 1);
    state.scroll_offset = 14;
    let scroll = drag_autoscroll_tick(&mut state, &mut ticks, down, selection.focus, true, 2)
        .unwrap();
    assert_eq!(scroll.lines, 1, "only one row is left");
    assert!(
        drag_autoscroll_tick(&mut state, &mut ticks, down, selection.focus, true, 2).is_none()
    );
    assert!(
        drag_autoscroll_tick(&mut state, &mut ticks, None, selection.focus, true, 2).is_none()
    );
    assert_eq!(ticks.blocked_focus, Some((4, 9)));
    assert!(!update_drag_autoscroll(&mut ticks, &selection, &state));
}

#[test]
fn a_selection_inside_the_viewport_does_not_scroll_it() {
    let state = scrolled_state();
    let mut ticks = DragAutoscrollTickState::default();
    let inside = DragSelection {
        enabled: true,
        dragging: true,
        focus: Some((4, 6)),
        anchor_row: Some(3),
        captured_rows_empty: true,
    };
    assert!(!update_drag_autoscroll(&mut ticks, &inside, &state));
    let foreign = DragSelection { focus: Some((4, 9)), anchor_row: Some(1), ..inside };
    assert!(!update_drag_autoscroll(&mut ticks, &foreign, &state));
    let lost = DragSelection { captured_rows_empty: false, ..foreign };
    assert!(update_drag_autoscroll(&mut ticks, &lost, &state));
}

#[test]
fn small_moves_are_hinted_to_the_terminal() {
    let mut state = scrolled_state();
    let mut hint = ScrollHintHook::default();
    hint.update(&state);
    assert_eq!(hint.pre_component_draw(2, 5), None);
    state.act(ScrollAction { delta: 1, is_wheel: false }, false, false);
    hint.update(&state);
    assert_eq!(hint.pre_component_draw(2, 5), Some(1));
    assert_eq!(hint.pre_component_draw(2, 5), None, "nothing moved");
    state.act(ScrollAction { delta: 5, is_wheel: false }, false, false);
    hint.update(&state);
    assert_eq!(hint.pre_component_draw(2, 5), None, "no row stays");
    state.act(ScrollAction { delta: -2, is_wheel: false }, false, false);
    hint.update(&state);
    assert_eq!(hint.pre_component_draw(3, 5), None, "drawn elsewhere");
}

#[test]
fn growing_content_moves_the_selection_of_a_view_at_the_bottom() {
    assert_eq!(
        content_measured(10, 13, true, true, 2, 5, true),
        Some(FollowScroll { lines: 3, top: 2, bottom: 6 })
    );
    assert_eq!(content_measured(10, 13, false, true, 2, 5, true), None);
    assert_eq!(content_measured(0, 13, true, true, 2, 5, true), None);
    assert_eq!(content_measured(10, 13, true, true, 2, 5, false), None);
}

#[test]
fn a_scrolled_view_moves_its_content_up() {
    let mut state = scrolled_state();
    state.act(ScrollAction { delta: 4, is_wheel: false }, false, false);
    let props = ScrollViewProps {
        children: vec![text(0, "content")],
        scrollbar_thumb_color: Some(Color::Blue),
        ..ScrollViewProps::default()
    };
    let element = ScrollView(&state, props);
    let ElementNode::View(row) = &element.node else {
        panic!("a view")
    };
    assert_eq!(row.layout.width, Dimension::Percent(100));
    assert_eq!(row.children.len(), 2);
    let ElementNode::View(pane) = &row.children[0].node else {
        panic!("a pane")
    };
    let ElementNode::View(moved) = &pane.children[0].node else {
        panic!("a moved box")
    };
    assert_eq!(moved.layout.position, Position::Absolute);
    assert_eq!(moved.layout.top, Some(-4));
    let ElementNode::ContentMeasurer(measurer) = &moved.children[0].node else {
        panic!("a measurer")
    };
    assert_eq!(measurer.children.len(), 1);
    assert!(!measurer.pinned_to_bottom);
    let ElementNode::Scrollbar(scrollbar) = &row.children[1].node else {
        panic!("a scrollbar")
    };
    assert_eq!(scrollbar.scroll_offset, 4);
    assert_eq!(scrollbar.thumb_color, Some(Color::Blue));
}

#[test]
fn a_view_at_the_bottom_holds_its_content_at_its_end() {
    let mut state = ScrollViewState::new(true, false);
    state.measure_viewport(0, 5);
    state.begin_render(4, true, false);
    let element = ScrollView(
        &state,
        ScrollViewProps {
            children: vec![text(0, "content")],
            auto_scroll: true,
            ..ScrollViewProps::default()
        },
    );
    let ElementNode::View(pane) = &element.node else {
        panic!("a view")
    };
    assert_eq!(pane.layout.justify_content, JustifyContent::FlexEnd);
    assert!(matches!(pane.children[0].node, ElementNode::ContentMeasurer(_)));
}

fn bar(viewport_height: u16, content_height: u16, scroll_offset: i32) -> String {
    ScrollViewScrollbar::new(ScrollViewScrollbarProps {
        viewport_height,
        content_height,
        scroll_offset,
        thumb_color: None,
        track_color: None,
    })
    .draw(false)
    .iter()
    .map(|op| match op {
        DrawOp::SetText { text, style, .. } => {
            let thumb = text == "\u{2503}";
            assert_eq!(
                style.color,
                Some(if thumb { Color::White } else { Color::DarkGrey })
            );
            if thumb { '#' } else { '.' }
        }
        _ => panic!("a scrollbar is text"),
    })
    .collect()
}

#[test]
fn the_thumb_stays_on_the_track() {
    assert_eq!(bar(5, 20, 0), "#....");
    assert_eq!(bar(5, 20, 8), "..#..");
    assert_eq!(bar(5, 20, 15), "....#");
    assert_eq!(bar(6, 12, 6), "...###");
    assert_eq!(bar(5, 5, 0), "", "all of the content is seen");
    assert_eq!(bar(0, 5, 0), "");
}

#[test]
fn scroll_boxes_fill_in_their_defaults() {
    let element = ScrollBox(ScrollBoxProps {
        sticky_scroll: true,
        scroll_step: Some(7),
        ..ScrollBoxProps::default()
    });
    let ElementNode::ScrollView(view) = element.node else {
        panic!("a scroll view")
    };
    assert!(view.auto_scroll);
    assert_eq!(view.scrollbar, Some(false), "no scrollbar by default");
    assert_eq!(view.scroll_step, Some(7));
    assert_eq!(view.scroll_drain_mode, None);

    let element = FastScrollBox(FastScrollBoxProps::default(), true);
    let ElementNode::ScrollBox(fast) = element.node else {
        panic!("a scroll box")
    };
    assert_eq!(fast.wheel_acceleration, Some(true));
    assert_eq!(fast.scroll_drain_mode, Some(ScrollDrainMode::XtermJs));
}

#[test]
fn a_handle_does_nothing_until_it_is_attached() {
    let mut handle = ScrollViewHandle::default();
    handle.scroll_to(7);
    assert_eq!(handle.scroll_offset(), 0);
    assert_eq!(handle.subscribe().id, None);
    handle.attach(true, false);
    if let Some(inner) = handle.inner.as_mut() {
        inner.state.measure_viewport(3, 10);
        inner.state.begin_render(50, true, false);
    }
    assert!(handle.is_sticky());
    handle.scroll_to(12);
    assert!(!handle.is_sticky());
    assert_eq!(handle.scroll_offset(), 12);
    handle.scroll_to_bottom();
    assert!(handle.is_auto_scroll_pinned());
    assert_eq!(handle.scroll_offset(), 40);
    handle.scroll_by(-5);
    assert_eq!(handle.get_scroll_top(), 35);
    handle.scroll_to_rect(Rect { left: 0, right: 1, top: 5, bottom: 6 }, 1);
    assert_eq!(handle.scroll_offset(), 38);
    handle.scroll_to_content_top(10, -2);
    assert_eq!(handle.scroll_offset(), 8);
    handle.scroll_to_top();
    assert_eq!(handle.scroll_offset(), 0);
    assert_eq!(handle.content_height(), 50);
    assert_eq!(handle.viewport_height(), 10);
    assert_eq!(handle.viewport_top(), 3);
    handle.scroll_to_element(Rect { left: 0, right: 1, top: 9, bottom: 10 }, 0);
    assert_eq!(handle.scroll_offset(), 6);
    assert_eq!(handle.get_scroll_height(), 50);
    assert_eq!(handle.get_fresh_scroll_height(), 50);
    assert_eq!(handle.get_viewport_height(), 10);
    assert_eq!(handle.get_viewport_top(), 3);
}

#[test]
fn listeners_are_told_until_they_unsubscribe() {
    let mut handle = ScrollViewHandle::default();
    handle.attach(false, false);
    let first = handle.subscribe();
    let second = handle.subscribe();
    handle.scroll_to(1);
    handle.unsubscribe(first);
    handle.scroll_to(2);
    let owed = handle.inner.as_mut().map(|inner| inner.subscribers.take_owed());
    assert_eq!(
        owed,
        Some(vec![first.id.unwrap_or(9), second.id.unwrap_or(9), second.id.unwrap_or(9)])
    );
}

#[test]
fn the_top_is_left_only_by_moving_down() {
    let mut handle = ScrollViewHandle::default();
    handle.attach(true, false);
    if let Some(inner) = handle.inner.as_mut() {
        inner.state.measure_viewport(0, 10);
        inner.state.begin_render(4, true, false);
    }
    assert!(handle.is_auto_scroll_pinned());
    handle.scroll_to_top();
    assert_eq!((handle.scroll_offset(), handle.get_pending_delta()), (0, 0));
    assert!(!handle.is_auto_scroll_pinned(), "also where all of the content is seen");
    handle.scroll_by(1);
    assert!(handle.is_auto_scroll_pinned(), "the bottom is reached");
}

#[test]
fn ending_one_subscription_leaves_the_others() {
    let mut handle = ScrollViewHandle::default();
    assert_eq!(handle.subscribe().id, None);
    handle.attach(true, false);
    let first = handle.subscribe();
    let second = handle.subscribe();
    let third = handle.subscribe();
    assert!(first.id != second.id && second.id != third.id && first.id != third.id);
    handle.unsubscribe(second);
    handle.scroll_to_top();
    handle.scroll_to_bottom();
    handle.set_clamp_bounds(Some(1), None);
    let owed = handle.inner.as_mut().unwrap().subscribers.take_owed();
    let calls = |subscription: ScrollViewSubscription| {
        owed.iter().filter(|id| Some(**id) == subscription.id).count()
    };
    assert_eq!((calls(first), calls(second), calls(third)), (3, 0, 3));
}

#[test]
fn clamp_bounds_move_only_what_is_seen() {
    let mut handle = ScrollViewHandle::default();
    handle.attach(false, false);
    if let Some(inner) = handle.inner.as_mut() {
        inner.state.measure_viewport(0, 10);
        inner.state.begin_render(100, false, false);
    }
    handle.scroll_to(60);
    handle.set_clamp_bounds(Some(10), Some(20));
    assert_eq!(handle.scroll_offset(), 60);
    let state = handle.inner.as_ref().map(|inner| inner.state);
    assert_eq!(state.map(|state| state.visual_scroll_offset()), Some(20));
    assert_eq!(
        state.map(|state| state.clamp_bounds),
        Some(ScrollClampBounds { min: Some(10), max: Some(20) })
    );
    handle.clear_clamp_bounds();
    let state = handle.inner.as_ref().map(|inner| inner.state);
    assert_eq!(state.map(|state| state.visual_scroll_offset()), Some(60));
}

/// A wheel with its multiplier.
struct Wheel {
    state: WheelAccelState,
    mult: f64,
    frac: f64,
    base: f64,
}

impl Wheel {
    fn new(xterm_js: bool, base: f64) -> Wheel {
        Wheel {
            state: WheelAccelState::new(Some(xterm_js)),
            mult: base,
            frac: 0.0,
            base,
        }
    }

    fn compute(&mut self, dir: i8, now_ms: f64) -> i32 {
        let step = self.state.compute(dir, (now_ms * 1e6) as u64, false);
        if step.restarts {
            self.mult = self.base;
        }
        let decay = 0.5_f64.powf(step.gap as f64 / 1e6 / 150.0);
        match step.rows {
            WheelRows::Nothing => return 0,
            WheelRows::One => return 1,
            WheelRows::Base => self.mult = self.base,
            WheelRows::Faster => self.mult = (self.mult + 0.3).min(6.0_f64.max(self.base * 2.0)),
            WheelRows::Momentum => {
                let next = 1.0 + (self.mult - 1.0) * decay + 15.0 * decay;
                self.mult = next
                    .min(15.0_f64.max(self.base * 2.0))
                    .min(self.mult + 3.0);
            }
            WheelRows::StartOver => {
                self.mult = 2.0;
                self.frac = 0.0;
            }
            WheelRows::Decay { slow } => {
                let cap = if slow { 3.0 } else { 6.0 };
                self.mult = (1.0 + (self.mult - 1.0) * decay + 5.0 * decay).min(cap);
            }
        }
        let total = self.mult + self.frac;
        let rows = total.floor();
        if matches!(step.rows, WheelRows::StartOver | WheelRows::Decay { .. }) {
            self.frac = total - rows;
        }
        rows as i32
    }
}

#[test]
fn test_wheel_accel_native_rapid_events_ramp_and_idle_reset() {
    let mut accel = Wheel::new(false, 1.0);
    assert_eq!(accel.compute(1, 0.0), 1);
    assert_eq!(accel.compute(1, 20.0), 1);
    assert_eq!(accel.compute(1, 40.0), 1);
    assert_eq!(accel.compute(1, 60.0), 2);
    assert_eq!(accel.compute(1, 500.0), 1);
}

#[test]
fn test_wheel_accel_xterm_decay_and_fractional_carry() {
    let mut accel = Wheel::new(true, 1.0);
    assert_eq!(accel.compute(1, 0.0), 2);
    assert!(accel.compute(1, 100.0) >= 3, "sparse events speed it up");
    assert_eq!(accel.compute(1, 101.0), 1, "one row for each event of a batch");
}

#[test]
fn a_wheel_that_bounces_is_told_from_a_trackpad() {
    let millis = |millis: u64| millis * 1_000_000;
    let mut state = WheelAccelState::new(None);
    assert_eq!(state.compute(1, millis(0), false).rows, WheelRows::Faster);
    assert_eq!(state.compute(-1, millis(100), true).rows, WheelRows::Nothing);
    assert_eq!(state.compute(1, millis(150), true).rows, WheelRows::Momentum);
    assert!(state.wheel_mode);
    for _ in 0..4 {
        assert_eq!(state.compute(1, millis(151), false).rows, WheelRows::One);
    }
    let full = state.compute(1, millis(152), false);
    assert!(full.restarts && !state.wheel_mode, "so many at once are a trackpad");
    assert_eq!(full.rows, WheelRows::Faster);

    assert_eq!(state.compute(-1, millis(200), false).rows, WheelRows::Nothing);
    assert_eq!(state.compute(-1, millis(210), false).rows, WheelRows::Base);
    assert_eq!(state.dir, -1);
    assert_eq!(state.compute(-1, millis(300), false).rows, WheelRows::Base);
}
