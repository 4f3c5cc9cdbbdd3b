use iocraft::event::Rect;
use iocraft::scroll_drain::{
    drain_scroll_delta, scroll_drain_mode_for_xterm_js_host, ScrollDrainMode, ScrollDrainResult,
    ScrollDrainState,
};
use iocraft::scroll_handle::scroll_content_top_for_absolute_rect;
use iocraft::scroll_offset::{
    plan_scroll_box_render_offset, ScrollBoxRenderOffsetInput, ScrollBoxRenderOffsetPlan,
};

#[test]
fn test_scroll_box_render_offset_plan_matches_cc_anchor_sticky_drain_and_clamp_order() {
    let anchor = plan_scroll_box_render_offset(ScrollBoxRenderOffsetInput {
        current_scroll_top: 5,
        previous_scroll_height: 50,
        scroll_height: 50,
        viewport_height: 10,
        sticky: true,
        pending_delta: Some(12),
        anchor_top: Some(20),
        anchor_offset: -2,
        clamp_min: None,
        clamp_max: None,
        drain_mode: Some(ScrollDrainMode::Native),
    });
    assert_eq!(
        anchor,
        ScrollBoxRenderOffsetPlan {
            scroll_top: 18,
            committed_scroll_top: 18,
            pending_delta: None,
            sticky: false,
            anchor_consumed: true,
            followed_bottom: false,
            drained_delta: 0,
            clamped_to_scroll_range: false,
            clamped_to_mounted_range: false,
        },
        "an anchor consumes what is pending and breaks stickiness"
    );

    let follow = plan_scroll_box_render_offset(ScrollBoxRenderOffsetInput {
        current_scroll_top: 40,
        previous_scroll_height: 50,
        scroll_height: 55,
        viewport_height: 10,
        sticky: false,
        pending_delta: Some(0),
        anchor_top: None,
        anchor_offset: 0,
        clamp_min: None,
        clamp_max: None,
        drain_mode: Some(ScrollDrainMode::Native),
    });
    assert_eq!(follow.scroll_top, 45);
    assert!(follow.sticky);
    assert!(follow.followed_bottom);
    assert_eq!(follow.pending_delta, None);

    let drained = plan_scroll_box_render_offset(ScrollBoxRenderOffsetInput {
        current_scroll_top: 13,
        previous_scroll_height: 100,
        scroll_height: 100,
        viewport_height: 10,
        sticky: false,
        pending_delta: Some(20),
        anchor_top: None,
        anchor_offset: 0,
        clamp_min: Some(12),
        clamp_max: Some(14),
        drain_mode: Some(ScrollDrainMode::Native),
    });
    assert_eq!(
        drained,
        ScrollBoxRenderOffsetPlan {
            scroll_top: 14,
            committed_scroll_top: 22,
            pending_delta: Some(11),
            sticky: false,
            anchor_consumed: false,
            followed_bottom: false,
            drained_delta: 9,
            clamped_to_scroll_range: false,
            clamped_to_mounted_range: true,
        },
        "the mounted range clamps only what is seen"
    );

    let past_clamp = plan_scroll_box_render_offset(ScrollBoxRenderOffsetInput {
        current_scroll_top: 22,
        previous_scroll_height: 100,
        scroll_height: 100,
        viewport_height: 32,
        sticky: false,
        pending_delta: Some(20),
        anchor_top: None,
        anchor_offset: 0,
        clamp_min: Some(12),
        clamp_max: Some(14),
        drain_mode: Some(ScrollDrainMode::Native),
    });
    assert_eq!(past_clamp.drained_delta, 3);
    assert_eq!(past_clamp.committed_scroll_top, 25);
    assert_eq!(past_clamp.scroll_top, 14);
    assert_eq!(past_clamp.pending_delta, Some(17));
}

#[test]
fn test_scroll_drain_mode_host_strategy_matches_cc_ink_xterm_branch() {
    assert_eq!(scroll_drain_mode_for_xterm_js_host(false), ScrollDrainMode::Native);
    assert_eq!(scroll_drain_mode_for_xterm_js_host(true), ScrollDrainMode::XtermJs);
    for xterm_js in [false, true] {
        assert_eq!(
            ScrollDrainMode::for_current_terminal(xterm_js),
            scroll_drain_mode_for_xterm_js_host(xterm_js)
        );
    }
}

#[test]
fn test_scroll_drain_delta_matches_cc_ink_native_and_xterm_rules() {
    assert_eq!(
        drain_scroll_delta(ScrollDrainMode::Native, 3, 10),
        ScrollDrainResult { applied: 3, remaining: 0 },
        "small deltas drain fully"
    );
    assert_eq!(
        drain_scroll_delta(ScrollDrainMode::Native, 20, 10),
        ScrollDrainResult { applied: 9, remaining: 11 },
        "a frame is capped at one row less than the viewport"
    );
    assert_eq!(
        drain_scroll_delta(ScrollDrainMode::Native, -20, 10),
        ScrollDrainResult { applied: -9, remaining: -11 }
    );
    assert_eq!(
        drain_scroll_delta(ScrollDrainMode::XtermJs, 4, 10),
        ScrollDrainResult { applied: 4, remaining: 0 },
        "slow clicks drain at once"
    );
    assert_eq!(
        drain_scroll_delta(ScrollDrainMode::XtermJs, 10, 10),
        ScrollDrainResult { applied: 2, remaining: 8 },
        "a medium delta has a fixed step"
    );
    assert_eq!(
        drain_scroll_delta(ScrollDrainMode::XtermJs, 40, 10),
        ScrollDrainResult { applied: 9, remaining: 31 },
        "excess is applied at once, up to the cap"
    );
    assert_eq!(
        drain_scroll_delta(ScrollDrainMode::XtermJs, -40, 4),
        ScrollDrainResult { applied: -3, remaining: -37 },
        "the sign and the cap hold for negative deltas"
    );
}

#[test]
fn test_scroll_drain_state_keeps_cc_ink_pending_delta_as_explicit_rust_state() {
    let mut state = ScrollDrainState::with_pending(ScrollDrainMode::XtermJs, 40);
    assert_eq!(state.mode(), ScrollDrainMode::XtermJs);
    assert!(state.has_pending_delta());

    assert_eq!(state.drain_frame(10), ScrollDrainResult { applied: 9, remaining: 31 });
    assert_eq!(state.pending_delta(), 31);

    state.add_delta(-6);
    assert_eq!(state.pending_delta(), 25);
    assert_eq!(state.drain_frame(10), ScrollDrainResult { applied: 3, remaining: 22 });

    state.set_mode(ScrollDrainMode::Native);
    state.set_pending_delta(3);
    assert_eq!(state.drain_frame(10), ScrollDrainResult { applied: 3, remaining: 0 });
    assert!(!state.has_pending_delta());

    state.add_delta(i32::MAX);
    state.add_delta(1);
    assert_eq!(state.pending_delta(), i32::MAX);
    state.clear();
    assert_eq!(state.pending_delta(), 0);
}

#[test]
fn test_scroll_content_top_for_absolute_rect_matches_cc_scroll_to_element_math() {
    let rect = Rect { left: 0, right: 10, top: 22, bottom: 23 };
    assert_eq!(scroll_content_top_for_absolute_rect(5, 10, rect, -1), 16);

    let saturated = Rect { left: 0, right: 1, top: i32::MAX, bottom: i32::MAX };
    assert_eq!(
        scroll_content_top_for_absolute_rect(i32::MAX, -1, saturated, 10),
        i32::MAX
    );
}

#[test]
fn drained_rows_add_up_and_come_to_an_end() {
    for mode in [ScrollDrainMode::Native, ScrollDrainMode::XtermJs] {
        let mut pending = -137;
        let mut total = 0;
        let mut frames = 0;
        while pending != 0 {
            let result = drain_scroll_delta(mode, pending, 12);
            assert!(result.applied < 0 && result.applied >= -11);
            assert_eq!(result.applied + result.remaining, pending);
            total += result.applied;
            pending = result.remaining;
            frames += 1;
        }
        assert_eq!(total, -137);
        assert!(frames <= 137);
    }
}

#[test]
fn an_empty_delta_drains_nothing() {
    for mode in [ScrollDrainMode::Native, ScrollDrainMode::XtermJs] {
        assert_eq!(
            drain_scroll_delta(mode, 0, 10),
            ScrollDrainResult { applied: 0, remaining: 0 }
        );
        assert_eq!(
            drain_scroll_delta(mode, 3, 0),
            ScrollDrainResult { applied: 1, remaining: 2 }
        );
    }
}

#[test]
fn render_offset_stays_in_the_scroll_range() {
    let plan = plan_scroll_box_render_offset(ScrollBoxRenderOffsetInput {
        current_scroll_top: 500,
        previous_scroll_height: 100,
        scroll_height: 40,
        viewport_height: 10,
        ..ScrollBoxRenderOffsetInput::default()
    });
    assert_eq!(plan.committed_scroll_top, 30);
    assert_eq!(plan.scroll_top, 30);
}

#[test]
fn a_drain_ends_whatever_the_viewport_does() {
    for mode in [ScrollDrainMode::Native, ScrollDrainMode::XtermJs] {
        let mut pending = -57;
        let mut applied = 0;
        let mut frames = 0;
        for height in [3, 40, 1, 0, 12, 7].into_iter().cycle() {
            if pending == 0 {
                break;
            }
            let ScrollDrainResult { applied: rows, remaining, .. } =
                drain_scroll_delta(mode, pending, height);
            applied += rows;
            pending = remaining;
            frames += 1;
        }
        assert_eq!(applied, -57);
        assert!(frames <= 57);
    }
}
