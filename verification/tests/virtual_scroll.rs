use iocraft::virtual_scroll::{
    plan_virtual_scroll_range, virtual_scroll_snapshot_bin, VirtualScrollConfig,
    VirtualScrollInput, VirtualScrollRange,
};
use iocraft::virtual_scroll_state::VirtualScrollState;

#[test]
fn test_virtual_scroll_plan_cold_start_mounts_tail_with_coverage() {
    let heights = vec![Some(2); 100];
    let config = VirtualScrollConfig {
        cold_start_count: 10,
        ..Default::default()
    };
    let plan = plan_virtual_scroll_range(&heights, VirtualScrollInput::default(), config);

    assert_eq!(plan.range, VirtualScrollRange::new(20, 100));
    assert_eq!(plan.top_spacer, 40);
    assert_eq!(plan.bottom_spacer, 0);
    assert_eq!(plan.total_height, 200);
    assert_eq!(plan.clamp_min, None);
    assert_eq!(plan.clamp_max, None);
}

#[test]
fn test_virtual_scroll_plan_sticky_tail_keeps_coverage() {
    let heights = vec![Some(2); 100];
    let config = VirtualScrollConfig {
        overscan_rows: 6,
        ..Default::default()
    };
    let plan = plan_virtual_scroll_range(
        &heights,
        VirtualScrollInput {
            scroll_top: Some(170),
            viewport_height: 10,
            is_sticky: true,
            ..Default::default()
        },
        config,
    );

    assert_eq!(plan.range, VirtualScrollRange::new(89, 100));
    assert_eq!(plan.top_spacer, 178);
    assert_eq!(plan.bottom_spacer, 0);
    assert_eq!(plan.clamp_min, None);
    assert_eq!(plan.clamp_max, None);
}

#[test]
fn test_virtual_scroll_plan_spans_committed_and_pending_delta() {
    let heights = vec![None; 1000];
    let config = VirtualScrollConfig {
        overscan_rows: 6,
        scroll_quantum_rows: 10,
        max_mounted_items: 50,
        ..Default::default()
    };
    let plan = plan_virtual_scroll_range(
        &heights,
        VirtualScrollInput {
            scroll_top: Some(300),
            pending_delta: 120,
            viewport_height: 20,
            is_sticky: false,
            ..Default::default()
        },
        config,
    );

    assert_eq!(plan.range, VirtualScrollRange::new(98, 130));
    assert_eq!(plan.top_spacer, 294);
    assert_eq!(plan.clamp_min, Some(294));
    assert_eq!(plan.clamp_max, Some(370));
    assert_eq!(plan.target_scroll_top, 420);
    assert_eq!(plan.snapshot_bin, 42);
}

#[test]
fn test_virtual_scroll_plan_slide_caps_large_forward_jump() {
    let heights = vec![Some(1); 1000];
    let config = VirtualScrollConfig {
        overscan_rows: 5,
        slide_step_items: 10,
        max_mounted_items: 100,
        ..Default::default()
    };
    let plan = plan_virtual_scroll_range(
        &heights,
        VirtualScrollInput {
            scroll_top: Some(500),
            pending_delta: 1000,
            viewport_height: 20,
            is_sticky: false,
            previous_range: Some(VirtualScrollRange::new(100, 130)),
            previous_scroll_top: Some(100),
            ..Default::default()
        },
        config,
    );

    assert_eq!(plan.range, VirtualScrollRange::new(495, 505));
    assert_eq!(plan.range.len(), config.slide_step_items);
}

#[test]
fn test_virtual_scroll_snapshot_bin_marks_sticky_transitions() {
    let config = VirtualScrollConfig {
        scroll_quantum_rows: 40,
        ..Default::default()
    };
    assert_eq!(virtual_scroll_snapshot_bin(80, 30, false, config), 2);
    assert_eq!(virtual_scroll_snapshot_bin(80, 30, true, config), !2);
}

#[test]
fn test_virtual_scroll_state_caches_heights_and_retain_keys() {
    let mut state = VirtualScrollState::new();
    state.set_height("a", 2);
    state.set_height("b", 5);
    state.set_height("stale", 9);
    assert_eq!(state.len(), 3);
    assert!(state.retain_keys(&["a", "b"]));
    assert_eq!(state.height(&"stale"), None);

    let keys = ["a", "b", "c"];
    let plan = state.plan(
        &keys,
        VirtualScrollInput {
            scroll_top: Some(0),
            viewport_height: 4,
            is_sticky: false,
            ..Default::default()
        },
        VirtualScrollConfig {
            overscan_rows: 1,
            max_mounted_items: 10,
            ..Default::default()
        },
    );
    assert_eq!(plan.total_height, 10, "cached heights plus the estimate");
    assert_eq!(state.previous_range(), Some(plan.range));
}

#[test]
fn test_virtual_scroll_state_scales_heights_and_freezes_range_on_columns_change() {
    let keys = (0..100).collect::<Vec<i32>>();
    let mut state = VirtualScrollState::new();
    for key in &keys {
        state.set_height(*key, 2);
    }
    state.set_columns(100);
    let first = state.plan(
        &keys,
        VirtualScrollInput {
            scroll_top: Some(100),
            viewport_height: 10,
            is_sticky: false,
            ..Default::default()
        },
        VirtualScrollConfig {
            overscan_rows: 4,
            max_mounted_items: 50,
            ..Default::default()
        },
    );

    assert!(state.set_columns(50));
    assert!(state.take_skip_measurement());
    assert!(!state.take_skip_measurement());
    assert_eq!(state.height(&0), Some(4), "heights grow as columns shrink");
    assert_eq!(state.freeze_remaining(), 2);

    let frozen = state.plan(
        &keys,
        VirtualScrollInput {
            scroll_top: Some(100),
            viewport_height: 10,
            is_sticky: false,
            ..Default::default()
        },
        VirtualScrollConfig {
            overscan_rows: 4,
            max_mounted_items: 50,
            ..Default::default()
        },
    );
    assert_eq!(frozen.range, first.range, "the old range lasts one more pass");
    assert_eq!(state.freeze_remaining(), 1);
}

#[test]
fn spacers_and_mounted_items_make_up_the_list() {
    let heights: Vec<Option<u16>> = (0..500).map(|i| Some(1 + (i % 4) as u16)).collect();
    let plan = plan_virtual_scroll_range(
        &heights,
        VirtualScrollInput {
            scroll_top: Some(300),
            viewport_height: 24,
            ..Default::default()
        },
        VirtualScrollConfig::default(),
    );
    let mounted: i32 = heights[plan.range.start..plan.range.end]
        .iter()
        .map(|height| height.unwrap_or(3) as i32)
        .sum();
    assert_eq!(plan.top_spacer + mounted + plan.bottom_spacer, plan.total_height);
    assert!(plan.range.len() <= 300);
    assert!(!plan.range.is_empty());
}

#[test]
fn heights_are_set_changed_and_removed() {
    let mut state: VirtualScrollState<u64> = VirtualScrollState::new();
    assert!(state.is_empty());
    assert!(state.set_height(7, 3));
    assert!(!state.set_height(7, 3), "nothing changed");
    assert!(state.set_height(7, 4));
    assert_eq!(state.height(&7), Some(4));
    assert!(state.remove_height(&7));
    assert!(!state.remove_height(&7));
    state.set_height(1, 1);
    state.clear_heights();
    assert_eq!(state.len(), 0);
    state.clear_planning_state();
    assert_eq!(state.previous_range(), None);
    assert_eq!(state.freeze_remaining(), 0);
}

#[test]
fn a_height_is_cached_once_per_key() {
    let mut state: VirtualScrollState<u64> = VirtualScrollState::new();
    assert!(state.set_height(7, 3));
    assert_eq!((state.len(), state.height(&7)), (1, Some(3)));
    assert!(!state.set_height(7, 3), "nothing changes");
    assert!(state.set_height(7, 4));
    assert_eq!((state.len(), state.height(&7)), (1, Some(4)));
    assert!(state.set_height(8, 1));
    assert_eq!((state.len(), state.height(&7), state.height(&8)), (2, Some(4), Some(1)));
}

#[test]
fn a_plan_reaches_the_pending_target() {
    let heights = vec![Some(1); 400];
    let input = VirtualScrollInput {
        scroll_top: Some(100),
        pending_delta: 20,
        viewport_height: 10,
        is_sticky: false,
        ..VirtualScrollInput::default()
    };
    let config = VirtualScrollConfig {
        overscan_rows: 5,
        ..VirtualScrollConfig::default()
    };
    let plan = plan_virtual_scroll_range(&heights, input, config);
    assert!(plan.range.start <= 95, "the overscan before the committed offset");
    assert!(plan.range.end >= 135, "the viewport and the overscan after the target");
}
