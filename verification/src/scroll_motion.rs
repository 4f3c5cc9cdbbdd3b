//! How a scroll view moves: what keys, the wheel, frames of draining and a dragged
//! selection do to its scroll position.

use crate::event::{KeyEventKind, MouseEventKind, TerminalEvent};
use crate::math::saturating_add;
use crate::scroll_drain::{drain_scroll_delta, ScrollDrainMode, ScrollDrainResult};
use crate::scroll_handle::{
    clamp_offset_to_scroll_range, clamp_offset_with_bounds, max_offset, visual_range,
    ScrollViewState,
};
use crate::scroll_keys::scroll_key_delta;
use vstd::prelude::*;

verus! {

/// The rows that the wheel scrolls by default.
pub const DEFAULT_SCROLL_STEP: u16 = 3;

/// The ticks for which a dragged selection scrolls before it has to be moved.
pub const SELECTION_AUTOSCROLL_MAX_TICKS: usize = 200;

/// What an event asks of a scroll view.
#[derive(Clone, Copy, Debug, PartialEq, Eq, Structural)]
pub struct ScrollAction {
    /// The rows to scroll; positive is down.
    pub delta: i32,
    /// Whether the wheel asked for it.
    pub is_wheel: bool,
}

/// The direction of the wheel in an event: -1 up, 1 down; `None` for other events.
pub fn wheel_direction(event: &TerminalEvent) -> (direction: Option<i8>)
    ensures
        direction == match *event {
            TerminalEvent::FullscreenMouse(mouse) => match mouse.kind {
                MouseEventKind::ScrollUp => Some(-1i8),
                MouseEventKind::ScrollDown => Some(1i8),
                _ => None,
            },
            _ => None,
        },
        *event matches TerminalEvent::FullscreenMouse(mouse) ==> {
            &&& mouse.kind == MouseEventKind::ScrollUp <==> direction == Some(-1i8)
            &&& mouse.kind == MouseEventKind::ScrollDown <==> direction == Some(1i8)
        },
        !(*event is FullscreenMouse) ==> direction is None,
{
    match event {
        TerminalEvent::FullscreenMouse(mouse) => match mouse.kind {
            MouseEventKind::ScrollUp => Some(-1),
            MouseEventKind::ScrollDown => Some(1),
            _ => None,
        },
        _ => None,
    }
}

/// What an event asks of a scroll view. `wheel_step` is the number of rows that the wheel
/// scrolls.
pub open spec fn action_of(
    event: TerminalEvent,
    viewport_height: int,
    keyboard_scroll: bool,
    modal_pager_keys: bool,
    wheel_step: int,
) -> Option<ScrollAction> {
    match event {
        TerminalEvent::Key(key) => {
            let delta = crate::scroll_keys::key_delta(key, viewport_height, modal_pager_keys);
            if keyboard_scroll && key.kind != KeyEventKind::Release && delta is Some {
                Some(ScrollAction { delta: delta->0 as i32, is_wheel: false })
            } else {
                None
            }
        },
        TerminalEvent::FullscreenMouse(mouse) => if wheel_step > 0 && mouse.kind is ScrollUp {
            Some(ScrollAction { delta: (-wheel_step) as i32, is_wheel: true })
        } else if wheel_step > 0 && mouse.kind is ScrollDown {
            Some(ScrollAction { delta: wheel_step as i32, is_wheel: true })
        } else {
            None
        },
        _ => None,
    }
}

/// What an event asks of a scroll view.
pub fn scroll_action(
    event: &TerminalEvent,
    viewport_height: u16,
    keyboard_scroll: bool,
    modal_pager_keys: bool,
    wheel_step: i32,
) -> (action: Option<ScrollAction>)
    ensures
        action == action_of(
            *event,
            viewport_height as int,
            keyboard_scroll,
            modal_pager_keys,
            wheel_step as int,
        ),
{
    match event {
        TerminalEvent::Key(key) => {
            if !keyboard_scroll || key.kind == KeyEventKind::Release {
                return None;
            }
            match scroll_key_delta(key, viewport_height, modal_pager_keys) {
                Some(delta) => Some(ScrollAction { delta, is_wheel: false }),
                None => None,
            }
        },
        TerminalEvent::FullscreenMouse(mouse) => {
            if wheel_step <= 0 {
                return None;
            }
            match mouse.kind {
                MouseEventKind::ScrollUp => Some(
                    ScrollAction { delta: -wheel_step, is_wheel: true },
                ),
                MouseEventKind::ScrollDown => Some(
                    ScrollAction { delta: wheel_step, is_wheel: true },
                ),
                _ => None,
            }
        },
        _ => None,
    }
}

/// What a scroll does to the text selection.
#[derive(Clone, Copy, Debug, PartialEq, Eq, Structural)]
pub enum SelectionRequest {
    /// Nothing.
    Keep,
    /// The selection is cleared.
    Clear,
    /// The selection moves with the content, by so many rows, between two rows of the
    /// screen.
    Translate { delta: i32, top: usize, bottom: usize },
}

/// What a scroll view does about an action.
#[derive(Clone, Copy, Debug, PartialEq, Eq, Structural)]
pub struct ScrollOutcome {
    /// What happens to the text selection.
    pub selection: SelectionRequest,
    /// Whether the scroll view moved: its listeners are told, and other components do not
    /// see the event.
    pub moved: bool,
}

impl ScrollViewState {
    /// The state that a render starts from: what is pending is dropped where nothing is
    /// drained, and a view that does not follow the bottom stays inside its content.
    pub open spec fn render_started(
        self,
        content_height: u16,
        auto_scroll: bool,
        drain_enabled: bool,
    ) -> ScrollViewState {
        let synced = ScrollViewState {
            content_height,
            pending_scroll_delta: if drain_enabled {
                self.pending_scroll_delta
            } else {
                0
            },
            auto_scroll_enabled: auto_scroll,
            scroll_drain_enabled: drain_enabled,
            ..self
        };
        if synced.pinned() {
            synced
        } else {
            ScrollViewState {
                scroll_offset: crate::math::clamp_int(
                    self.scroll_offset as int,
                    0,
                    synced.max_scroll(),
                ) as i32,
                ..synced
            }
        }
    }

    /// The state after the wheel has queued rows for draining. Only a view that follows the
    /// bottom notices that it is left.
    pub open spec fn wheel_queued(self, delta: int) -> ScrollViewState {
        ScrollViewState {
            pending_scroll_delta: crate::math::sat_i32(self.pending_scroll_delta + delta) as i32,
            scroll_offset: if delta < 0 && self.pinned() {
                self.max_scroll() as i32
            } else {
                self.scroll_offset
            },
            user_scrolled_up: self.user_scrolled_up || (self.auto_scroll_enabled && delta < 0),
            ..self
        }
    }

    /// The state after a scroll by so many rows. Going up leaves the bottom, reaching it
    /// comes back to it.
    pub open spec fn scrolled(self, delta: int) -> ScrollViewState {
        let target: int = crate::math::clamp_int(self.committed() + delta, 0, self.max_scroll());
        ScrollViewState {
            scroll_offset: target as i32,
            user_scrolled_up: if !self.auto_scroll_enabled {
                self.user_scrolled_up
            } else if delta < 0 {
                true
            } else if target >= self.max_scroll() {
                false
            } else {
                self.user_scrolled_up
            },
            ..self
        }
    }

    /// How far the rendered rows move in a scroll.
    pub open spec fn visual_shift(self, delta: int) -> int {
        let target: int = crate::math::clamp_int(self.committed() + delta, 0, self.max_scroll());
        crate::scroll_handle::visual_of(target, self.max_scroll(), self.clamp_bounds)
            - self.visual()
    }

    /// The state after an action.
    pub open spec fn acted(self, action: ScrollAction) -> ScrollViewState {
        if action.is_wheel && self.scroll_drain_enabled {
            self.wheel_queued(action.delta as int)
        } else {
            self.scrolled(action.delta as int)
        }
    }

    /// What an action does besides. A wheel clears the selection; a key moves it with the
    /// rows, where the screen that it was made on is known.
    pub open spec fn outcome(
        self,
        action: ScrollAction,
        selection_enabled: bool,
        has_screen: bool,
    ) -> ScrollOutcome {
        let after = self.acted(action);
        if action.is_wheel && self.scroll_drain_enabled {
            ScrollOutcome { selection: SelectionRequest::Clear, moved: true }
        } else {
            let shift: int = self.visual_shift(action.delta as int);
            ScrollOutcome {
                selection: if action.is_wheel {
                    SelectionRequest::Clear
                } else if shift != 0 && selection_enabled && self.viewport_height > 0
                    && has_screen {
                    SelectionRequest::Translate {
                        delta: shift as i32,
                        top: self.viewport_top as usize,
                        bottom: (self.viewport_top + self.viewport_height - 1) as usize,
                    }
                } else {
                    SelectionRequest::Keep
                },
                moved: after.scroll_offset != self.committed() || after.user_scrolled_up
                    != self.user_scrolled_up,
            }
        }
    }

    /// The viewport height that a frame drains for: far past the rows that are mounted the
    /// rows come slowly.
    pub open spec fn drain_viewport(self) -> int {
        let max: int = self.max_scroll();
        let pending: int = self.pending_scroll_delta as int;
        let above: bool = pending < 0 && self.committed() < crate::scroll_handle::visual_lower(
            max,
            self.clamp_bounds,
        );
        let below: bool = pending > 0 && self.committed() > crate::scroll_handle::visual_upper(
            max,
            self.clamp_bounds,
        );
        if above || below {
            crate::math::min_int(self.viewport_height as int / 8, 4)
        } else {
            self.viewport_height as int
        }
    }

    /// The state after one frame of draining. What is pending is dropped at either end of
    /// the content.
    pub open spec fn frame_drained(self, mode: ScrollDrainMode) -> ScrollViewState {
        let pending: int = self.pending_scroll_delta as int;
        if pending == 0 {
            self
        } else if self.viewport_height == 0 {
            ScrollViewState { pending_scroll_delta: 0, ..self }
        } else {
            let height: int = self.drain_viewport();
            let applied: int = crate::scroll_drain::drain_applied(mode, pending, height);
            let wanted: int = crate::math::sat_i32(self.committed() + applied);
            let target: int = crate::math::clamp_int(wanted, 0, self.max_scroll());
            let remaining: int = if target == wanted {
                crate::scroll_drain::drain_remaining(mode, pending, height)
            } else {
                0
            };
            ScrollViewState {
                scroll_offset: target as i32,
                pending_scroll_delta: remaining as i32,
                user_scrolled_up: if !self.auto_scroll_enabled {
                    self.user_scrolled_up
                } else if applied < 0 {
                    true
                } else if target >= self.max_scroll() && remaining == 0 {
                    false
                } else {
                    self.user_scrolled_up
                },
                ..self
            }
        }
    }

    /// Whether listeners are told of a frame.
    pub open spec fn frame_tells(self, mode: ScrollDrainMode) -> bool {
        let after = self.frame_drained(mode);
        &&& self.pending_scroll_delta != 0
        &&& self.viewport_height > 0
        &&& after.scroll_offset != self.committed() || after.pending_scroll_delta
            != self.pending_scroll_delta || after.user_scrolled_up != self.user_scrolled_up
    }

    /// Starts a render.
    pub fn begin_render(&mut self, content_height: u16, auto_scroll: bool, drain_enabled: bool)
        ensures
            *final(self) == old(self).render_started(content_height, auto_scroll, drain_enabled),
            old(self).wf() ==> final(self).wf(),
    {
        if !drain_enabled {
            self.pending_scroll_delta = 0;
        }
        self.content_height = content_height;
        self.auto_scroll_enabled = auto_scroll;
        self.scroll_drain_enabled = drain_enabled;
        if !(auto_scroll && !self.user_scrolled_up) {
            self.scroll_offset = clamp_offset_to_scroll_range(
                self.scroll_offset,
                self.content_height,
                self.viewport_height,
            );
        }
    }

    /// Queues rows of the wheel for draining.
    fn queue_wheel(&mut self, delta: i32)
        ensures
            *final(self) == old(self).wheel_queued(delta as int),
    {
        self.pending_scroll_delta = saturating_add(self.pending_scroll_delta, delta);
        if self.auto_scroll_enabled && delta < 0 {
            if !self.user_scrolled_up {
                self.scroll_offset = max_offset(self.content_height, self.viewport_height);
            }
            self.user_scrolled_up = true;
        }
    }

    /// Does what an event asks for.
    pub fn act(&mut self, action: ScrollAction, selection_enabled: bool, has_screen: bool) -> (
    outcome: ScrollOutcome)
        requires
            (action.is_wheel && old(self).scroll_drain_enabled) || i32::MIN <= old(self).committed()
                + action.delta <= i32::MAX,
        ensures
            *final(self) == old(self).acted(action),
            outcome == old(self).outcome(action, selection_enabled, has_screen),
            old(self).wf() ==> final(self).wf(),
    {
        if action.is_wheel && self.scroll_drain_enabled {
            self.queue_wheel(action.delta);
            return ScrollOutcome { selection: SelectionRequest::Clear, moved: true };
        }
        let old_offset: i32 = self.committed_scroll_offset();
        let old_visual: i32 = self.visual_scroll_offset();
        let old_user_scrolled_up: bool = self.user_scrolled_up;
        let new_offset: i32 = clamp_offset_to_scroll_range(
            old_offset + action.delta,
            self.content_height,
            self.viewport_height,
        );
        let new_visual: i32 = clamp_offset_with_bounds(
            new_offset,
            self.content_height,
            self.viewport_height,
            self.clamp_bounds,
        );
        let mut selection = SelectionRequest::Keep;
        if action.is_wheel {
            selection = SelectionRequest::Clear;
        } else if new_visual != old_visual && selection_enabled && self.viewport_height > 0
            && has_screen {
            let top: usize = self.viewport_top as usize;
            selection = SelectionRequest::Translate {
                delta: new_visual - old_visual,
                top,
                bottom: top + self.viewport_height as usize - 1,
            };
        }
        self.scroll_offset = new_offset;
        if self.auto_scroll_enabled {
            let max: i32 = max_offset(self.content_height, self.viewport_height);
            if action.delta < 0 {
                self.user_scrolled_up = true;
            } else if new_offset >= max {
                self.user_scrolled_up = false;
            }
        }
        let moved = new_offset != old_offset || self.user_scrolled_up != old_user_scrolled_up;
        ScrollOutcome { selection, moved }
    }

    /// Drains one frame, and returns whether listeners are to be told.
    pub fn drain_frame(&mut self, mode: ScrollDrainMode) -> (tells: bool)
        ensures
            *final(self) == old(self).frame_drained(mode),
            tells == old(self).frame_tells(mode),
            old(self).wf() ==> final(self).wf(),
    {
        let pending: i32 = self.pending_scroll_delta;
        if pending == 0 {
            return false;
        }
        if self.viewport_height == 0 {
            self.pending_scroll_delta = 0;
            return false;
        }
        let old_offset: i32 = self.committed_scroll_offset();
        let old_user_scrolled_up: bool = self.user_scrolled_up;
        let range = visual_range(self.content_height, self.viewport_height, self.clamp_bounds);
        let past_mounted = (pending < 0 && old_offset < range.0) || (pending > 0 && old_offset
            > range.1);
        let height: u16 = if past_mounted {
            if self.viewport_height / 8 < 4 {
                self.viewport_height / 8
            } else {
                4
            }
        } else {
            self.viewport_height
        };
        let result: ScrollDrainResult = drain_scroll_delta(mode, pending, height);
        let unclamped: i32 = saturating_add(old_offset, result.applied);
        let new_offset: i32 = clamp_offset_to_scroll_range(
            unclamped,
            self.content_height,
            self.viewport_height,
        );
        let remaining: i32 = if new_offset == unclamped {
            result.remaining
        } else {
            0
        };
        self.scroll_offset = new_offset;
        self.pending_scroll_delta = remaining;
        if self.auto_scroll_enabled {
            let max: i32 = max_offset(self.content_height, self.viewport_height);
            if result.applied < 0 {
                self.user_scrolled_up = true;
            } else if new_offset >= max && remaining == 0 {
                self.user_scrolled_up = false;
            }
        }
        new_offset != old_offset || remaining != pending || self.user_scrolled_up
            != old_user_scrolled_up
    }

    /// Records where the viewport was drawn.
    pub fn measure_viewport(&mut self, canvas_y: i16, height: u16)
        ensures
            *final(self) == (ScrollViewState {
                viewport_height: height,
                viewport_top: crate::math::max_int(canvas_y as int, 0) as u16,
                ..*old(self)
            }),
    {
        self.viewport_height = height;
        self.viewport_top = if canvas_y < 0 {
            0
        } else {
            canvas_y as u16
        };
    }
}

/// Scrolling up disengages a view from the bottom that it follows; reaching the bottom
/// engages it again.
pub proof fn lemma_bottom_is_left_and_reached(state: ScrollViewState, delta: int)
    requires
        state.auto_scroll_enabled,
    ensures
        delta < 0 ==> !state.scrolled(delta).pinned(),
        delta >= 0 && state.committed() + delta >= state.max_scroll() ==> state.scrolled(
            delta,
        ).pinned(),
{
}

/// A scroll, a frame of draining and the start of a render leave the offset of a view that
/// does not follow the bottom inside the scroll range.
pub proof fn lemma_moves_stay_in_range(
    state: ScrollViewState,
    delta: int,
    mode: ScrollDrainMode,
    content_height: u16,
)
    ensures
        0 <= state.scrolled(delta).scroll_offset <= state.max_scroll(),
        state.pending_scroll_delta != 0 && state.viewport_height > 0 ==> 0 <= state.frame_drained(
            mode,
        ).scroll_offset <= state.max_scroll(),
        ({
            let started = state.render_started(
                content_height,
                state.auto_scroll_enabled,
                state.scroll_drain_enabled,
            );
            !started.pinned() ==> 0 <= started.scroll_offset <= started.max_scroll()
        }),
{
}

/// Every frame of draining brings what is pending strictly closer to nothing.
pub proof fn lemma_frames_drain(state: ScrollViewState, mode: ScrollDrainMode)
    requires
        state.pending_scroll_delta != 0,
    ensures
        crate::math::abs_int(state.frame_drained(mode).pending_scroll_delta as int)
            < crate::math::abs_int(state.pending_scroll_delta as int),
{
    if state.viewport_height > 0 {
        crate::scroll_drain::lemma_drain_progresses(
            mode,
            state.pending_scroll_delta,
            state.drain_viewport() as u16,
        );
    }
}

/// A dragged selection, as far as it decides about scrolling.
#[derive(Clone, Copy, Debug, PartialEq, Eq)]
pub struct DragSelection {
    /// Whether text can be selected.
    pub enabled: bool,
    /// Whether the selection is being dragged.
    pub dragging: bool,
    /// The cell that the selection is dragged to: its column and row.
    pub focus: Option<(usize, usize)>,
    /// The row that the selection starts on.
    pub anchor_row: Option<usize>,
    /// Whether no row has scrolled out of the selection yet.
    pub captured_rows_empty: bool,
}

/// Whether a dragged selection scrolls a viewport: it is dragged out of the rows of the
/// viewport, and it started on one of them or has already lost rows of it.
pub open spec fn drags_viewport(selection: DragSelection, top: int, height: int) -> bool {
    let bottom: int = top + crate::math::max_int(height - 1, 0);
    &&& selection.enabled
    &&& height > 0
    &&& selection.dragging
    &&& selection.focus matches Some(focus) && (focus.1 < top || focus.1 > bottom)
    &&& !selection.captured_rows_empty || (selection.anchor_row is Some && top
        <= selection.anchor_row->0 <= bottom)
}

/// Whether a dragged selection scrolls a viewport.
pub fn drag_autoscroll_raw_active(
    selection: &DragSelection,
    viewport_top: u16,
    viewport_height: u16,
) -> (active: bool)
    ensures
        active == drags_viewport(*selection, viewport_top as int, viewport_height as int),
{
    let top: usize = viewport_top as usize;
    let bottom: usize = if viewport_height > 0 {
        top + (viewport_height as usize - 1)
    } else {
        top
    };
    let focus_outside = match selection.focus {
        Some(focus) => focus.1 < top || focus.1 > bottom,
        None => false,
    };
    let anchored = match selection.anchor_row {
        Some(row) => row >= top && row <= bottom,
        None => false,
    };
    selection.enabled && viewport_height > 0 && selection.dragging && focus_outside && (anchored
        || !selection.captured_rows_empty)
}

/// How long a dragged selection has scrolled a view.
#[derive(Clone, Copy, Debug, PartialEq, Eq)]
pub struct DragAutoscrollTickState {
    /// The cell that the selection is dragged to.
    pub focus: Option<(usize, usize)>,
    /// The ticks since it was dragged there.
    pub ticks: usize,
    /// Whether it has scrolled for as long as it may.
    pub capped: bool,
    /// The cell from which it cannot scroll.
    pub blocked_focus: Option<(usize, usize)>,
}

impl DragAutoscrollTickState {
    /// Nothing dragged.
    pub open spec fn idle() -> DragAutoscrollTickState {
        DragAutoscrollTickState { focus: None, ticks: 0, capped: false, blocked_focus: None }
    }
}

impl Default for DragAutoscrollTickState {
    fn default() -> (r: Self)
        ensures
            r == DragAutoscrollTickState::idle(),
    {
        DragAutoscrollTickState { focus: None, ticks: 0, capped: false, blocked_focus: None }
    }
}

/// The ticks that a render goes on from: they start over where the selection is dragged to
/// another cell, or no longer dragged.
pub fn reset_drag_autoscroll_ticks_for_render(
    state: DragAutoscrollTickState,
    active: bool,
    focus: Option<(usize, usize)>,
) -> (r: DragAutoscrollTickState)
    ensures
        r == if !active {
            DragAutoscrollTickState::idle()
        } else if state.focus != focus {
            DragAutoscrollTickState { focus, ..DragAutoscrollTickState::idle() }
        } else {
            state
        },
{
    if !active {
        return DragAutoscrollTickState::default();
    }
    if !same_cell(state.focus, focus) {
        return DragAutoscrollTickState { focus, ticks: 0, capped: false, blocked_focus: None };
    }
    state
}

/// Whether two optional cells are the same.
fn same_cell(a: Option<(usize, usize)>, b: Option<(usize, usize)>) -> (r: bool)
    ensures
        r == (a == b),
{
    match a {
        Some(a) => match b {
            Some(b) => a.0 == b.0 && a.1 == b.1,
            None => false,
        },
        None => b.is_none(),
    }
}

/// The ticks after one more: none is counted once the cap is reached.
pub open spec fn ticked(state: DragAutoscrollTickState) -> DragAutoscrollTickState {
    if state.capped {
        state
    } else {
        let ticks: int = crate::math::sat_usize(state.ticks + 1);
        DragAutoscrollTickState {
            ticks: ticks as usize,
            capped: ticks > SELECTION_AUTOSCROLL_MAX_TICKS,
            ..state
        }
    }
}

/// The ticks after so many more.
pub open spec fn after_ticks(state: DragAutoscrollTickState, count: nat) -> DragAutoscrollTickState
    decreases count,
{
    if count == 0 {
        state
    } else {
        ticked(after_ticks(state, (count - 1) as nat))
    }
}

/// A selection that stays where it was dragged to scrolls for as many ticks as the cap
/// allows, and for none after them.
pub proof fn lemma_autoscroll_is_capped(focus: Option<(usize, usize)>, count: nat)
    ensures
        after_ticks(
            DragAutoscrollTickState { focus, ..DragAutoscrollTickState::idle() },
            count,
        ).capped == (count > 200),
{
    lemma_ticks_counted(focus, count);
}

proof fn lemma_ticks_counted(focus: Option<(usize, usize)>, count: nat)
    ensures
        ({
            let state = after_ticks(
                DragAutoscrollTickState { focus, ..DragAutoscrollTickState::idle() },
                count,
            );
            &&& state.capped == (count > SELECTION_AUTOSCROLL_MAX_TICKS)
            &&& state.ticks == crate::math::min_int(
                count as int,
                SELECTION_AUTOSCROLL_MAX_TICKS + 1,
            )
        }),
    decreases count,
{
    if count > 0 {
        lemma_ticks_counted(focus, (count - 1) as nat);
    }
}

/// Counts one tick, and returns whether the selection may still scroll.
pub fn allow_drag_autoscroll_tick(state: &mut DragAutoscrollTickState) -> (allowed: bool)
    ensures
        *final(state) == ticked(*old(state)),
        allowed == !ticked(*old(state)).capped,
{
    if state.capped {
        return false;
    }
    if state.ticks < usize::MAX {
        state.ticks = state.ticks + 1;
    }
    if state.ticks > SELECTION_AUTOSCROLL_MAX_TICKS {
        state.capped = true;
        return false;
    }
    true
}

/// Takes over where the selection is dragged to, and returns whether it scrolls the view.
pub fn update_drag_autoscroll(
    ticks: &mut DragAutoscrollTickState,
    selection: &DragSelection,
    state: &ScrollViewState,
) -> (active: bool)
    ensures
        ({
            let raw = drags_viewport(
                *selection,
                state.viewport_top as int,
                state.viewport_height as int,
            );
            let next = if !raw {
                DragAutoscrollTickState::idle()
            } else if old(ticks).focus != selection.focus {
                DragAutoscrollTickState {
                    focus: selection.focus,
                    ..DragAutoscrollTickState::idle()
                }
            } else {
                *old(ticks)
            };
            &&& *final(ticks) == next
            &&& active == (raw && !next.capped && next.blocked_focus != selection.focus)
        }),
{
    let raw = drag_autoscroll_raw_active(selection, state.viewport_top, state.viewport_height);
    *ticks = reset_drag_autoscroll_ticks_for_render(*ticks, raw, selection.focus);
    let blocked = selection.focus.is_some() && same_cell(ticks.blocked_focus, selection.focus);
    raw && !ticks.capped && !blocked
}

/// The direction in which a dragged selection scrolls.
#[derive(Clone, Copy, Debug, PartialEq, Eq, Structural)]
pub enum SelectionDragScrollDirection {
    Up,
    Down,
}

/// A scroll by a dragged selection: the selection gains so many rows, between two rows of
/// the screen.
#[derive(Clone, Copy, Debug, PartialEq, Eq, Structural)]
pub struct DragScroll {
    pub direction: SelectionDragScrollDirection,
    pub lines: usize,
    pub top: usize,
    pub bottom: usize,
}

/// The rows that are left in a direction.
pub open spec fn rows_left(state: ScrollViewState, direction: SelectionDragScrollDirection) -> int {
    match direction {
        SelectionDragScrollDirection::Up => state.committed(),
        SelectionDragScrollDirection::Down => state.max_scroll() - state.committed(),
    }
}

/// Whether the selection is dragged to a row outside of the viewport.
pub open spec fn focus_is_outside(
    focus: Option<(usize, usize)>,
    top: int,
    height: int,
) -> bool {
    focus matches Some(focus) && (focus.1 < top || focus.1 > top + height - 1)
}

/// One tick of a dragged selection. `direction` is the direction in which the selection can
/// go on, `lines` the number of rows of one tick. A cell from which it cannot go on blocks
/// it. No rows are scrolled while others are pending, without the screen that the selection
/// was made on, and past either end of the content.
pub fn drag_autoscroll_tick(
    state: &mut ScrollViewState,
    ticks: &mut DragAutoscrollTickState,
    direction: Option<SelectionDragScrollDirection>,
    focus: Option<(usize, usize)>,
    has_screen: bool,
    lines: u16,
) -> (scroll: Option<DragScroll>)
    requires
        old(state).wf(),
    ensures
        *final(ticks) == if old(state).viewport_height == 0 {
            *old(ticks)
        } else if direction is None {
            if focus_is_outside(
                focus,
                old(state).viewport_top as int,
                old(state).viewport_height as int,
            ) {
                DragAutoscrollTickState { focus, blocked_focus: focus, ..*old(ticks) }
            } else {
                *old(ticks)
            }
        } else {
            ticked(*old(ticks))
        },
        scroll is Some == {
            &&& old(state).viewport_height > 0
            &&& direction is Some
            &&& !ticked(*old(ticks)).capped
            &&& old(state).pending_scroll_delta == 0
            &&& has_screen
            &&& lines > 0
            &&& rows_left(*old(state), direction->0) > 0
        },
        scroll is None ==> *final(state) == *old(state),
        scroll matches Some(scroll) ==> {
            let rows = crate::math::min_int(
                lines as int,
                rows_left(*old(state), direction->0),
            );
            &&& scroll == (DragScroll {
                direction: direction->0,
                lines: rows as usize,
                top: old(state).viewport_top as usize,
                bottom: (old(state).viewport_top + old(state).viewport_height - 1) as usize,
            })
            &&& *final(state) == (ScrollViewState {
                scroll_offset: (match direction->0 {
                    SelectionDragScrollDirection::Up => old(state).committed() - rows,
                    SelectionDragScrollDirection::Down => old(state).committed() + rows,
                }) as i32,
                user_scrolled_up: old(state).user_scrolled_up || old(state).auto_scroll_enabled,
                ..*old(state)
            })
        },
        scroll matches Some(scroll) ==> {
            &&& 1 <= scroll.lines <= lines
            &&& scroll.direction == SelectionDragScrollDirection::Up ==> final(state).committed()
                + scroll.lines == old(state).committed() && final(state).committed() >= 0
            &&& scroll.direction == SelectionDragScrollDirection::Down ==> final(state).committed() == old(state).committed() + scroll.lines
            &&& Some(scroll.direction) == direction
            &&& scroll.bottom + 1 - scroll.top == old(state).viewport_height
        },
        final(state).wf(),
{
    if state.viewport_height == 0 {
        return None;
    }
    let top: usize = state.viewport_top as usize;
    let bottom: usize = top + state.viewport_height as usize - 1;
    let direction = match direction {
        Some(direction) => direction,
        None => {
            if let Some(cell) = focus {
                if cell.1 < top || cell.1 > bottom {
                    ticks.focus = focus;
                    ticks.blocked_focus = focus;
                }
            }
            return None;
        },
    };
    if !allow_drag_autoscroll_tick(ticks) {
        return None;
    }
    if state.pending_scroll_delta != 0 || !has_screen {
        return None;
    }
    let old_offset: i32 = state.committed_scroll_offset();
    let max: i32 = max_offset(state.content_height, state.viewport_height);
    let left: i32 = match direction {
        SelectionDragScrollDirection::Up => old_offset,
        SelectionDragScrollDirection::Down => max - old_offset,
    };
    if left <= 0 || lines == 0 {
        return None;
    }
    let rows: i32 = if (lines as i32) < left {
        lines as i32
    } else {
        left
    };
    state.scroll_offset = match direction {
        SelectionDragScrollDirection::Up => old_offset - rows,
        SelectionDragScrollDirection::Down => old_offset + rows,
    };
    if state.auto_scroll_enabled {
        state.user_scrolled_up = true;
    }
    Some(DragScroll { direction, lines: rows as usize, top, bottom })
}

/// A hint to the terminal that the rows of a view moved.
#[derive(Clone, Copy, Debug, PartialEq, Eq)]
pub struct ScrollHintHook {
    /// The rendered offset.
    pub scroll_offset: i32,
    /// Whether rows can move at all.
    pub enabled: bool,
    /// The offset, top row and height of the last frame.
    pub previous: Option<(i32, i16, u16)>,
}

impl Default for ScrollHintHook {
    fn default() -> (r: Self)
        ensures
            r == (ScrollHintHook { scroll_offset: 0, enabled: false, previous: None }),
    {
        ScrollHintHook { scroll_offset: 0, enabled: false, previous: None }
    }
}

impl ScrollHintHook {
    /// Takes over the offset that is rendered.
    pub fn update(&mut self, state: &ScrollViewState)
        ensures
            *final(self) == (ScrollHintHook {
                scroll_offset: state.visual() as i32,
                enabled: state.content_height > state.viewport_height && state.viewport_height
                    > 1,
                ..*old(self)
            }),
    {
        self.scroll_offset = state.visual_scroll_offset();
        self.enabled = state.content_height > state.viewport_height && state.viewport_height > 1;
    }

    /// The rows by which the view moved since the last frame; none where it is drawn
    /// elsewhere, or where no row of it stays on the screen.
    pub fn pre_component_draw(&mut self, top: i16, height: u16) -> (hint: Option<i32>)
        requires
            old(self).previous matches Some(previous) ==> i32::MIN <= old(self).scroll_offset
                - previous.0 <= i32::MAX,
        ensures
            *final(self) == (ScrollHintHook {
                previous: Some((old(self).scroll_offset, top, height)),
                ..*old(self)
            }),
            hint == match old(self).previous {
                Some(previous) => {
                    let delta = old(self).scroll_offset - previous.0;
                    if old(self).enabled && previous.1 == top && previous.2 == height && delta != 0
                        && crate::math::abs_int(delta) < height {
                        Some(delta as i32)
                    } else {
                        None
                    }
                },
                None => None,
            },
            hint matches Some(rows) ==> {
                &&& old(self).previous matches Some(previous) && previous.0 + rows == old(self).scroll_offset && previous.1 == top && previous.2 == height
                &&& rows != 0 && -height < rows < height
                &&& old(self).enabled
            },
    {
        let mut hint: Option<i32> = None;
        if let Some(previous) = self.previous {
            let delta: i32 = self.scroll_offset - previous.0;
            if self.enabled && previous.1 == top && previous.2 == height && delta != 0 && delta
                > -(height as i32) && delta < height as i32 {
                hint = Some(delta);
            }
        }
        self.previous = Some((self.scroll_offset, top, height));
        hint
    }
}

/// A scroll that follows growing content: the selection moves up by so many rows, between
/// two rows of the screen.
#[derive(Clone, Copy, Debug, PartialEq, Eq, Structural)]
pub struct FollowScroll {
    pub lines: usize,
    pub top: usize,
    pub bottom: usize,
}

/// What the growth of the content does to a selection: it moves with the content where the
/// view follows the bottom.
pub fn content_measured(
    old_height: u16,
    new_height: u16,
    pinned_to_bottom: bool,
    selection_enabled: bool,
    viewport_top: u16,
    viewport_height: u16,
    has_screen: bool,
) -> (follow: Option<FollowScroll>)
    ensures
        follow == if pinned_to_bottom && selection_enabled && 0 < old_height < new_height
            && viewport_height > 0 && has_screen {
            Some(
                FollowScroll {
                    lines: (new_height - old_height) as usize,
                    top: viewport_top as usize,
                    bottom: (viewport_top + viewport_height - 1) as usize,
                },
            )
        } else {
            None
        },
        follow matches Some(follow) ==> old_height + follow.lines == new_height && follow.top
            == viewport_top && follow.bottom + 1 == viewport_top + viewport_height,
        follow is Some ==> pinned_to_bottom && selection_enabled && has_screen,
{
    if pinned_to_bottom && selection_enabled && old_height > 0 && new_height > old_height
        && viewport_height > 0 && has_screen {
        let top: usize = viewport_top as usize;
        Some(
            FollowScroll {
                lines: (new_height - old_height) as usize,
                top,
                bottom: top + viewport_height as usize - 1,
            },
        )
    } else {
        None
    }
}

/// The wheel scrolls up by its step where it is turned up, and down by as much where it is
/// turned down; without a step it does not scroll. No other event of the mouse does.
pub proof fn lemma_wheel_scrolls_its_way(
    mouse: crate::event::FullscreenMouseEvent,
    viewport_height: u16,
    keys: (bool, bool),
    wheel_step: i32,
)
    ensures
        ({
            let action = action_of(
                TerminalEvent::FullscreenMouse(mouse),
                viewport_height as int,
                keys.0,
                keys.1,
                wheel_step as int,
            );
            let up = mouse.kind == MouseEventKind::ScrollUp;
            let down = mouse.kind == MouseEventKind::ScrollDown;
            &&& action is Some == (wheel_step > 0 && (up || down))
            &&& action is Some ==> action->0.is_wheel
            &&& action is Some && up ==> action->0.delta + wheel_step == 0
            &&& action is Some && down ==> action->0.delta == wheel_step
        }),
{
}

/// A key that is pressed or held scrolls by its rows, where the keyboard scrolls at all; one
/// that is released does not. A resize and a paste do not scroll.
pub proof fn lemma_keys_scroll_when_pressed(
    event: TerminalEvent,
    viewport_height: u16,
    keyboard_scroll: bool,
    pager: bool,
    wheel_step: i32,
)
    ensures
        ({
            let action = action_of(
                event,
                viewport_height as int,
                keyboard_scroll,
                pager,
                wheel_step as int,
            );
            &&& event matches TerminalEvent::Key(key) ==> {
                let delta = crate::scroll_keys::key_delta(key, viewport_height as int, pager);
                &&& action is Some == (keyboard_scroll && delta is Some && (key.kind
                    == KeyEventKind::Press || key.kind == KeyEventKind::Repeat))
                &&& action is Some ==> !action->0.is_wheel && action->0.delta == delta->0
            }
            &&& event is Resize || event is Paste ==> action is None
        }),
{
}

/// A scroll moves the view by the rows that were asked for, or to the end of the content on
/// the way. A view that follows the bottom leaves it where it goes up, and follows it again
/// once it gets there.
pub proof fn lemma_scroll_moves_by_rows(state: ScrollViewState, delta: i32)
    requires
        state.wf(),
        0 <= state.committed() <= state.max_scroll(),
    ensures
        ({
            let after = state.scrolled(delta as int);
            let rows: int = state.content_height - state.viewport_height;
            let end: int = if rows > 0 {
                rows
            } else {
                0
            };
            let wanted: int = state.committed() + delta;
            &&& 0 <= wanted <= end ==> after.committed() == wanted
            &&& wanted < 0 ==> after.committed() == 0
            &&& wanted > end ==> after.committed() == end
            &&& after.scroll_offset == after.committed()
            &&& state.auto_scroll_enabled && delta < 0 ==> after.user_scrolled_up
            &&& state.auto_scroll_enabled && delta >= 0 ==> after.user_scrolled_up == (
            after.committed() < end)
            &&& !state.auto_scroll_enabled ==> after.user_scrolled_up == state.user_scrolled_up
            &&& after == (ScrollViewState {
                scroll_offset: after.scroll_offset,
                user_scrolled_up: after.user_scrolled_up,
                ..state
            })
        }),
{
}

/// The wheel moves nothing at once where rows are drained: they are added to what is pending.
/// A key moves the view at once in any case, and so does the wheel where nothing is drained.
pub proof fn lemma_actions_move_or_queue(state: ScrollViewState, action: ScrollAction)
    requires
        state.wf(),
        i32::MIN <= state.pending_scroll_delta + action.delta <= i32::MAX,
    ensures
        ({
            let after = state.acted(action);
            let queued = action.is_wheel && state.scroll_drain_enabled;
            &&& queued ==> after.pending_scroll_delta == state.pending_scroll_delta
                + action.delta
            &&& queued ==> after.committed() == state.committed()
            &&& queued && state.auto_scroll_enabled && action.delta < 0
                ==> after.user_scrolled_up
            &&& queued && !(state.auto_scroll_enabled && action.delta < 0)
                ==> after.user_scrolled_up == state.user_scrolled_up
            &&& queued && action.delta >= 0 ==> after.scroll_offset == state.scroll_offset
            &&& !queued ==> after == state.scrolled(action.delta as int)
            &&& !queued ==> after.pending_scroll_delta == state.pending_scroll_delta
            &&& after.content_height == state.content_height
            &&& after.viewport_height == state.viewport_height
            &&& after.viewport_top == state.viewport_top
            &&& after.clamp_bounds == state.clamp_bounds
            &&& after.auto_scroll_enabled == state.auto_scroll_enabled
            &&& after.scroll_drain_enabled == state.scroll_drain_enabled
        }),
{
}

/// The wheel clears the selection. A key moves it as far as the rendered rows move, between
/// the first and the last row of the viewport, where there is a screen to move it on. The
/// listeners are told where the view moved, left the bottom or follows it again, and of every
/// wheel that is drained.
pub proof fn lemma_selection_follows_rows(
    state: ScrollViewState,
    action: ScrollAction,
    selection_enabled: bool,
    has_screen: bool,
)
    requires
        state.wf(),
        0 <= state.committed() <= state.max_scroll(),
    ensures
        ({
            let after = state.acted(action);
            let outcome = state.outcome(action, selection_enabled, has_screen);
            let shift = after.visual() - state.visual();
            let can_move = selection_enabled && has_screen && state.viewport_height > 0;
            &&& action.is_wheel ==> outcome.selection == SelectionRequest::Clear
            &&& !action.is_wheel && (shift == 0 || !can_move) ==> outcome.selection
                == SelectionRequest::Keep
            &&& !action.is_wheel && shift != 0 && can_move ==> {
                &&& outcome.selection is Translate
                &&& outcome.selection->delta == shift
                &&& outcome.selection->top == state.viewport_top
                &&& outcome.selection->bottom + 1 == state.viewport_top + state.viewport_height
            }
            &&& outcome.moved == ((action.is_wheel && state.scroll_drain_enabled)
                || after.committed() != state.committed() || after.user_scrolled_up
                != state.user_scrolled_up)
        }),
{
}

/// A render takes over the height of the content and the modes of the view. Nothing stays
/// pending where nothing is drained. A view that does not follow the bottom stays where it is
/// as far as the content reaches.
pub proof fn lemma_render_keeps_position(
    state: ScrollViewState,
    content_height: u16,
    auto_scroll: bool,
    drain_enabled: bool,
)
    requires
        state.wf(),
    ensures
        ({
            let after = state.render_started(content_height, auto_scroll, drain_enabled);
            let rows: int = content_height - state.viewport_height;
            let end: int = if rows > 0 {
                rows
            } else {
                0
            };
            let follows = auto_scroll && !state.user_scrolled_up;
            &&& after.content_height == content_height
            &&& after.auto_scroll_enabled == auto_scroll
            &&& after.scroll_drain_enabled == drain_enabled
            &&& after.pending_scroll_delta == if drain_enabled {
                state.pending_scroll_delta
            } else {
                0
            }
            &&& follows ==> after.committed() == end && after.scroll_offset
                == state.scroll_offset
            &&& !follows && state.scroll_offset <= end ==> after.committed()
                == state.scroll_offset
            &&& !follows && state.scroll_offset > end ==> after.committed() == end
            &&& after.user_scrolled_up == state.user_scrolled_up
            &&& after.viewport_height == state.viewport_height
            &&& after.viewport_top == state.viewport_top
            &&& after.clamp_bounds == state.clamp_bounds
        }),
{
}

/// A frame of draining moves the view the way that is pending, and keeps the rest pending: what
/// it moves and what it keeps add up to what was pending, unless the end of the content is in
/// the way, where the view stops and nothing stays pending. Past the rows that are mounted a
/// frame moves by four rows at most.
pub proof fn lemma_frame_moves_pending_rows(state: ScrollViewState, mode: ScrollDrainMode)
    requires
        state.wf(),
        0 <= state.committed() <= state.max_scroll(),
        state.viewport_height > 0,
        state.pending_scroll_delta > i32::MIN,
    ensures
        ({
            let after = state.frame_drained(mode);
            let rows: int = state.content_height - state.viewport_height;
            let pending: int = state.pending_scroll_delta as int;
            let moved: int = after.scroll_offset - state.committed();
            let low = crate::scroll_handle::visual_lower(state.max_scroll(), state.clamp_bounds);
            let high = crate::scroll_handle::visual_upper(state.max_scroll(), state.clamp_bounds);
            let past = (pending < 0 && state.committed() < low) || (pending > 0
                && state.committed() > high);
            &&& pending == 0 ==> after == state
            &&& pending != 0 && !(moved + after.pending_scroll_delta == pending) ==> {
                &&& after.pending_scroll_delta == 0
                &&& pending < 0 ==> after.scroll_offset == 0
                &&& pending > 0 ==> after.scroll_offset >= rows
            }
            &&& pending > 0 ==> 0 <= moved <= pending && after.pending_scroll_delta >= 0
            &&& pending < 0 ==> pending <= moved <= 0 && after.pending_scroll_delta <= 0
            &&& pending != 0 && !past && state.viewport_height > 1 ==> -state.viewport_height
                < moved < state.viewport_height
            &&& pending != 0 && past ==> -3 <= moved <= 3
            &&& pending < 0 && state.auto_scroll_enabled ==> after.user_scrolled_up
            &&& pending > 0 && state.auto_scroll_enabled && after.pending_scroll_delta == 0
                && after.scroll_offset >= rows ==> !after.user_scrolled_up
            &&& pending > 0 && !(after.pending_scroll_delta == 0 && after.scroll_offset >= rows)
                ==> after.user_scrolled_up == state.user_scrolled_up
            &&& !state.auto_scroll_enabled ==> after.user_scrolled_up == state.user_scrolled_up
        }),
{
    if state.pending_scroll_delta != 0 {
        let height = state.drain_viewport() as u16;
        crate::scroll_drain::lemma_drain_conserves(mode, state.pending_scroll_delta, height);
        crate::scroll_drain::lemma_drain_progresses(mode, state.pending_scroll_delta, height);
        crate::scroll_drain::lemma_drain_respects_cap(mode, state.pending_scroll_delta, height);
    }
}

/// A view that has rows to move on either side of it, and is drained inside of what is mounted,
/// applies in a frame what the host applies in a viewport of its height.
pub proof fn lemma_frame_drains_like_host(state: ScrollViewState, mode: ScrollDrainMode)
    requires
        state.wf(),
        state.viewport_height > 0,
        state.pending_scroll_delta != 0,
        state.clamp_bounds.min is None && state.clamp_bounds.max is None,
        0 <= state.committed() <= state.max_scroll(),
    ensures
        ({
            let applied = crate::scroll_drain::drain_applied(
                mode,
                state.pending_scroll_delta as int,
                state.viewport_height as int,
            );
            let after = state.frame_drained(mode);
            0 <= state.committed() + applied <= state.content_height - state.viewport_height ==> {
                &&& after.scroll_offset == state.committed() + applied
                &&& after.pending_scroll_delta == crate::scroll_drain::drain_remaining(
                    mode,
                    state.pending_scroll_delta as int,
                    state.viewport_height as int,
                )
            }
        }),
{
}

/// A selection scrolls a view only while it is dragged, from inside of the viewport or with
/// rows of it already scrolled out, to a row above the first or below the last of the
/// viewport.
pub proof fn lemma_drag_scrolls_from_outside(selection: DragSelection, top: u16, height: u16)
    ensures
        ({
            let scrolls = drags_viewport(selection, top as int, height as int);
            let cell = selection.focus->0;
            let row = cell.1;
            let anchor = selection.anchor_row->0;
            &&& scrolls ==> selection.enabled && selection.dragging && selection.focus is Some
            &&& scrolls ==> row < top || row >= top + height
            &&& scrolls && selection.captured_rows_empty ==> selection.anchor_row is Some && top
                <= anchor < top + height
            &&& selection.enabled && selection.dragging && selection.focus is Some && height > 0
                && (row < top || row >= top + height) && (!selection.captured_rows_empty || (
            selection.anchor_row is Some && top <= anchor < top + height)) ==> scrolls
            &&& height == 0 ==> !scrolls
        }),
{
}

/// A dragged selection can scroll up as far as the top, and down as far as the bottom.
pub proof fn lemma_rows_left_to_the_ends(state: ScrollViewState)
    ensures
        rows_left(state, SelectionDragScrollDirection::Up) == state.committed(),
        state.content_height >= state.viewport_height ==> state.committed() + rows_left(
            state,
            SelectionDragScrollDirection::Down,
        ) + state.viewport_height == state.content_height,
{
}

} // verus!
