//! Scroll position of a scroll view and the handle that controls it.

use crate::event::Rect;
use crate::math::{clamp_i32, max_i32, saturating_add, saturating_sub};
use vstd::prelude::*;

verus! {

/// Render-time bounds of the visual scroll offset.
#[derive(Clone, Copy, Debug, PartialEq, Eq)]
pub struct ScrollClampBounds {
    /// Lower bound; `None` means the top of the content.
    pub min: Option<i32>,
    /// Upper bound; `None` means the bottom of the content.
    pub max: Option<i32>,
}

impl Default for ScrollClampBounds {
    fn default() -> (r: Self)
        ensures
            r.min is None,
            r.max is None,
    {
        ScrollClampBounds { min: None, max: None }
    }
}

/// The largest offset for a content and a viewport height.
pub open spec fn max_offset_of(content_height: int, viewport_height: int) -> int {
    crate::math::max_int(content_height - viewport_height, 0)
}

/// The lower end of the visual range.
pub open spec fn visual_lower(max_valid: int, bounds: ScrollClampBounds) -> int {
    match bounds.min {
        Some(min) => crate::math::clamp_int(min as int, 0, max_valid),
        None => 0,
    }
}

/// The upper end of the visual range; never below its lower end.
pub open spec fn visual_upper(max_valid: int, bounds: ScrollClampBounds) -> int {
    match bounds.max {
        Some(max) => crate::math::clamp_int(max as int, visual_lower(max_valid, bounds), max_valid),
        None => max_valid,
    }
}

/// An offset moved into the visual range.
pub open spec fn visual_of(offset: int, max_valid: int, bounds: ScrollClampBounds) -> int {
    crate::math::clamp_int(
        offset,
        visual_lower(max_valid, bounds),
        visual_upper(max_valid, bounds),
    )
}

/// The largest offset for a content and a viewport height.
pub fn max_offset(content_height: u16, viewport_height: u16) -> (r: i32)
    ensures
        r == max_offset_of(content_height as int, viewport_height as int),
{
    max_i32(content_height as i32 - viewport_height as i32, 0)
}

/// Moves an offset into the scroll range.
pub fn clamp_offset_to_scroll_range(offset: i32, content_height: u16, viewport_height: u16) -> (r:
    i32)
    ensures
        r == crate::math::clamp_int(
            offset as int,
            0,
            max_offset_of(content_height as int, viewport_height as int),
        ),
{
    clamp_i32(offset, 0, max_offset(content_height, viewport_height))
}

/// The visual range: the clamp bounds moved into the scroll range.
pub fn visual_range(
    content_height: u16,
    viewport_height: u16,
    bounds: ScrollClampBounds,
) -> (range: (i32, i32))
    ensures
        range.0 == visual_lower(
            max_offset_of(content_height as int, viewport_height as int),
            bounds,
        ),
        range.1 == visual_upper(
            max_offset_of(content_height as int, viewport_height as int),
            bounds,
        ),
        0 <= range.0 <= range.1 <= max_offset_of(content_height as int, viewport_height as int),
{
    let max_valid: i32 = max_offset(content_height, viewport_height);
    let lower: i32 = match bounds.min {
        Some(min) => clamp_i32(min, 0, max_valid),
        None => 0,
    };
    let upper: i32 = match bounds.max {
        Some(max) => clamp_i32(max, lower, max_valid),
        None => max_valid,
    };
    (lower, upper)
}

/// Moves an offset into the visual range.
pub fn clamp_offset_with_bounds(
    offset: i32,
    content_height: u16,
    viewport_height: u16,
    bounds: ScrollClampBounds,
) -> (r: i32)
    ensures
        r == visual_of(
            offset as int,
            max_offset_of(content_height as int, viewport_height as int),
            bounds,
        ),
{
    let range = visual_range(content_height, viewport_height, bounds);
    clamp_i32(offset, range.0, range.1)
}

/// Converts a measured absolute rectangle into a content-local scroll target.
///
/// `rect.top - viewport_top` is the target's row inside the current viewport;
/// adding the current scroll offset gives its content-local row, to which
/// `offset` is added.
pub fn scroll_content_top_for_absolute_rect(
    current_scroll_offset: i32,
    viewport_top: i32,
    rect: Rect,
    offset: i32,
) -> (top: i32)
    ensures
        top == crate::math::sat_i32(
            crate::math::sat_i32(
                current_scroll_offset + crate::math::sat_i32(rect.top - viewport_top),
            ) + offset,
        ),
{
    saturating_add(
        saturating_add(current_scroll_offset, saturating_sub(rect.top, viewport_top)),
        offset,
    )
}

/// The scroll position of a scroll view.
#[derive(Clone, Copy, Debug, PartialEq, Eq)]
pub struct ScrollViewState {
    /// Committed offset, in rows from the top of the content.
    pub scroll_offset: i32,
    /// Height of the content.
    pub content_height: u16,
    /// Height of the viewport.
    pub viewport_height: u16,
    /// Screen row of the viewport's top.
    pub viewport_top: u16,
    /// Whether the user has left the bottom.
    pub user_scrolled_up: bool,
    /// Visual bounds of the offset.
    pub clamp_bounds: ScrollClampBounds,
    /// Delta that waits to be drained.
    pub pending_scroll_delta: i32,
    /// Whether the view follows the bottom.
    pub auto_scroll_enabled: bool,
    /// Whether deltas are drained over frames instead of applied at once.
    pub scroll_drain_enabled: bool,
}

impl ScrollViewState {
    /// The committed offset is one that a content height can have, and nothing is pending
    /// where nothing is drained.
    pub open spec fn wf(self) -> bool {
        &&& 0 <= self.scroll_offset <= u16::MAX
        &&& self.pending_scroll_delta != 0 ==> self.scroll_drain_enabled
    }

    /// The largest offset.
    pub open spec fn max_scroll(self) -> int {
        max_offset_of(self.content_height as int, self.viewport_height as int)
    }

    /// Whether the view follows the bottom at the moment.
    pub open spec fn pinned(self) -> bool {
        self.auto_scroll_enabled && !self.user_scrolled_up
    }

    /// The offset that the view is at: the bottom while it is pinned there.
    pub open spec fn committed(self) -> int {
        if self.pinned() {
            self.max_scroll()
        } else {
            self.scroll_offset as int
        }
    }

    /// The offset that is rendered.
    pub open spec fn visual(self) -> int {
        visual_of(self.committed(), self.max_scroll(), self.clamp_bounds)
    }

    /// The state after a jump to `offset`, which is moved into the scroll range.
    pub open spec fn jumped_to(self, offset: int) -> ScrollViewState {
        let target: int = crate::math::clamp_int(offset, 0, self.max_scroll());
        ScrollViewState {
            scroll_offset: target as i32,
            pending_scroll_delta: 0,
            user_scrolled_up: target < self.max_scroll(),
            ..self
        }
    }

    /// The state after a jump to the top, which leaves the bottom even where the top is the
    /// bottom.
    pub open spec fn topped(self) -> ScrollViewState {
        ScrollViewState {
            scroll_offset: 0,
            pending_scroll_delta: 0,
            user_scrolled_up: true,
            ..self
        }
    }

    /// The state after `delta` was queued for draining. Moving up from the
    /// followed bottom starts at the bottom.
    pub open spec fn queued(self, delta: int) -> ScrollViewState {
        ScrollViewState {
            pending_scroll_delta: crate::math::sat_i32(self.pending_scroll_delta + delta) as i32,
            scroll_offset: if delta < 0 && self.pinned() {
                self.max_scroll() as i32
            } else {
                self.scroll_offset
            },
            user_scrolled_up: self.user_scrolled_up || delta < 0,
            ..self
        }
    }

    /// A state at the top of empty content.
    pub fn new(auto_scroll_enabled: bool, scroll_drain_enabled: bool) -> (r: Self)
        ensures
            r.scroll_offset == 0,
            r.content_height == 0,
            r.viewport_height == 0,
            r.viewport_top == 0,
            !r.user_scrolled_up,
            r.clamp_bounds.min is None,
            r.clamp_bounds.max is None,
            r.pending_scroll_delta == 0,
            r.auto_scroll_enabled == auto_scroll_enabled,
            r.scroll_drain_enabled == scroll_drain_enabled,
            r.wf(),
    {
        ScrollViewState {
            scroll_offset: 0,
            content_height: 0,
            viewport_height: 0,
            viewport_top: 0,
            user_scrolled_up: false,
            clamp_bounds: ScrollClampBounds { min: None, max: None },
            pending_scroll_delta: 0,
            auto_scroll_enabled,
            scroll_drain_enabled,
        }
    }

    /// The offset that the view is at.
    pub fn committed_scroll_offset(&self) -> (r: i32)
        ensures
            r == self.committed(),
    {
        if self.auto_scroll_enabled && !self.user_scrolled_up {
            max_offset(self.content_height, self.viewport_height)
        } else {
            self.scroll_offset
        }
    }

    /// The offset that is rendered.
    pub fn visual_scroll_offset(&self) -> (r: i32)
        ensures
            r == self.visual(),
    {
        clamp_offset_with_bounds(
            self.committed_scroll_offset(),
            self.content_height,
            self.viewport_height,
            self.clamp_bounds,
        )
    }

    /// Jumps to an offset, which is moved into the scroll range.
    pub fn scroll_to_inner(&mut self, offset: i32)
        ensures
            *final(self) == old(self).jumped_to(offset as int),
            final(self).wf(),
    {
        self.scroll_offset = clamp_offset_to_scroll_range(
            offset,
            self.content_height,
            self.viewport_height,
        );
        self.pending_scroll_delta = 0;
        self.update_user_scrolled_up();
    }

    /// Records whether the committed offset is above the bottom.
    pub fn update_user_scrolled_up(&mut self)
        ensures
            *final(self) == (ScrollViewState {
                user_scrolled_up: old(self).scroll_offset < old(self).max_scroll(),
                ..*old(self)
            }),
    {
        let max: i32 = max_offset(self.content_height, self.viewport_height);
        self.user_scrolled_up = self.scroll_offset < max;
    }

    /// Queues a delta for draining.
    pub fn queue_delta(&mut self, delta: i32)
        ensures
            *final(self) == old(self).queued(delta as int),
            old(self).wf() && old(self).scroll_drain_enabled ==> final(self).wf(),
    {
        self.pending_scroll_delta = saturating_add(self.pending_scroll_delta, delta);
        if delta < 0 {
            if self.auto_scroll_enabled && !self.user_scrolled_up {
                self.scroll_offset = max_offset(self.content_height, self.viewport_height);
            }
            self.user_scrolled_up = true;
        }
    }
}

/// The listeners of a scroll view, in the order in which they subscribed, and the
/// calls that are owed to them.
#[derive(Debug)]
pub struct ScrollViewSubscribers {
    next_id: u64,
    listeners: Vec<u64>,
    owed: Vec<u64>,
}

/// What a [`ScrollViewSubscribers`] holds.
pub struct SubscribersModel {
    /// The id that the next listener gets.
    pub next_id: u64,
    /// The live listeners, oldest first.
    pub listeners: Seq<u64>,
    /// The listeners to call, in order.
    pub owed: Seq<u64>,
}

/// What holds of every number but one.
pub open spec fn other_than(id: u64) -> spec_fn(u64) -> bool {
    |number: u64| number != id
}

impl SubscribersModel {
    /// No listener, and none owed a call.
    pub open spec fn empty() -> SubscribersModel {
        SubscribersModel { next_id: 0, listeners: Seq::empty(), owed: Seq::empty() }
    }

    /// The live listeners have different numbers, all of them handed out before the next one.
    pub open spec fn numbered(self) -> bool {
        &&& self.listeners.no_duplicates()
        &&& forall|i: int|
            0 <= i < self.listeners.len() ==> #[trigger] self.listeners[i] < self.next_id
    }

    /// One listener more, with the next number. The numbers start over after the largest one.
    pub open spec fn subscribed(self) -> SubscribersModel {
        SubscribersModel {
            next_id: if self.next_id == u64::MAX {
                0
            } else {
                (self.next_id + 1) as u64
            },
            listeners: self.listeners.push(self.next_id),
            ..self
        }
    }

    /// Without a listener. Calls that it is already owed stay owed.
    pub open spec fn unsubscribed(self, id: u64) -> SubscribersModel {
        SubscribersModel {
            listeners: self.listeners.filter(other_than(id)),
            ..self
        }
    }

    /// One call more is owed to every live listener.
    pub open spec fn notified(self) -> SubscribersModel {
        SubscribersModel { owed: self.owed + self.listeners, ..self }
    }

    /// After so many notifications.
    pub open spec fn notified_times(self, count: nat) -> SubscribersModel
        decreases count,
    {
        if count == 0 {
            self
        } else {
            self.notified_times((count - 1) as nat).notified()
        }
    }

    /// How many calls a listener is owed.
    pub open spec fn calls_owed(self, id: u64) -> nat {
        self.owed.to_multiset().count(id)
    }
}

impl View for ScrollViewSubscribers {
    type V = SubscribersModel;

    closed spec fn view(&self) -> SubscribersModel {
        SubscribersModel {
            next_id: self.next_id,
            listeners: self.listeners@,
            owed: self.owed@,
        }
    }
}

impl ScrollViewSubscribers {
    /// No listener, and none owed a call.
    pub fn new() -> (r: Self)
        ensures
            r@ == SubscribersModel::empty(),
    {
        ScrollViewSubscribers { next_id: 0, listeners: Vec::new(), owed: Vec::new() }
    }

    /// Adds a listener and returns its id.
    pub fn subscribe(&mut self) -> (id: u64)
        ensures
            id == old(self)@.next_id,
            final(self)@ == old(self)@.subscribed(),
    {
        let id: u64 = self.next_id;
        self.next_id = if id == u64::MAX {
            0
        } else {
            id + 1
        };
        self.listeners.push(id);
        id
    }

    /// Removes a listener. Calls that it is already owed stay owed.
    pub fn unsubscribe(&mut self, id: u64)
        ensures
            final(self)@ == old(self)@.unsubscribed(id),
    {
        let ghost keep = other_than(id);
        let mut kept: Vec<u64> = Vec::new();
        let mut i: usize = 0;
        while i < self.listeners.len()
            invariant
                i <= self.listeners@.len(),
                self@ == old(self)@,
                keep == other_than(id),
                kept@ == self.listeners@.take(i as int).filter(keep),
            decreases self.listeners@.len() - i,
        {
            proof {
                let taken = self.listeners@.take(i + 1);
                assert(taken.drop_last() =~= self.listeners@.take(i as int));
                reveal(Seq::filter);
            }
            let listener: u64 = self.listeners[i];
            if listener != id {
                kept.push(listener);
            }
            i = i + 1;
        }
        assert(self.listeners@.take(i as int) =~= self.listeners@);
        self.listeners = kept;
    }

    /// Owes every live listener a call.
    pub fn notify(&mut self)
        ensures
            final(self)@ == old(self)@.notified(),
    {
        let mut i: usize = 0;
        while i < self.listeners.len()
            invariant
                i <= self.listeners@.len(),
                self.next_id == old(self).next_id,
                self.listeners@ == old(self).listeners@,
                self.owed@ == old(self).owed@ + self.listeners@.take(i as int),
            decreases self.listeners@.len() - i,
        {
            let listener: u64 = self.listeners[i];
            self.owed.push(listener);
            i = i + 1;
            assert(self.owed@ =~= old(self).owed@ + self.listeners@.take(i as int));
        }
        assert(self.listeners@.take(i as int) =~= self.listeners@);
    }

    /// Hands out the listeners that are owed a call, in order.
    pub fn take_owed(&mut self) -> (owed: Vec<u64>)
        ensures
            owed@ == old(self)@.owed,
            final(self)@ == (SubscribersModel { owed: Seq::empty(), ..old(self)@ }),
    {
        let mut owed: Vec<u64> = Vec::new();
        std::mem::swap(&mut owed, &mut self.owed);
        owed
    }
}

/// A subscription returned by [`ScrollViewHandle::subscribe`].
#[derive(Clone, Copy, Debug, PartialEq, Eq)]
pub struct ScrollViewSubscription {
    /// The listener, or `None` where the handle was not attached.
    pub id: Option<u64>,
}

/// What an attached handle controls.
#[derive(Debug)]
pub struct ScrollViewHandleInner {
    pub state: ScrollViewState,
    pub subscribers: ScrollViewSubscribers,
}

/// A handle for imperative control of a scroll view. Until a scroll view has
/// attached it, it does nothing and reports zeros.
#[derive(Debug)]
pub struct ScrollViewHandle {
    pub inner: Option<ScrollViewHandleInner>,
}

impl Default for ScrollViewHandle {
    fn default() -> (r: Self)
        ensures
            r.inner is None,
    {
        ScrollViewHandle { inner: None }
    }
}

impl ScrollViewHandle {
    /// The handle's position satisfies its invariant, and its listeners can be told apart.
    pub open spec fn wf(self) -> bool {
        self.inner is Some ==> self.inner->0.state.wf() && self.inner->0.subscribers@.numbered()
    }

    /// After an operation the handle is attached as before; if it is, its state
    /// is `state` and every listener is owed one call more.
    pub open spec fn moved_to(self, before: ScrollViewHandle, state: ScrollViewState) -> bool {
        &&& self.inner is Some == before.inner is Some
        &&& self.inner is Some ==> self.inner->0.state == state
        &&& self.inner is Some ==> self.inner->0.subscribers@
            == before.inner->0.subscribers@.notified()
    }

    /// Attaches the handle to a scroll view, or updates what the scroll view's
    /// props say. What is pending is dropped where nothing is drained.
    pub fn attach(&mut self, auto_scroll_enabled: bool, scroll_drain_enabled: bool)
        ensures
            final(self).inner is Some,
            old(self).inner is Some ==> final(self).inner->0.state == (ScrollViewState {
                auto_scroll_enabled,
                scroll_drain_enabled,
                pending_scroll_delta: if scroll_drain_enabled {
                    old(self).inner->0.state.pending_scroll_delta
                } else {
                    0
                },
                ..old(self).inner->0.state
            }),
            old(self).inner is Some ==> final(self).inner->0.subscribers@
                == old(self).inner->0.subscribers@,
            old(self).inner is None ==> {
                &&& final(self).inner->0.state.scroll_offset == 0
                &&& final(self).inner->0.state.content_height == 0
                &&& final(self).inner->0.state.viewport_height == 0
                &&& final(self).inner->0.state.viewport_top == 0
                &&& !final(self).inner->0.state.user_scrolled_up
                &&& final(self).inner->0.state.clamp_bounds.min is None
                &&& final(self).inner->0.state.clamp_bounds.max is None
                &&& final(self).inner->0.state.pending_scroll_delta == 0
                &&& final(self).inner->0.state.auto_scroll_enabled == auto_scroll_enabled
                &&& final(self).inner->0.state.scroll_drain_enabled == scroll_drain_enabled
                &&& final(self).inner->0.subscribers@ == SubscribersModel::empty()
            },
            old(self).wf() ==> final(self).wf(),
    {
        if let Some(inner) = &mut self.inner {
            inner.state.auto_scroll_enabled = auto_scroll_enabled;
            inner.state.scroll_drain_enabled = scroll_drain_enabled;
            if !scroll_drain_enabled {
                inner.state.pending_scroll_delta = 0;
            }
        } else {
            self.inner = Some(
                ScrollViewHandleInner {
                    state: ScrollViewState::new(auto_scroll_enabled, scroll_drain_enabled),
                    subscribers: ScrollViewSubscribers::new(),
                },
            );
        }
    }

    /// Scrolls to the top of the content. Disengages auto scroll.
    pub fn scroll_to_top(&mut self)
        ensures
            final(self).moved_to(*old(self), old(self).inner->0.state.topped()),
            old(self).inner is Some ==> final(self).inner->0.state.committed() == 0,
            old(self).inner is Some ==> !final(self).inner->0.state.pinned(),
            old(self).wf() ==> final(self).wf(),
    {
        if let Some(inner) = &mut self.inner {
            inner.state.scroll_offset = 0;
            inner.state.pending_scroll_delta = 0;
            inner.state.user_scrolled_up = true;
            inner.subscribers.notify();
        }
    }

    /// Scrolls to the bottom of the content. Re-engages auto scroll.
    pub fn scroll_to_bottom(&mut self)
        ensures
            final(self).moved_to(
                *old(self),
                (ScrollViewState {
                    scroll_offset: old(self).inner->0.state.max_scroll() as i32,
                    pending_scroll_delta: 0,
                    user_scrolled_up: false,
                    ..old(self).inner->0.state
                }),
            ),
            old(self).inner matches Some(before) ==> {
                let after = final(self).inner->0.state;
                let rows: int = before.state.content_height - before.state.viewport_height;
                &&& after.committed() == if rows > 0 {
                    rows
                } else {
                    0
                }
                &&& after.pending_scroll_delta == 0
                &&& after.pinned() == before.state.auto_scroll_enabled
            },
            old(self).wf() ==> final(self).wf(),
    {
        if let Some(inner) = &mut self.inner {
            inner.state.scroll_offset = max_offset(
                inner.state.content_height,
                inner.state.viewport_height,
            );
            inner.state.pending_scroll_delta = 0;
            inner.state.user_scrolled_up = false;
            inner.subscribers.notify();
        }
    }

    /// Scrolls to the given offset, moved into the scroll range. Disengages auto
    /// scroll if the resulting position is not at the bottom.
    pub fn scroll_to(&mut self, offset: i32)
        ensures
            final(self).moved_to(*old(self), old(self).inner->0.state.jumped_to(offset as int)),
            old(self).inner matches Some(before) ==> (0 <= offset <= before.state.content_height
                - before.state.viewport_height ==> final(self).inner->0.state.committed()
                == offset),
            old(self).wf() ==> final(self).wf(),
    {
        if let Some(inner) = &mut self.inner {
            inner.state.scroll_to_inner(offset);
            inner.subscribers.notify();
        }
    }

    /// Scrolls to a content-local row plus an offset.
    pub fn scroll_to_content_top(&mut self, content_top: i32, offset: i32)
        ensures
            final(self).moved_to(
                *old(self),
                old(self).inner->0.state.jumped_to(crate::math::sat_i32(content_top + offset)),
            ),
            old(self).inner matches Some(before) ==> (0 <= content_top + offset
                <= before.state.content_height - before.state.viewport_height ==> final(self).inner->0.state.committed() == content_top + offset),
            old(self).wf() ==> final(self).wf(),
    {
        self.scroll_to(saturating_add(content_top, offset));
    }

    /// Scrolls so that a measured absolute screen rectangle reaches the viewport
    /// top, plus `offset` rows.
    pub fn scroll_to_rect(&mut self, rect: Rect, offset: i32)
        ensures
            final(self).moved_to(
                *old(self),
                ({
                    let state = old(self).inner->0.state;
                    state.jumped_to(
                        crate::math::sat_i32(
                            crate::math::sat_i32(
                                state.visual() + crate::math::sat_i32(
                                    rect.top - state.viewport_top,
                                ),
                            ) + offset,
                        ),
                    )
                }),
            ),
            old(self).inner matches Some(before) ==> {
                let shown = before.state.visual();
                let rows: int = before.state.content_height - before.state.viewport_height;
                let wanted: int = shown + (rect.top - before.state.viewport_top) + offset;
                i32::MIN <= rect.top - before.state.viewport_top && i32::MIN <= shown + (rect.top
                    - before.state.viewport_top) <= i32::MAX && 0 <= wanted <= rows
                    ==> final(self).inner->0.state.scroll_offset == wanted
            },
            old(self).wf() ==> final(self).wf(),
    {
        if let Some(inner) = &mut self.inner {
            let target: i32 = scroll_content_top_for_absolute_rect(
                inner.state.visual_scroll_offset(),
                inner.state.viewport_top as i32,
                rect,
                offset,
            );
            inner.state.scroll_to_inner(target);
            inner.subscribers.notify();
        }
    }

    /// Alias for [`ScrollViewHandle::scroll_to_rect`].
    pub fn scroll_to_element(&mut self, rect: Rect, offset: i32)
        ensures
            final(self).moved_to(
                *old(self),
                ({
                    let state = old(self).inner->0.state;
                    state.jumped_to(
                        crate::math::sat_i32(
                            crate::math::sat_i32(
                                state.visual() + crate::math::sat_i32(
                                    rect.top - state.viewport_top,
                                ),
                            ) + offset,
                        ),
                    )
                }),
            ),
            old(self).inner matches Some(before) ==> {
                let shown = before.state.visual();
                let rows: int = before.state.content_height - before.state.viewport_height;
                let wanted: int = shown + (rect.top - before.state.viewport_top) + offset;
                i32::MIN <= rect.top - before.state.viewport_top && i32::MIN <= shown + (rect.top
                    - before.state.viewport_top) <= i32::MAX && 0 <= wanted <= rows
                    ==> final(self).inner->0.state.scroll_offset == wanted
            },
            old(self).wf() ==> final(self).wf(),
    {
        self.scroll_to_rect(rect, offset);
    }

    /// Scrolls by the given number of rows (positive is down).
    ///
    /// With draining enabled the delta is queued and applied over render frames.
    /// Otherwise it is applied at once, and the result moved into the scroll
    /// range. Disengages auto scroll if the position is not at the bottom.
    pub fn scroll_by(&mut self, delta: i32)
        requires
            old(self).inner is Some && !old(self).inner->0.state.scroll_drain_enabled ==> i32::MIN
                <= old(self).inner->0.state.scroll_offset + delta <= i32::MAX,
        ensures
            final(self).moved_to(
                *old(self),
                ({
                    let state = old(self).inner->0.state;
                    if state.scroll_drain_enabled {
                        state.queued(delta as int)
                    } else {
                        state.jumped_to(state.scroll_offset + delta)
                    }
                }),
            ),
            old(self).inner matches Some(before) ==> {
                let after = final(self).inner->0.state;
                let rows: int = before.state.content_height - before.state.viewport_height;
                &&& !before.state.scroll_drain_enabled && 0 <= before.state.scroll_offset + delta
                    <= rows ==> after.scroll_offset == before.state.scroll_offset + delta
                &&& before.state.scroll_drain_enabled && i32::MIN
                    <= before.state.pending_scroll_delta + delta <= i32::MAX
                    ==> after.pending_scroll_delta == before.state.pending_scroll_delta + delta
                    && after.committed() == before.state.committed()
            },
            old(self).wf() ==> final(self).wf(),
    {
        if let Some(inner) = &mut self.inner {
            if inner.state.scroll_drain_enabled {
                inner.state.queue_delta(delta);
            } else {
                let target: i32 = inner.state.scroll_offset + delta;
                inner.state.scroll_to_inner(target);
            }
            inner.subscribers.notify();
        }
    }

    /// Returns the current scroll offset in rows from the top.
    pub fn scroll_offset(&self) -> (r: i32)
        ensures
            r == if self.inner is Some {
                self.inner->0.state.scroll_offset
            } else {
                0
            },
    {
        match &self.inner {
            Some(inner) => inner.state.scroll_offset,
            None => 0,
        }
    }

    /// Alias for [`ScrollViewHandle::scroll_offset`].
    pub fn get_scroll_top(&self) -> (r: i32)
        ensures
            r == if self.inner is Some {
                self.inner->0.state.scroll_offset
            } else {
                0
            },
    {
        self.scroll_offset()
    }

    /// Returns the delta that waits to be drained; zero unless draining is enabled.
    pub fn get_pending_delta(&self) -> (r: i32)
        ensures
            r == if self.inner is Some {
                self.inner->0.state.pending_scroll_delta
            } else {
                0
            },
            self.wf() && r != 0 ==> self.inner->0.state.scroll_drain_enabled,
    {
        match &self.inner {
            Some(inner) => inner.state.pending_scroll_delta,
            None => 0,
        }
    }

    /// Returns the total height of the content in rows.
    pub fn content_height(&self) -> (r: u16)
        ensures
            r == if self.inner is Some {
                self.inner->0.state.content_height
            } else {
                0
            },
    {
        match &self.inner {
            Some(inner) => inner.state.content_height,
            None => 0,
        }
    }

    /// Alias for [`ScrollViewHandle::content_height`].
    pub fn get_scroll_height(&self) -> (r: u16)
        ensures
            r == if self.inner is Some {
                self.inner->0.state.content_height
            } else {
                0
            },
    {
        self.content_height()
    }

    /// Returns the freshest known content height: the one of the last completed
    /// layout.
    pub fn get_fresh_scroll_height(&self) -> (r: u16)
        ensures
            r == if self.inner is Some {
                self.inner->0.state.content_height
            } else {
                0
            },
    {
        self.content_height()
    }

    /// Returns the height of the visible viewport in rows.
    pub fn viewport_height(&self) -> (r: u16)
        ensures
            r == if self.inner is Some {
                self.inner->0.state.viewport_height
            } else {
                0
            },
    {
        match &self.inner {
            Some(inner) => inner.state.viewport_height,
            None => 0,
        }
    }

    /// Alias for [`ScrollViewHandle::viewport_height`].
    pub fn get_viewport_height(&self) -> (r: u16)
        ensures
            r == if self.inner is Some {
                self.inner->0.state.viewport_height
            } else {
                0
            },
    {
        self.viewport_height()
    }

    /// Returns the screen row of the viewport top.
    pub fn viewport_top(&self) -> (r: u16)
        ensures
            r == if self.inner is Some {
                self.inner->0.state.viewport_top
            } else {
                0
            },
    {
        match &self.inner {
            Some(inner) => inner.state.viewport_top,
            None => 0,
        }
    }

    /// Alias for [`ScrollViewHandle::viewport_top`].
    pub fn get_viewport_top(&self) -> (r: u16)
        ensures
            r == if self.inner is Some {
                self.inner->0.state.viewport_top
            } else {
                0
            },
    {
        self.viewport_top()
    }

    /// Returns whether auto scroll is currently pinned to the bottom.
    pub fn is_auto_scroll_pinned(&self) -> (r: bool)
        ensures
            r == (self.inner is Some && self.inner->0.state.pinned()),
    {
        match &self.inner {
            Some(inner) => inner.state.auto_scroll_enabled && !inner.state.user_scrolled_up,
            None => false,
        }
    }

    /// Alias for [`ScrollViewHandle::is_auto_scroll_pinned`].
    pub fn is_sticky(&self) -> (r: bool)
        ensures
            r == (self.inner is Some && self.inner->0.state.pinned()),
    {
        self.is_auto_scroll_pinned()
    }

    /// Subscribes to scroll changes. The listener is owed a call after every
    /// imperative operation, handled input, and change of the clamp bounds. Listeners can be
    /// told apart until the numbers start over.
    pub fn subscribe(&mut self) -> (subscription: ScrollViewSubscription)
        ensures
            final(self).inner is Some == old(self).inner is Some,
            subscription.id is Some == old(self).inner is Some,
            old(self).inner is Some ==> {
                &&& final(self).inner->0.state == old(self).inner->0.state
                &&& subscription.id == Some(old(self).inner->0.subscribers@.next_id)
                &&& final(self).inner->0.subscribers@
                    == old(self).inner->0.subscribers@.subscribed()
                &&& old(self).wf() && subscription.id->0 < u64::MAX ==> final(self).wf()
            },
    {
        if let Some(inner) = &mut self.inner {
            ScrollViewSubscription { id: Some(inner.subscribers.subscribe()) }
        } else {
            ScrollViewSubscription { id: None }
        }
    }

    /// Ends a subscription.
    pub fn unsubscribe(&mut self, subscription: ScrollViewSubscription)
        ensures
            final(self).inner is Some == old(self).inner is Some,
            old(self).inner is Some ==> {
                &&& final(self).inner->0.state == old(self).inner->0.state
                &&& final(self).inner->0.subscribers@ == match subscription.id {
                    Some(id) => old(self).inner->0.subscribers@.unsubscribed(id),
                    None => old(self).inner->0.subscribers@,
                }
            },
            old(self).wf() ==> final(self).wf(),
    {
        if let Some(inner) = &mut self.inner {
            if let Some(id) = subscription.id {
                proof {
                    lemma_unsubscribed_stays_numbered(inner.subscribers@, id);
                }
                inner.subscribers.unsubscribe(id);
            }
        }
    }

    /// Sets render-time visual clamp bounds. They move what is rendered, not the
    /// committed offset, so that a fast scroll can run ahead of the mounted range.
    /// `None` disables a bound.
    pub fn set_clamp_bounds(&mut self, min: Option<i32>, max: Option<i32>)
        ensures
            final(self).moved_to(
                *old(self),
                (ScrollViewState {
                    clamp_bounds: ScrollClampBounds { min, max },
                    ..old(self).inner->0.state
                }),
            ),
            old(self).wf() ==> final(self).wf(),
    {
        if let Some(inner) = &mut self.inner {
            inner.state.clamp_bounds = ScrollClampBounds { min, max };
            inner.subscribers.notify();
        }
    }

    /// Clears all clamp bounds.
    pub fn clear_clamp_bounds(&mut self)
        ensures
            final(self).moved_to(
                *old(self),
                (ScrollViewState {
                    clamp_bounds: ScrollClampBounds { min: None, max: None },
                    ..old(self).inner->0.state
                }),
            ),
            old(self).wf() ==> final(self).wf(),
    {
        self.set_clamp_bounds(None, None);
    }
}

/// Whatever the clamp bounds are, the rendered offset lies in the scroll range,
/// and it is the committed one where no bound is set and that one lies in the
/// range.
pub proof fn lemma_visual_offset_in_range(state: ScrollViewState)
    ensures
        0 <= state.visual() <= state.max_scroll(),
        state.clamp_bounds.min is None && state.clamp_bounds.max is None && 0 <= state.committed()
            <= state.max_scroll() ==> state.visual() == state.committed(),
{
}

/// Clamp bounds are visual only: changing them leaves the committed offset alone.
pub proof fn lemma_clamp_bounds_keep_committed(state: ScrollViewState, bounds: ScrollClampBounds)
    ensures
        (ScrollViewState { clamp_bounds: bounds, ..state }).committed() == state.committed(),
{
}

/// A jump disengages auto scroll exactly where it does not end at the bottom.
pub proof fn lemma_jump_disengages_above_bottom(state: ScrollViewState, offset: int)
    requires
        state.auto_scroll_enabled,
    ensures
        state.jumped_to(offset).pinned() == (state.jumped_to(offset).scroll_offset
            == state.max_scroll()),
        state.jumped_to(offset).committed() == crate::math::clamp_int(offset, 0, state.max_scroll()),
{
}

/// Moving up from the followed bottom starts at the bottom, not where the view
/// was before it followed.
pub proof fn lemma_queue_up_starts_at_bottom(state: ScrollViewState, delta: int)
    requires
        state.pinned(),
        delta < 0,
    ensures
        state.queued(delta).committed() == state.committed(),
        !state.queued(delta).pinned(),
{
}

/// Scrolling to the top leaves the bottom, also where all of the content is seen; the view
/// follows the bottom again once it moves down and reaches it.
pub proof fn lemma_top_disengages(state: ScrollViewState, delta: int)
    requires
        state.auto_scroll_enabled,
        delta >= 0,
    ensures
        !state.topped().pinned(),
        state.topped().committed() == 0,
        state.topped().jumped_to(delta).pinned() == (delta >= state.max_scroll()),
{
}

/// A number taken out of a list leaves the others in it, each as often as before.
proof fn lemma_taken_out(numbers: Seq<u64>, id: u64)
    requires
        numbers.no_duplicates(),
    ensures
        ({
            let left = numbers.filter(other_than(id));
            &&& left.no_duplicates()
            &&& forall|other: u64| #[trigger]
                left.contains(other) == (other != id && numbers.contains(other))
            &&& left.len() == if numbers.contains(id) {
                numbers.len() - 1
            } else {
                numbers.len() as int
            }
        }),
    decreases numbers.len(),
{
    reveal(Seq::filter);
    let keep = other_than(id);
    let left = numbers.filter(keep);
    if numbers.len() > 0 {
        let rest = numbers.drop_last();
        let last: u64 = numbers.last();
        lemma_taken_out(rest, id);
        let before = rest.filter(keep);
        assert(numbers =~= rest.push(last));
        assert(!rest.contains(last));
        assert forall|other: u64| numbers.contains(other) == (rest.contains(other) || other
            == last) by {
            if rest.contains(other) {
                let k = choose|k: int| 0 <= k < rest.len() && rest[k] == other;
                assert(numbers[k] == other);
            }
            assert(numbers[numbers.len() - 1] == last);
        }
        if last != id {
            assert(left == before.push(last));
            assert(!before.contains(last));
            assert forall|other: u64| left.contains(other) == (before.contains(other) || other
                == last) by {
                if before.contains(other) {
                    let k = choose|k: int| 0 <= k < before.len() && before[k] == other;
                    assert(left[k] == other);
                }
                assert(left[left.len() - 1] == last);
            }
        }
    }
}

/// Removing a listener keeps the others apart.
proof fn lemma_unsubscribed_stays_numbered(model: SubscribersModel, id: u64)
    ensures
        model.numbered() ==> model.unsubscribed(id).numbered(),
{
    if model.numbered() {
        lemma_taken_out(model.listeners, id);
        let left = model.unsubscribed(id).listeners;
        assert forall|i: int| 0 <= i < left.len() implies #[trigger] left[i] < model.next_id by {
            assert(left.contains(left[i]));
            assert(model.listeners.contains(left[i]));
        }
    }
}

/// A new listener is told apart from those that are live, and leaves them in place.
pub proof fn lemma_subscription_is_new(model: SubscribersModel, other: u64)
    requires
        model.numbered(),
        model.next_id < u64::MAX,
    ensures
        !model.listeners.contains(model.next_id),
        model.subscribed().listeners.contains(other) == (other == model.next_id
            || model.listeners.contains(other)),
        model.subscribed().numbered(),
{
    let more = model.subscribed().listeners;
    assert(more[more.len() - 1] == model.next_id);
    if model.listeners.contains(other) {
        let k = choose|k: int| 0 <= k < model.listeners.len() && model.listeners[k] == other;
        assert(more[k] == other);
    }
}

/// Ending a subscription ends that one alone.
pub proof fn lemma_unsubscribe_ends_one(model: SubscribersModel, id: u64, other: u64)
    requires
        model.numbered(),
    ensures
        model.unsubscribed(id).listeners.contains(other) == (other != id
            && model.listeners.contains(other)),
        model.unsubscribed(id).listeners.len() == if model.listeners.contains(id) {
            model.listeners.len() - 1
        } else {
            model.listeners.len() as int
        },
        model.unsubscribed(id).numbered(),
{
    lemma_taken_out(model.listeners, id);
    lemma_unsubscribed_stays_numbered(model, id);
}

/// Every notification owes a live listener one call, and a listener that is not live, or was
/// removed, none.
pub proof fn lemma_listener_is_called_once_per_change(
    model: SubscribersModel,
    id: u64,
    count: nat,
)
    requires
        model.numbered(),
    ensures
        model.notified_times(count).calls_owed(id) == model.calls_owed(id) + if model.listeners.contains(
            id,
        ) {
            count
        } else {
            0
        },
        model.unsubscribed(id).notified_times(count).calls_owed(id) == model.calls_owed(id),
{
    lemma_unsubscribe_ends_one(model, id, id);
    lemma_calls_counted(model, id, count);
    lemma_calls_counted(model.unsubscribed(id), id, count);
}

proof fn lemma_calls_counted(model: SubscribersModel, id: u64, count: nat)
    requires
        model.numbered(),
    ensures
        model.notified_times(count).listeners == model.listeners,
        model.notified_times(count).calls_owed(id) == model.calls_owed(id)
            + if model.listeners.contains(id) {
            count
        } else {
            0
        },
    decreases count,
{
    if count > 0 {
        let before = model.notified_times((count - 1) as nat);
        lemma_calls_counted(model, id, (count - 1) as nat);
        vstd::seq_lib::lemma_multiset_commutative(before.owed, model.listeners);
        model.listeners.to_multiset_ensures();
        model.listeners.lemma_multiset_has_no_duplicates();
    }
}

/// A jump ends at the offset that was asked for, or at the end of the content that is nearest
/// to it: the top, or the offset at which the last row of the content is the last of the
/// viewport. Nothing is pending behind it, and nothing else changes.
pub proof fn lemma_jump_ends_where_asked(state: ScrollViewState, offset: i32)
    ensures
        ({
            let after = state.jumped_to(offset as int);
            let rows: int = state.content_height - state.viewport_height;
            &&& offset <= 0 || rows <= 0 ==> after.scroll_offset == 0
            &&& 0 <= offset <= rows ==> after.scroll_offset == offset
            &&& 0 <= rows <= offset ==> after.scroll_offset == rows
            &&& after.user_scrolled_up == (rows > 0 && after.scroll_offset < rows)
            &&& after.pending_scroll_delta == 0
            &&& after == (ScrollViewState {
                scroll_offset: after.scroll_offset,
                user_scrolled_up: after.user_scrolled_up,
                pending_scroll_delta: 0,
                ..state
            })
        }),
{
}

/// A view that follows the bottom is where the last row of the content is the last of the
/// viewport, or at the top where the content is shorter; any other is where it was put.
pub proof fn lemma_committed_offset(state: ScrollViewState)
    ensures
        ({
            let rows: int = state.content_height - state.viewport_height;
            let follows = state.auto_scroll_enabled && !state.user_scrolled_up;
            &&& follows && rows > 0 ==> state.committed() == rows
            &&& follows && rows <= 0 ==> state.committed() == 0
            &&& !follows ==> state.committed() == state.scroll_offset
        }),
{
}

/// What is rendered is the offset that the view is at where the bounds allow it, the lower
/// bound where it is above that, and the upper bound where it is below: the bounds count as
/// far as they lie in the content, and the lower one before the upper one.
pub proof fn lemma_rendered_offset(state: ScrollViewState)
    ensures
        ({
            let rows: int = state.content_height - state.viewport_height;
            let end: int = if rows > 0 {
                rows
            } else {
                0
            };
            let at = state.committed();
            let min = state.clamp_bounds.min;
            let max = state.clamp_bounds.max;
            let above = min is Some && at < min->0;
            let below = max is Some && at > max->0;
            &&& 0 <= at <= end && !above && !below ==> state.visual() == at
            &&& 0 <= at <= end && above && min->0 <= end ==> state.visual() == min->0
            &&& above && min->0 > end ==> state.visual() == end
            &&& 0 <= at <= end && !above && below && (min is None || min->0 <= max->0) && max->0
                >= 0 ==> state.visual() == max->0
            &&& 0 <= at <= end && below && max->0 < 0 && min is None ==> state.visual() == 0
            &&& 0 <= at <= end && below && min is Some && max->0 < min->0 && 0 <= min->0 <= end
                ==> state.visual() == min->0
            &&& at > end && max is None ==> state.visual() == end
            &&& at > end && max is Some && max->0 >= end ==> state.visual() == end
            &&& at > end && max is Some && 0 <= max->0 <= end && (min is None || min->0 <= max->0)
                ==> state.visual() == max->0
            &&& at < 0 && min is None && (max is None || max->0 >= 0) ==> state.visual() == 0
        }),
{
}

/// What is queued adds up, and moves nothing yet: the view stays where it is. Only moving up
/// makes it leave the bottom.
pub proof fn lemma_queued_rows_add_up(state: ScrollViewState, first: i32, second: i32)
    requires
        i32::MIN <= state.pending_scroll_delta + first <= i32::MAX,
        i32::MIN <= state.pending_scroll_delta + first + second <= i32::MAX,
    ensures
        state.queued(first as int).pending_scroll_delta == state.pending_scroll_delta + first,
        state.queued(first as int).queued(second as int).pending_scroll_delta
            == state.pending_scroll_delta + first + second,
        state.queued(first as int).committed() == state.committed(),
        state.queued(first as int).user_scrolled_up == (state.user_scrolled_up || first < 0),
        first >= 0 ==> state.queued(first as int).scroll_offset == state.scroll_offset,
        state.queued(first as int).content_height == state.content_height,
        state.queued(first as int).viewport_height == state.viewport_height,
        state.queued(first as int).viewport_top == state.viewport_top,
        state.queued(first as int).clamp_bounds == state.clamp_bounds,
        state.queued(first as int).auto_scroll_enabled == state.auto_scroll_enabled,
        state.queued(first as int).scroll_drain_enabled == state.scroll_drain_enabled,
{
}

/// A view that was put at the top is there, whatever it was before.
pub proof fn lemma_top_is_reached(state: ScrollViewState)
    ensures
        state.topped().scroll_offset == 0,
        state.topped().pending_scroll_delta == 0,
        state.topped().user_scrolled_up,
        state.topped().committed() == 0,
        state.topped() == (ScrollViewState {
            scroll_offset: 0,
            pending_scroll_delta: 0,
            user_scrolled_up: true,
            ..state
        }),
{
}

} // verus!
