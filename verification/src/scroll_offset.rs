//! Render-time offset planning for scroll containers.
//!
//! One render pass settles, in this order: a one-shot anchor seek, following
//! the bottom, draining a pending delta, the clamp to the scroll range, and the
//! visual clamp to the mounted range of a virtual list.

use crate::math::{clamp_i32, max_i32, min_i32, saturating_add};
use crate::scroll_drain::{drain_scroll_delta, ScrollDrainMode, ScrollDrainResult};
use vstd::prelude::*;

verus! {

/// Input for [`plan_scroll_box_render_offset`].
#[derive(Clone, Copy, Debug, PartialEq, Eq)]
pub struct ScrollBoxRenderOffsetInput {
    /// Current committed scroll offset before this render pass.
    pub current_scroll_top: i32,
    /// Previous measured scroll content height.
    pub previous_scroll_height: i32,
    /// Current measured scroll content height.
    pub scroll_height: i32,
    /// Current viewport height in rows.
    pub viewport_height: i32,
    /// Whether the scroll container is pinned to the bottom.
    pub sticky: bool,
    /// Pending scroll delta waiting to be drained. `None` and `Some(0)` both
    /// mean no pending work.
    pub pending_delta: Option<i32>,
    /// One-shot content-local anchor row to seek to, if one was requested.
    pub anchor_top: Option<i32>,
    /// Additional offset applied to the anchor row.
    pub anchor_offset: i32,
    /// Optional lower bound of the mounted range.
    pub clamp_min: Option<i32>,
    /// Optional upper bound of the mounted range.
    pub clamp_max: Option<i32>,
    /// Drain strategy for the pending delta; `None` applies it at once.
    pub drain_mode: Option<ScrollDrainMode>,
}

impl Default for ScrollBoxRenderOffsetInput {
    fn default() -> (r: Self)
        ensures
            r.current_scroll_top == 0,
            r.previous_scroll_height == 0,
            r.scroll_height == 0,
            r.viewport_height == 0,
            !r.sticky,
            r.pending_delta == None::<i32>,
            r.anchor_top == None::<i32>,
            r.anchor_offset == 0,
            r.clamp_min == None::<i32>,
            r.clamp_max == None::<i32>,
            r.drain_mode == None::<ScrollDrainMode>,
    {
        ScrollBoxRenderOffsetInput {
            current_scroll_top: 0,
            previous_scroll_height: 0,
            scroll_height: 0,
            viewport_height: 0,
            sticky: false,
            pending_delta: None,
            anchor_top: None,
            anchor_offset: 0,
            clamp_min: None,
            clamp_max: None,
            drain_mode: None,
        }
    }
}

/// Plan returned by [`plan_scroll_box_render_offset`].
#[derive(Clone, Copy, Debug, PartialEq, Eq)]
pub struct ScrollBoxRenderOffsetPlan {
    /// Visual scroll offset to render this frame, inside the mounted range.
    pub scroll_top: i32,
    /// Logical scroll offset inside the scroll range. It may run ahead of the
    /// mounted range so that a virtual list can catch up on the next commit.
    pub committed_scroll_top: i32,
    /// Remaining pending delta after this frame.
    pub pending_delta: Option<i32>,
    /// Whether the container is pinned to the bottom after planning.
    pub sticky: bool,
    /// Whether a one-shot anchor was consumed.
    pub anchor_consumed: bool,
    /// Whether the offset was pinned to the bottom.
    pub followed_bottom: bool,
    /// Rows applied from the pending delta this frame.
    pub drained_delta: i32,
    /// Whether the committed offset was clamped to the scroll range.
    pub clamped_to_scroll_range: bool,
    /// Whether the visual offset was clamped to the mounted range.
    pub clamped_to_mounted_range: bool,
}

impl Default for ScrollBoxRenderOffsetPlan {
    fn default() -> (r: Self)
        ensures
            r.scroll_top == 0,
            r.committed_scroll_top == 0,
            r.pending_delta == None::<i32>,
            !r.sticky,
            !r.anchor_consumed,
            !r.followed_bottom,
            r.drained_delta == 0,
            !r.clamped_to_scroll_range,
            !r.clamped_to_mounted_range,
    {
        ScrollBoxRenderOffsetPlan {
            scroll_top: 0,
            committed_scroll_top: 0,
            pending_delta: None,
            sticky: false,
            anchor_consumed: false,
            followed_bottom: false,
            drained_delta: 0,
            clamped_to_scroll_range: false,
            clamped_to_mounted_range: false,
        }
    }
}

impl ScrollBoxRenderOffsetInput {
    /// The viewport height that planning works with.
    pub open spec fn visible_rows(self) -> int {
        crate::math::max_int(self.viewport_height as int, 0)
    }

    /// Largest scroll offset for the given content height.
    pub open spec fn max_scroll_for(self, height: int) -> int {
        crate::math::max_int(height - self.visible_rows(), 0)
    }

    /// Largest scroll offset for the current content height.
    pub open spec fn max_scroll(self) -> int {
        self.max_scroll_for(self.scroll_height as int)
    }

    /// The offset that the pass starts from: the anchor row if one was
    /// requested, otherwise the current offset; never negative.
    pub open spec fn base_top(self) -> int {
        match self.anchor_top {
            Some(top) => crate::math::max_int(crate::math::sat_i32(top + self.anchor_offset), 0),
            None => crate::math::max_int(self.current_scroll_top as int, 0),
        }
    }

    /// The pending delta that is still live: an anchor discards it.
    pub open spec fn live_pending(self) -> int {
        if self.anchor_top is Some || self.pending_delta is None {
            0
        } else {
            self.pending_delta->0 as int
        }
    }

    /// Whether the pass pins the offset to the bottom: the container is sticky,
    /// or stood at the old bottom while the content did not shrink; and nothing
    /// pending moves up.
    pub open spec fn follows_bottom(self) -> bool {
        let stays: bool = self.sticky && self.anchor_top is None;
        let at_old_bottom: bool = self.scroll_height >= self.previous_scroll_height
            && self.base_top() >= self.max_scroll_for(self.previous_scroll_height as int);
        (stays || at_old_bottom) && self.live_pending() >= 0
    }

    /// The delta that this pass drains from.
    pub open spec fn draining(self) -> int {
        if self.follows_bottom() {
            0
        } else {
            self.live_pending()
        }
    }

    /// Whether the pass starts beyond the mounted range, moving away from it.
    pub open spec fn past_mounted_range(self) -> bool {
        match (self.clamp_min, self.clamp_max) {
            (Some(min), Some(max)) => {
                ||| self.draining() < 0 && self.base_top() < crate::math::min_int(
                    min as int,
                    max as int,
                )
                ||| self.draining() > 0 && self.base_top() > crate::math::max_int(
                    min as int,
                    max as int,
                )
            },
            _ => false,
        }
    }

    /// The viewport height that limits this pass's drain: an eighth of it, at
    /// most four rows, while the offset is beyond the mounted range.
    pub open spec fn drain_height(self) -> int {
        let height: int = if self.past_mounted_range() {
            crate::math::min_int(self.visible_rows() / 8, 4)
        } else {
            self.visible_rows()
        };
        crate::math::min_int(height, u16::MAX as int)
    }

    /// Rows that this pass applies of the pending delta.
    pub open spec fn drained(self) -> int {
        match self.drain_mode {
            Some(mode) => crate::scroll_drain::drain_applied(
                mode,
                self.draining(),
                self.drain_height(),
            ),
            None => self.draining(),
        }
    }

    /// What this pass leaves of the pending delta.
    pub open spec fn undrained(self) -> int {
        match self.drain_mode {
            Some(mode) => crate::scroll_drain::drain_remaining(
                mode,
                self.draining(),
                self.drain_height(),
            ),
            None => 0,
        }
    }

    /// The offset before the clamp to the scroll range.
    pub open spec fn moved_top(self) -> int {
        if self.follows_bottom() {
            self.max_scroll()
        } else {
            crate::math::sat_i32(self.base_top() + self.drained())
        }
    }

    /// The committed offset.
    pub open spec fn committed_top(self) -> int {
        crate::math::clamp_int(self.moved_top(), 0, self.max_scroll())
    }

    /// The visual offset: the committed one moved into the mounted range, when
    /// both of its bounds are known.
    pub open spec fn visual_top(self) -> int {
        match (self.clamp_min, self.clamp_max) {
            (Some(min), Some(max)) => {
                let lower: int = crate::math::clamp_int(min as int, 0, self.max_scroll());
                let upper: int = crate::math::clamp_int(max as int, lower, self.max_scroll());
                crate::math::clamp_int(self.committed_top(), lower, upper)
            },
            _ => self.committed_top(),
        }
    }

    /// The content heights leave room to subtract the viewport height.
    pub open spec fn heights_in_range(self) -> bool {
        &&& self.previous_scroll_height - self.visible_rows() >= i32::MIN
        &&& self.scroll_height - self.visible_rows() >= i32::MIN
    }
}

/// Plans one render pass of a scroll container.
///
/// 1. A one-shot anchor seek discards the pending delta and the stickiness.
/// 2. Following the bottom consumes a pending delta that does not move up.
/// 3. The pending delta drains with the chosen strategy.
/// 4. The committed offset is clamped to the scroll range.
/// 5. The visual offset is clamped to the mounted range, which neither rewrites
///    the committed offset nor consumes what is still pending.
pub fn plan_scroll_box_render_offset(input: ScrollBoxRenderOffsetInput) -> (plan:
    ScrollBoxRenderOffsetPlan)
    requires
        input.heights_in_range(),
    ensures
        plan.committed_scroll_top == input.committed_top(),
        plan.scroll_top == input.visual_top(),
        plan.pending_delta == if input.undrained() == 0 || input.committed_top()
            != input.moved_top() {
            None
        } else {
            Some(input.undrained() as i32)
        },
        plan.sticky == (input.follows_bottom() || (input.sticky && input.anchor_top is None)),
        plan.anchor_consumed == (input.anchor_top is Some),
        plan.followed_bottom == input.follows_bottom(),
        plan.drained_delta == input.drained(),
        plan.clamped_to_scroll_range == (input.committed_top() != input.moved_top()),
        plan.clamped_to_mounted_range == (input.visual_top() != input.committed_top()),
        plan.anchor_consumed <==> input.anchor_top is Some,
        plan.clamped_to_mounted_range <==> plan.scroll_top != plan.committed_scroll_top,
        plan.pending_delta != Some(0i32),
        plan.followed_bottom ==> plan.sticky && plan.pending_delta is None && plan.drained_delta
            == 0,
        input.sticky && input.anchor_top is None ==> plan.sticky,
        input.anchor_top is None && !plan.followed_bottom && !plan.clamped_to_scroll_range
            && input.current_scroll_top >= 0 && input.current_scroll_top + plan.drained_delta
            <= i32::MAX ==> plan.committed_scroll_top == input.current_scroll_top + plan.drained_delta,
        input.anchor_top is None && !plan.followed_bottom && !plan.clamped_to_scroll_range && (
        input.pending_delta is Some && input.pending_delta->0 > i32::MIN) ==> plan.drained_delta
            + (if plan.pending_delta is Some {
            plan.pending_delta->0 as int
        } else {
            0
        }) == input.pending_delta->0,
{
    let viewport_height: i32 = max_i32(input.viewport_height, 0);
    let previous_max_scroll: i32 = max_i32(input.previous_scroll_height - viewport_height, 0);
    let max_scroll: i32 = max_i32(input.scroll_height - viewport_height, 0);
    let mut scroll_top: i32 = max_i32(input.current_scroll_top, 0);
    let mut pending: i32 = match input.pending_delta {
        Some(delta) => delta,
        None => 0,
    };
    let mut sticky = input.sticky;
    let mut anchor_consumed = false;
    let mut followed_bottom = false;

    if let Some(anchor_top) = input.anchor_top {
        scroll_top = max_i32(saturating_add(anchor_top, input.anchor_offset), 0);
        pending = 0;
        sticky = false;
        anchor_consumed = true;
    }
    assert(scroll_top == input.base_top());
    assert(pending == input.live_pending());

    let grew = input.scroll_height >= input.previous_scroll_height;
    let at_bottom = sticky || (grew && scroll_top >= previous_max_scroll);
    if at_bottom && pending >= 0 {
        scroll_top = max_scroll;
        pending = 0;
        sticky = true;
        followed_bottom = true;
    }
    assert(followed_bottom == input.follows_bottom());
    assert(pending == input.draining());

    let result = if let Some(mode) = input.drain_mode {
        let past_mounted_clamp = if let (Some(min), Some(max)) = (input.clamp_min, input.clamp_max) {
            (pending < 0 && scroll_top < min_i32(min, max)) || (pending > 0 && scroll_top > max_i32(
                min,
                max,
            ))
        } else {
            false
        };
        let effective_height: i32 = if past_mounted_clamp {
            min_i32(viewport_height / 8, 4)
        } else {
            viewport_height
        };
        let height: u16 = min_i32(effective_height, u16::MAX as i32) as u16;
        drain_scroll_delta(mode, pending, height)
    } else {
        ScrollDrainResult { applied: pending, remaining: 0 }
    };
    assert(result.applied == input.drained());
    assert(result.remaining == input.undrained());
    scroll_top = saturating_add(scroll_top, result.applied);
    assert(scroll_top == input.moved_top());

    let committed_scroll_top: i32 = clamp_i32(scroll_top, 0, max_scroll);
    let clamped_to_scroll_range = committed_scroll_top != scroll_top;
    let pending_delta = if clamped_to_scroll_range || result.remaining == 0 {
        None
    } else {
        Some(result.remaining)
    };

    let mut visual_scroll_top: i32 = committed_scroll_top;
    if let (Some(min), Some(max)) = (input.clamp_min, input.clamp_max) {
        let lower: i32 = clamp_i32(min, 0, max_scroll);
        let upper: i32 = clamp_i32(max, lower, max_scroll);
        visual_scroll_top = clamp_i32(committed_scroll_top, lower, upper);
    }
    ScrollBoxRenderOffsetPlan {
        scroll_top: visual_scroll_top,
        committed_scroll_top,
        pending_delta,
        sticky,
        anchor_consumed,
        followed_bottom,
        drained_delta: result.applied,
        clamped_to_scroll_range,
        clamped_to_mounted_range: visual_scroll_top != committed_scroll_top,
    }
}

/// Both the committed and the visual offset lie in the scroll range.
pub proof fn lemma_offsets_in_scroll_range(input: ScrollBoxRenderOffsetInput)
    ensures
        0 <= input.committed_top() <= input.max_scroll(),
        0 <= input.visual_top() <= input.max_scroll(),
{
}

/// The mounted range is visual only: without its bounds the pass commits the
/// same offset, unless it starts beyond the mounted range, where the drain is
/// throttled.
pub proof fn lemma_mounted_range_is_visual(
    input: ScrollBoxRenderOffsetInput,
    unbounded: ScrollBoxRenderOffsetInput,
)
    requires
        unbounded == (ScrollBoxRenderOffsetInput { clamp_min: None, clamp_max: None, ..input }),
        !input.past_mounted_range(),
    ensures
        input.committed_top() == unbounded.committed_top(),
        input.undrained() == unbounded.undrained(),
        input.drained() == unbounded.drained(),
        input.follows_bottom() == unbounded.follows_bottom(),
{
    assert(input.base_top() == unbounded.base_top());
    assert(input.live_pending() == unbounded.live_pending());
    assert(input.follows_bottom() == unbounded.follows_bottom());
    assert(input.draining() == unbounded.draining());
    assert(input.drain_height() == unbounded.drain_height());
}

/// An anchor seek wins over everything pending: its pass drains nothing and
/// leaves nothing pending.
pub proof fn lemma_anchor_discards_pending(input: ScrollBoxRenderOffsetInput)
    requires
        input.anchor_top is Some,
    ensures
        input.drained() == 0,
        input.undrained() == 0,
{
}

/// A pass that follows the bottom commits the largest offset and leaves nothing
/// pending.
pub proof fn lemma_follow_reaches_bottom(input: ScrollBoxRenderOffsetInput)
    requires
        input.follows_bottom(),
    ensures
        input.committed_top() == input.max_scroll(),
        input.drained() == 0,
        input.undrained() == 0,
{
}

/// A box that is at rest, above its bottom, commits the offset that it is at, as far as the
/// content reaches.
pub proof fn lemma_box_at_rest_stays(input: ScrollBoxRenderOffsetInput)
    requires
        input.anchor_top is None,
        !input.sticky,
        input.pending_delta is None || input.pending_delta == Some(0i32),
        input.viewport_height >= 0,
        input.current_scroll_top >= 0,
        input.current_scroll_top < input.previous_scroll_height - input.viewport_height,
    ensures
        !input.follows_bottom(),
        input.drained() == 0 && input.undrained() == 0,
        ({
            let rows: int = input.scroll_height - input.viewport_height;
            &&& input.current_scroll_top <= rows ==> input.committed_top()
                == input.current_scroll_top
            &&& 0 <= rows < input.current_scroll_top ==> input.committed_top() == rows
            &&& rows < 0 ==> input.committed_top() == 0
        }),
{
}

/// A box follows its bottom where it is sticky and seeks no anchor, and where it was at the
/// bottom, or seeks an anchor there, and the content did not get shorter; in both cases only
/// while nothing pending moves up. It then commits the offset at which the last row of the
/// content is the last of the viewport.
pub proof fn lemma_box_follows_bottom(input: ScrollBoxRenderOffsetInput)
    requires
        input.viewport_height >= 0,
        input.current_scroll_top >= 0,
        i32::MIN <= input.anchor_top->0 + input.anchor_offset <= i32::MAX,
    ensures
        ({
            let up = input.anchor_top is None && input.pending_delta is Some
                && input.pending_delta->0 < 0;
            let from: int = if input.anchor_top is Some {
                input.anchor_top->0 + input.anchor_offset
            } else {
                input.current_scroll_top as int
            };
            let sticks = input.sticky && input.anchor_top is None;
            let old_rows: int = input.previous_scroll_height - input.viewport_height;
            &&& up ==> !input.follows_bottom()
            &&& !up && sticks ==> input.follows_bottom()
            &&& !up && from >= old_rows && input.scroll_height >= input.previous_scroll_height
                ==> input.follows_bottom()
            &&& !sticks && input.scroll_height < input.previous_scroll_height
                ==> !input.follows_bottom()
            &&& !sticks && 0 <= from < old_rows ==> !input.follows_bottom()
            &&& input.follows_bottom() && input.scroll_height >= input.viewport_height
                ==> input.committed_top() + input.viewport_height == input.scroll_height
            &&& input.follows_bottom() && input.scroll_height <= input.viewport_height
                ==> input.committed_top() == 0
        }),
{
}

/// An anchor is sought: the box commits its row, with the offset, as far as the content
/// reaches.
pub proof fn lemma_anchor_is_sought(input: ScrollBoxRenderOffsetInput, anchor: i32)
    requires
        input.anchor_top == Some(anchor),
        input.viewport_height >= 0,
        0 <= anchor + input.anchor_offset < input.previous_scroll_height - input.viewport_height,
        input.scroll_height >= input.viewport_height,
    ensures
        ({
            let row: int = anchor + input.anchor_offset;
            let rows: int = input.scroll_height - input.viewport_height;
            &&& row <= rows ==> input.committed_top() == row
            &&& row > rows ==> input.committed_top() == rows
        }),
{
}

/// What is pending moves the box: all of it at once without a drain strategy, and otherwise as
/// much as the strategy applies in a viewport of this height, with the rest still pending. The
/// box stops at the ends of the content.
pub proof fn lemma_pending_rows_move_the_box(
    input: ScrollBoxRenderOffsetInput,
    pending: i32,
)
    requires
        input.anchor_top is None,
        input.pending_delta == Some(pending),
        pending > i32::MIN,
        !input.follows_bottom(),
        input.current_scroll_top >= 0,
        0 <= input.viewport_height <= u16::MAX,
        input.clamp_min is None || input.clamp_max is None,
    ensures
        input.drained() + input.undrained() == pending,
        input.drain_mode is None ==> input.drained() == pending,
        input.drain_mode matches Some(mode) ==> input.drained()
            == crate::scroll_drain::drain_applied(
            mode,
            pending as int,
            input.viewport_height as int,
        ),
        ({
            let wanted: int = input.current_scroll_top + input.drained();
            let rows: int = input.scroll_height - input.viewport_height;
            &&& 0 <= wanted <= rows ==> input.committed_top() == wanted
            &&& wanted < 0 ==> input.committed_top() == 0
            &&& 0 <= rows < wanted ==> input.committed_top() == rows
        }),
{
    if let Some(mode) = input.drain_mode {
        crate::scroll_drain::lemma_drain_conserves(mode, pending, input.viewport_height as u16);
    }
}

/// What is rendered is the committed offset, moved to the nearer bound of the mounted range
/// where it lies outside of it; without both bounds it is the committed offset itself. Outside
/// of the range, and moving away from it, no more than three rows are drained.
pub proof fn lemma_rendered_offset_is_mounted(input: ScrollBoxRenderOffsetInput)
    ensures
        input.clamp_min is None || input.clamp_max is None ==> input.visual_top()
            == input.committed_top(),
        input.clamp_min is Some && input.clamp_max is Some ==> {
            let low = input.clamp_min->0;
            let high = input.clamp_max->0;
            let end = input.max_scroll();
            let at = input.committed_top();
            &&& low <= at <= high ==> input.visual_top() == at
            &&& at < low <= end ==> input.visual_top() == low
            &&& low > end ==> input.visual_top() == end
            &&& at > high && high >= low && high >= 0 ==> input.visual_top() == high
        },
        input.clamp_min is Some && input.clamp_max is Some && input.drain_mode is Some
            && input.anchor_top is None && !input.follows_bottom() && input.clamp_min->0
            <= input.clamp_max->0 && input.current_scroll_top >= 0 && input.pending_delta is Some
            ==> {
            let from = input.current_scroll_top;
            let away = (input.pending_delta->0 < 0 && from < input.clamp_min->0) || (
            input.pending_delta->0 > 0 && from > input.clamp_max->0);
            away ==> -3 <= input.drained() <= 3
        },
{
}

} // verus!
