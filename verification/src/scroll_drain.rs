//! Render-time draining of a pending scroll delta.
//!
//! A burst of wheel input is accumulated and applied over several frames. How
//! much of it one frame applies depends on the terminal host and on the height
//! of the viewport.

use crate::math::magnitude;
use vstd::prelude::*;

verus! {

/// Fewest rows a native terminal drains per frame, when the viewport allows it.
pub const SCROLL_DRAIN_MIN_PER_FRAME: i32 = 4;

/// Largest pending distance that an xterm.js host drains at once.
pub const SCROLL_DRAIN_XTERM_INSTANT_THRESHOLD: i32 = 5;

/// Pending distance from which an xterm.js host takes the larger step.
pub const SCROLL_DRAIN_XTERM_HIGH_PENDING: i32 = 12;

/// Rows per frame on an xterm.js host for a medium pending distance.
pub const SCROLL_DRAIN_XTERM_STEP_MED: i32 = 2;

/// Rows per frame on an xterm.js host for a large pending distance.
pub const SCROLL_DRAIN_XTERM_STEP_HIGH: i32 = 3;

/// Pending distance beyond which an xterm.js host applies the excess at once.
pub const SCROLL_DRAIN_XTERM_MAX_PENDING: i32 = 30;

/// Host strategy for render-time scroll draining.
#[derive(Clone, Copy, Debug, PartialEq, Eq, Structural)]
pub enum ScrollDrainMode {
    /// Native terminals, where wheel events can be bursty.
    Native,
    /// xterm.js based terminals such as the ones integrated in editors.
    XtermJs,
}

/// Result of applying one scroll-drain frame.
#[derive(Clone, Copy, Debug, PartialEq, Eq, Structural)]
pub struct ScrollDrainResult {
    /// Rows to apply to the visible scroll offset this frame.
    pub applied: i32,
    /// Remaining pending scroll delta after this frame.
    pub remaining: i32,
}

impl Default for ScrollDrainResult {
    fn default() -> (r: Self)
        ensures
            r.applied == 0,
            r.remaining == 0,
    {
        ScrollDrainResult { applied: 0, remaining: 0 }
    }
}

/// Most rows that one frame may apply: one less than the viewport shows, so that
/// a hardware scroll can still repaint the edge row, and at least one.
pub open spec fn drain_cap(viewport_height: int) -> int {
    crate::math::max_int(viewport_height - 1, 1)
}

/// Rows that an xterm.js host drains of a pending distance within its limit.
pub open spec fn xterm_step(distance: int) -> int {
    if distance <= SCROLL_DRAIN_XTERM_INSTANT_THRESHOLD {
        distance
    } else if distance < SCROLL_DRAIN_XTERM_HIGH_PENDING {
        SCROLL_DRAIN_XTERM_STEP_MED as int
    } else {
        SCROLL_DRAIN_XTERM_STEP_HIGH as int
    }
}

/// Rows that one frame would apply of a pending distance, before the viewport cap.
pub open spec fn uncapped_drain(mode: ScrollDrainMode, distance: int) -> int {
    match mode {
        ScrollDrainMode::Native => crate::math::min_int(
            distance,
            crate::math::max_int(SCROLL_DRAIN_MIN_PER_FRAME as int, distance * 3 / 4),
        ),
        ScrollDrainMode::XtermJs => {
            let limited: int = crate::math::min_int(
                distance,
                SCROLL_DRAIN_XTERM_MAX_PENDING as int,
            );
            distance - limited + xterm_step(limited)
        },
    }
}

/// Rows that one frame applies of a pending distance.
pub open spec fn drained_distance(mode: ScrollDrainMode, distance: int, viewport_height: int) -> int {
    crate::math::min_int(drain_cap(viewport_height), uncapped_drain(mode, distance))
}

/// The pending distance that draining works on: an `i32::MIN` delta counts as
/// `i32::MAX` rows.
pub open spec fn pending_distance(pending: int) -> int {
    crate::math::min_int(crate::math::abs_int(pending), i32::MAX as int)
}

/// The signed rows that one frame applies of a pending delta.
pub open spec fn drain_applied(mode: ScrollDrainMode, pending: int, viewport_height: int) -> int {
    let distance: int = drained_distance(mode, pending_distance(pending), viewport_height);
    if pending < 0 {
        -distance
    } else {
        distance
    }
}

/// What stays pending after one frame. A native host subtracts the applied rows;
/// an xterm.js host keeps what is left of the pending distance.
pub open spec fn drain_remaining(mode: ScrollDrainMode, pending: int, viewport_height: int) -> int {
    match mode {
        ScrollDrainMode::Native => pending - drain_applied(mode, pending, viewport_height),
        ScrollDrainMode::XtermJs => {
            let left: int = pending_distance(pending) - drained_distance(
                mode,
                pending_distance(pending),
                viewport_height,
            );
            if pending < 0 {
                -left
            } else {
                left
            }
        },
    }
}

/// Chooses the drain strategy for a host that is, or is not, xterm.js based.
pub fn scroll_drain_mode_for_xterm_js_host(xterm_js: bool) -> (mode: ScrollDrainMode)
    ensures
        mode == if xterm_js {
            ScrollDrainMode::XtermJs
        } else {
            ScrollDrainMode::Native
        },
{
    if xterm_js {
        ScrollDrainMode::XtermJs
    } else {
        ScrollDrainMode::Native
    }
}

impl ScrollDrainMode {
    /// The drain strategy for the terminal; `xterm_js` says whether it is an xterm.js host.
    pub fn for_current_terminal(xterm_js: bool) -> (mode: Self)
        ensures
            mode == if xterm_js {
                ScrollDrainMode::XtermJs
            } else {
                ScrollDrainMode::Native
            },
    {
        scroll_drain_mode_for_xterm_js_host(xterm_js)
    }
}

/// Most rows that one frame may apply in a viewport of the given height.
pub fn scroll_drain_cap(viewport_height: u16) -> (cap: i32)
    ensures
        cap == drain_cap(viewport_height as int),
{
    let height: i32 = viewport_height as i32;
    if height - 1 > 1 {
        height - 1
    } else {
        1
    }
}

/// Computes one render-frame drain step for a pending scroll delta.
///
/// The applied step is capped to `viewport_height - 1` so that hardware scroll
/// hints can still repaint edge rows.
pub fn drain_scroll_delta(
    mode: ScrollDrainMode,
    pending: i32,
    viewport_height: u16,
) -> (result: ScrollDrainResult)
    ensures
        result.applied == drain_applied(mode, pending as int, viewport_height as int),
        result.remaining == drain_remaining(mode, pending as int, viewport_height as int),
{
    if pending == 0 {
        return ScrollDrainResult { applied: 0, remaining: 0 };
    }
    match mode {
        ScrollDrainMode::Native => drain_scroll_delta_native(pending, viewport_height),
        ScrollDrainMode::XtermJs => drain_scroll_delta_xterm_js(pending, viewport_height),
    }
}

/// The proportional drain of native terminals: three quarters of what is
/// pending, at least [`SCROLL_DRAIN_MIN_PER_FRAME`] rows, within the cap.
pub fn drain_scroll_delta_native(pending: i32, viewport_height: u16) -> (result: ScrollDrainResult)
    ensures
        result.applied == drain_applied(
            ScrollDrainMode::Native,
            pending as int,
            viewport_height as int,
        ),
        result.remaining == drain_remaining(
            ScrollDrainMode::Native,
            pending as int,
            viewport_height as int,
        ),
{
    let distance: i32 = magnitude(pending);
    let cap: i32 = scroll_drain_cap(viewport_height);
    let proportional: i32 = (distance as i64 * 3 / 4) as i32;
    let wanted: i32 = if proportional > SCROLL_DRAIN_MIN_PER_FRAME {
        proportional
    } else {
        SCROLL_DRAIN_MIN_PER_FRAME
    };
    let step: i32 = if cap < wanted {
        cap
    } else {
        wanted
    };
    if distance <= step {
        return ScrollDrainResult { applied: pending, remaining: 0 };
    }
    let applied: i32 = if pending < 0 {
        -step
    } else {
        step
    };
    ScrollDrainResult { applied, remaining: pending - applied }
}

/// The adaptive drain of xterm.js hosts: small steps, with everything beyond
/// [`SCROLL_DRAIN_XTERM_MAX_PENDING`] rows applied at once, within the cap.
pub fn drain_scroll_delta_xterm_js(pending: i32, viewport_height: u16) -> (result:
    ScrollDrainResult)
    ensures
        result.applied == drain_applied(
            ScrollDrainMode::XtermJs,
            pending as int,
            viewport_height as int,
        ),
        result.remaining == drain_remaining(
            ScrollDrainMode::XtermJs,
            pending as int,
            viewport_height as int,
        ),
{
    let distance: i32 = magnitude(pending);
    let limited: i32 = if distance > SCROLL_DRAIN_XTERM_MAX_PENDING {
        SCROLL_DRAIN_XTERM_MAX_PENDING
    } else {
        distance
    };
    let step: i32 = if limited <= SCROLL_DRAIN_XTERM_INSTANT_THRESHOLD {
        limited
    } else if limited < SCROLL_DRAIN_XTERM_HIGH_PENDING {
        SCROLL_DRAIN_XTERM_STEP_MED
    } else {
        SCROLL_DRAIN_XTERM_STEP_HIGH
    };
    let total: i32 = distance - limited + step;
    let cap: i32 = scroll_drain_cap(viewport_height);
    let drained: i32 = if total > cap {
        cap
    } else {
        total
    };
    let left: i32 = distance - drained;
    if pending < 0 {
        ScrollDrainResult { applied: -drained, remaining: -left }
    } else {
        ScrollDrainResult { applied: drained, remaining: left }
    }
}

/// Stateful owner of a pending scroll delta.
///
/// Custom scroll containers add wheel and key deltas, call
/// [`ScrollDrainState::drain_frame`] while rendering, and wake another frame as
/// long as [`ScrollDrainState::has_pending_delta`] holds.
#[derive(Clone, Copy, Debug, PartialEq, Eq)]
pub struct ScrollDrainState {
    mode: ScrollDrainMode,
    pending: i32,
}

impl ScrollDrainState {
    /// The host strategy of this state.
    pub closed spec fn drain_mode(self) -> ScrollDrainMode {
        self.mode
    }

    /// The delta that waits for future frames.
    pub closed spec fn pending_rows(self) -> int {
        self.pending as int
    }

    /// Creates a drain state with no pending delta.
    pub fn new(mode: ScrollDrainMode) -> (r: Self)
        ensures
            r.drain_mode() == mode,
            r.pending_rows() == 0,
    {
        ScrollDrainState { mode, pending: 0 }
    }

    /// Creates a drain state with an existing pending delta.
    pub fn with_pending(mode: ScrollDrainMode, pending: i32) -> (r: Self)
        ensures
            r.drain_mode() == mode,
            r.pending_rows() == pending,
    {
        ScrollDrainState { mode, pending }
    }

    /// Returns the host strategy used for subsequent drain frames.
    pub fn mode(&self) -> (r: ScrollDrainMode)
        ensures
            r == self.drain_mode(),
    {
        self.mode
    }

    /// Changes the host strategy without changing the pending delta.
    pub fn set_mode(&mut self, mode: ScrollDrainMode)
        ensures
            final(self).drain_mode() == mode,
            final(self).pending_rows() == old(self).pending_rows(),
    {
        self.mode = mode;
    }

    /// Returns the pending scroll delta waiting for future frames.
    pub fn pending_delta(&self) -> (r: i32)
        ensures
            r == self.pending_rows(),
    {
        self.pending
    }

    /// Returns whether another drain frame is needed.
    pub fn has_pending_delta(&self) -> (r: bool)
        ensures
            r == (self.pending_rows() != 0),
    {
        self.pending != 0
    }

    /// Replaces the pending delta.
    pub fn set_pending_delta(&mut self, pending: i32)
        ensures
            final(self).pending_rows() == pending,
            final(self).drain_mode() == old(self).drain_mode(),
    {
        self.pending = pending;
    }

    /// Adds a new delta to the pending accumulator, stopping at the ends of the
    /// `i32` range.
    pub fn add_delta(&mut self, delta: i32)
        ensures
            final(self).pending_rows() == crate::math::sat_i32(old(self).pending_rows() + delta),
            final(self).drain_mode() == old(self).drain_mode(),
    {
        self.pending = crate::math::saturating_add(self.pending, delta);
    }

    /// Clears any pending delta.
    pub fn clear(&mut self)
        ensures
            final(self).pending_rows() == 0,
            final(self).drain_mode() == old(self).drain_mode(),
    {
        self.pending = 0;
    }

    /// Applies one render-frame drain step and updates the pending accumulator.
    pub fn drain_frame(&mut self, viewport_height: u16) -> (result: ScrollDrainResult)
        ensures
            result.applied == drain_applied(
                old(self).drain_mode(),
                old(self).pending_rows(),
                viewport_height as int,
            ),
            result.remaining == drain_remaining(
                old(self).drain_mode(),
                old(self).pending_rows(),
                viewport_height as int,
            ),
            final(self).pending_rows() == result.remaining,
            final(self).drain_mode() == old(self).drain_mode(),
    {
        let result = drain_scroll_delta(self.mode, self.pending, viewport_height);
        self.pending = result.remaining;
        result
    }
}

/// A frame never applies more rows than the viewport cap, and it moves in the
/// direction of the pending delta.
pub proof fn lemma_drain_respects_cap(mode: ScrollDrainMode, pending: i32, viewport_height: u16)
    ensures
        crate::math::abs_int(drain_applied(mode, pending as int, viewport_height as int))
            <= drain_cap(viewport_height as int),
        pending > 0 ==> drain_applied(mode, pending as int, viewport_height as int) > 0,
        pending < 0 ==> drain_applied(mode, pending as int, viewport_height as int) < 0,
        pending == 0 ==> drain_applied(mode, pending as int, viewport_height as int) == 0,
{
}

/// Nothing is lost: what a frame applies and what stays pending add up to what
/// was pending. (An xterm.js host counts `i32::MIN` rows as one fewer.)
pub proof fn lemma_drain_conserves(mode: ScrollDrainMode, pending: i32, viewport_height: u16)
    requires
        mode == ScrollDrainMode::XtermJs ==> pending > i32::MIN,
    ensures
        drain_applied(mode, pending as int, viewport_height as int) + drain_remaining(
            mode,
            pending as int,
            viewport_height as int,
        ) == pending,
{
}

/// Every frame brings a pending delta strictly closer to zero and never past it.
pub proof fn lemma_drain_progresses(mode: ScrollDrainMode, pending: i32, viewport_height: u16)
    requires
        pending != 0,
    ensures
        crate::math::abs_int(drain_remaining(mode, pending as int, viewport_height as int))
            < crate::math::abs_int(pending as int),
        pending > 0 ==> drain_remaining(mode, pending as int, viewport_height as int) >= 0,
        pending < 0 ==> drain_remaining(mode, pending as int, viewport_height as int) <= 0,
{
}

/// The delta that is still pending after `frames` frames.
pub open spec fn pending_after(
    mode: ScrollDrainMode,
    pending: int,
    viewport_height: int,
    frames: nat,
) -> int
    decreases frames,
{
    if frames == 0 {
        pending
    } else {
        pending_after(
            mode,
            drain_remaining(mode, pending, viewport_height),
            viewport_height,
            (frames - 1) as nat,
        )
    }
}

/// The delta that is still pending after frames with the given viewport heights.
pub open spec fn pending_over(mode: ScrollDrainMode, pending: int, heights: Seq<u16>) -> int
    decreases heights.len(),
{
    if heights.len() == 0 {
        pending
    } else {
        pending_over(
            mode,
            drain_remaining(mode, pending, heights[0] as int),
            heights.drop_first(),
        )
    }
}

/// What frames with the given viewport heights apply together.
pub open spec fn applied_over(mode: ScrollDrainMode, pending: int, heights: Seq<u16>) -> int
    decreases heights.len(),
{
    if heights.len() == 0 {
        0
    } else {
        drain_applied(mode, pending, heights[0] as int) + applied_over(
            mode,
            drain_remaining(mode, pending, heights[0] as int),
            heights.drop_first(),
        )
    }
}

/// Whatever heights the viewport has meanwhile, nothing is lost: what the frames apply and
/// what is left add up to what was pending, and nothing is left after as many frames as
/// there were rows. (An xterm.js host counts `i32::MIN` rows as one fewer.)
pub proof fn lemma_drain_ends_for_any_heights(
    mode: ScrollDrainMode,
    pending: i32,
    heights: Seq<u16>,
)
    requires
        mode == ScrollDrainMode::XtermJs ==> pending > i32::MIN,
    ensures
        applied_over(mode, pending as int, heights) + pending_over(mode, pending as int, heights)
            == pending,
        heights.len() >= crate::math::abs_int(pending as int) ==> pending_over(
            mode,
            pending as int,
            heights,
        ) == 0,
    decreases heights.len(),
{
    if heights.len() > 0 {
        let height: u16 = heights[0];
        let next: int = drain_remaining(mode, pending as int, height as int);
        lemma_drain_conserves(mode, pending, height);
        if pending != 0 {
            lemma_drain_progresses(mode, pending, height);
        }
        lemma_drain_ends_for_any_heights(mode, next as i32, heights.drop_first());
    }
}

/// A pending delta is drained completely within as many frames as it has rows.
pub proof fn lemma_drain_terminates(
    mode: ScrollDrainMode,
    pending: i32,
    viewport_height: u16,
    frames: nat,
)
    requires
        frames >= crate::math::abs_int(pending as int),
    ensures
        pending_after(mode, pending as int, viewport_height as int, frames) == 0,
    decreases frames,
{
    if frames > 0 {
        let next: int = drain_remaining(mode, pending as int, viewport_height as int);
        if pending != 0 {
            lemma_drain_progresses(mode, pending, viewport_height);
        }
        lemma_drain_terminates(mode, next as i32, viewport_height, (frames - 1) as nat);
    }
}

/// A native host applies three quarters of what is pending in one frame, and at least four
/// rows of it, as far as one row less than the viewport shows allows; at least one row.
pub proof fn lemma_native_drain_is_proportional(pending: i32, viewport_height: u16)
    requires
        pending > i32::MIN,
    ensures
        ({
            let applied = drain_applied(
                ScrollDrainMode::Native,
                pending as int,
                viewport_height as int,
            );
            let rows: int = if pending < 0 {
                -pending
            } else {
                pending as int
            };
            let step: int = if pending < 0 {
                -applied
            } else {
                applied
            };
            let cap: int = if viewport_height < 3 {
                1
            } else {
                viewport_height - 1
            };
            &&& 0 <= step <= rows
            &&& step <= cap
            &&& rows <= 4 && rows <= cap ==> step == rows
            &&& rows == 5 && cap >= 4 ==> step == 4
            &&& rows >= 6 && step < cap ==> 4 * step <= 3 * rows < 4 * step + 4
            &&& rows >= 1 && step < cap && step < rows ==> step >= 4
            &&& step == cap && rows >= 6 ==> 4 * cap <= 3 * rows
        }),
{
}

/// An xterm.js host applies up to five pending rows at once, two of up to eleven, three of
/// more, and with them all that goes beyond thirty, as far as one row less than the viewport
/// shows allows; at least one row.
pub proof fn lemma_xterm_drain_is_smooth(pending: i32, viewport_height: u16)
    requires
        pending > i32::MIN,
    ensures
        ({
            let applied = drain_applied(
                ScrollDrainMode::XtermJs,
                pending as int,
                viewport_height as int,
            );
            let rows: int = if pending < 0 {
                -pending
            } else {
                pending as int
            };
            let step: int = if pending < 0 {
                -applied
            } else {
                applied
            };
            let cap: int = if viewport_height < 3 {
                1
            } else {
                viewport_height - 1
            };
            let wanted: int = if rows <= 5 {
                rows
            } else if rows <= 11 {
                2
            } else if rows <= 30 {
                3
            } else {
                rows - 27
            };
            &&& wanted <= cap ==> step == wanted
            &&& wanted > cap ==> step == cap
        }),
{
}

/// Up and down are drained alike.
pub proof fn lemma_drain_is_symmetric(mode: ScrollDrainMode, pending: i32, viewport_height: u16)
    requires
        pending > i32::MIN,
    ensures
        drain_applied(mode, -pending as int, viewport_height as int) == -drain_applied(
            mode,
            pending as int,
            viewport_height as int,
        ),
        drain_remaining(mode, -pending as int, viewport_height as int) == -drain_remaining(
            mode,
            pending as int,
            viewport_height as int,
        ),
{
}

} // verus!
