//! Range planning for virtualized lists inside a scroll container.
//!
//! Only a part of a long list is mounted. The planner chooses the half-open
//! range of items to mount, the spacers that stand for the rest, and the clamp
//! bounds that keep the viewport inside what is mounted.

use crate::math::{
    magnitude, max_i32, max_u16, max_usize, min_i32, min_usize, saturating_add, saturating_sub,
};
use vstd::prelude::*;

verus! {

/// Default estimated height, in rows, for unmeasured items.
pub const VIRTUAL_SCROLL_DEFAULT_ESTIMATE_ROWS: u16 = 3;

/// Default overscan, in rows, above and below the viewport.
pub const VIRTUAL_SCROLL_OVERSCAN_ROWS: u16 = 80;

/// Default tail seed count before the viewport is measured.
pub const VIRTUAL_SCROLL_COLD_START_COUNT: usize = 30;

/// Default snapshot quantum, in rows: half the default overscan.
pub const VIRTUAL_SCROLL_QUANTUM_ROWS: u16 = 40;

/// Default pessimistic height, in rows, for unmeasured items in coverage checks.
pub const VIRTUAL_SCROLL_PESSIMISTIC_HEIGHT_ROWS: u16 = 1;

/// Default maximum number of mounted items.
pub const VIRTUAL_SCROLL_MAX_MOUNTED_ITEMS: usize = 300;

/// Default cap for newly mounted items during fast-scroll catch-up.
pub const VIRTUAL_SCROLL_SLIDE_STEP_ITEMS: usize = 25;

/// Default cap for the committed-to-pending span, in viewport heights.
pub const VIRTUAL_SCROLL_MAX_SPAN_VIEWPORTS: u16 = 3;

/// Configuration for [`plan_virtual_scroll_range`].
#[derive(Clone, Copy, Debug, PartialEq, Eq)]
pub struct VirtualScrollConfig {
    /// Estimated height for an unmeasured item.
    pub default_estimate_rows: u16,
    /// Extra rows to keep mounted above and below the viewport.
    pub overscan_rows: u16,
    /// Tail seed count before the viewport has reported a height.
    pub cold_start_count: usize,
    /// Quantum of [`virtual_scroll_snapshot_bin`].
    pub scroll_quantum_rows: u16,
    /// Smallest height assumed when proving that the mounted range covers the viewport.
    pub pessimistic_height_rows: u16,
    /// Hard cap for the mounted item count.
    pub max_mounted_items: usize,
    /// Maximum number of new items mounted per fast-scroll planning step.
    pub slide_step_items: usize,
    /// Maximum committed-to-pending span, expressed in viewport heights.
    pub max_span_viewports: u16,
}

impl Default for VirtualScrollConfig {
    fn default() -> (r: Self)
        ensures
            r.default_estimate_rows == VIRTUAL_SCROLL_DEFAULT_ESTIMATE_ROWS,
            r.overscan_rows == VIRTUAL_SCROLL_OVERSCAN_ROWS,
            r.cold_start_count == VIRTUAL_SCROLL_COLD_START_COUNT,
            r.scroll_quantum_rows == VIRTUAL_SCROLL_QUANTUM_ROWS,
            r.pessimistic_height_rows == VIRTUAL_SCROLL_PESSIMISTIC_HEIGHT_ROWS,
            r.max_mounted_items == VIRTUAL_SCROLL_MAX_MOUNTED_ITEMS,
            r.slide_step_items == VIRTUAL_SCROLL_SLIDE_STEP_ITEMS,
            r.max_span_viewports == VIRTUAL_SCROLL_MAX_SPAN_VIEWPORTS,
            r.default_estimate_rows == 3 && r.pessimistic_height_rows == 1,
            r.overscan_rows == 80 && 2 * r.scroll_quantum_rows == r.overscan_rows,
            r.cold_start_count == 30 && r.max_mounted_items == 300,
            r.slide_step_items == 25 && r.max_span_viewports == 3,
    {
        VirtualScrollConfig {
            default_estimate_rows: VIRTUAL_SCROLL_DEFAULT_ESTIMATE_ROWS,
            overscan_rows: VIRTUAL_SCROLL_OVERSCAN_ROWS,
            cold_start_count: VIRTUAL_SCROLL_COLD_START_COUNT,
            scroll_quantum_rows: VIRTUAL_SCROLL_QUANTUM_ROWS,
            pessimistic_height_rows: VIRTUAL_SCROLL_PESSIMISTIC_HEIGHT_ROWS,
            max_mounted_items: VIRTUAL_SCROLL_MAX_MOUNTED_ITEMS,
            slide_step_items: VIRTUAL_SCROLL_SLIDE_STEP_ITEMS,
            max_span_viewports: VIRTUAL_SCROLL_MAX_SPAN_VIEWPORTS,
        }
    }
}

/// Half-open item range returned by planning.
#[derive(Clone, Copy, Debug, PartialEq, Eq, Structural)]
pub struct VirtualScrollRange {
    /// First item index to render.
    pub start: usize,
    /// One-past-last item index to render.
    pub end: usize,
}

impl Default for VirtualScrollRange {
    fn default() -> (r: Self)
        ensures
            r.start == 0,
            r.end == 0,
    {
        VirtualScrollRange { start: 0, end: 0 }
    }
}

impl VirtualScrollRange {
    /// Creates a new half-open range.
    pub fn new(start: usize, end: usize) -> (r: Self)
        ensures
            r.start == start,
            r.end == end,
    {
        VirtualScrollRange { start, end }
    }

    /// Returns the number of items in the range.
    pub fn len(self) -> (r: usize)
        ensures
            r == crate::math::max_int(self.end - self.start, 0),
    {
        self.end.saturating_sub(self.start)
    }

    /// Returns true when the range contains no items.
    pub fn is_empty(self) -> (r: bool)
        ensures
            r == (self.start >= self.end),
    {
        self.start >= self.end
    }
}

/// Inputs for [`plan_virtual_scroll_range`].
#[derive(Clone, Copy, Debug, PartialEq, Eq)]
pub struct VirtualScrollInput {
    /// Current committed scroll offset, or `None` before the viewport has attached.
    pub scroll_top: Option<i32>,
    /// Pending scroll delta that has not yet drained into `scroll_top`.
    pub pending_delta: i32,
    /// Height of the visible viewport in rows.
    pub viewport_height: u16,
    /// Whether the scroll view should stay pinned to the tail.
    pub is_sticky: bool,
    /// Offset of the virtualized list inside the scroll content.
    pub list_origin: i32,
    /// Previously rendered range, used to cap fast-scroll mount churn.
    pub previous_range: Option<VirtualScrollRange>,
    /// Previously committed scroll offset, used to detect fast-scroll velocity.
    pub previous_scroll_top: Option<i32>,
}

impl Default for VirtualScrollInput {
    fn default() -> (r: Self)
        ensures
            r.scroll_top == None::<i32>,
            r.pending_delta == 0,
            r.viewport_height == 0,
            r.is_sticky,
            r.list_origin == 0,
            r.previous_range == None::<VirtualScrollRange>,
            r.previous_scroll_top == None::<i32>,
    {
        VirtualScrollInput {
            scroll_top: None,
            pending_delta: 0,
            viewport_height: 0,
            is_sticky: true,
            list_origin: 0,
            previous_range: None,
            previous_scroll_top: None,
        }
    }
}

/// Pure planning result for a virtualized list.
#[derive(Clone, Debug, PartialEq, Eq)]
pub struct VirtualScrollPlan {
    /// Half-open item range to render.
    pub range: VirtualScrollRange,
    /// Spacer rows before `range.start`.
    pub top_spacer: i32,
    /// Spacer rows after `range.end`.
    pub bottom_spacer: i32,
    /// Estimated total list height.
    pub total_height: i32,
    /// Target scroll top after adding the pending delta.
    pub target_scroll_top: i32,
    /// Lower clamp bound for the scroll handle.
    pub clamp_min: Option<i32>,
    /// Upper clamp bound for the scroll handle. `None` means unbounded.
    pub clamp_max: Option<i32>,
    /// Quantized snapshot bin for deciding whether a range recompute is needed.
    pub snapshot_bin: i32,
}

/// The rows of one item: its measured height, or `fallback` (at least one row).
pub open spec fn item_rows(height: Option<u16>, fallback: u16) -> int {
    match height {
        Some(rows) => rows as int,
        None => crate::math::max_int(fallback as int, 1),
    }
}

/// The rows of the items `from..to`.
pub open spec fn rows_between(
    heights: Seq<Option<u16>>,
    fallback: u16,
    from: int,
    to: int,
) -> int
    decreases to - from,
{
    if from >= to {
        0
    } else {
        rows_between(heights, fallback, from, to - 1) + item_rows(heights[to - 1], fallback)
    }
}

/// The row at which item `i` starts, stopping at `i32::MAX`.
pub open spec fn offset_at(heights: Seq<Option<u16>>, config: VirtualScrollConfig, i: int) -> int {
    crate::math::sat_i32(rows_between(heights, config.default_estimate_rows, 0, i))
}

/// The rows that the items `from..to` are certain to cover, stopping at `i32::MAX`.
pub open spec fn sure_rows(
    heights: Seq<Option<u16>>,
    config: VirtualScrollConfig,
    from: int,
    to: int,
) -> int {
    crate::math::sat_i32(rows_between(heights, config.pessimistic_height_rows, from, to))
}

impl VirtualScrollConfig {
    /// The largest number of items that may be mounted.
    pub open spec fn mount_limit(self) -> int {
        crate::math::max_int(self.max_mounted_items as int, 1)
    }

    /// The largest number of items that a fast scroll may add on one side.
    pub open spec fn slide_limit(self) -> int {
        crate::math::max_int(self.slide_step_items as int, 1)
    }
}

impl VirtualScrollInput {
    /// The committed offset that planning works with.
    pub open spec fn committed_top(self) -> int {
        match self.scroll_top {
            Some(top) => crate::math::max_int(top as int, 0),
            None => 0,
        }
    }

    /// The offset that the pending delta leads to.
    pub open spec fn target_top(self) -> int {
        crate::math::max_int(crate::math::sat_i32(self.committed_top() + self.pending_delta), 0)
    }

    /// The rows that the mounted items should cover: the viewport and the
    /// overscan on both sides.
    pub open spec fn needed_rows(self, config: VirtualScrollConfig) -> int {
        self.viewport_height + 2 * config.overscan_rows
    }

    /// The longest span of offsets that planning covers at once.
    pub open spec fn max_span(self, config: VirtualScrollConfig) -> int {
        crate::math::sat_i32(
            self.viewport_height * crate::math::max_int(config.max_span_viewports as int, 1),
        )
    }

    /// The offsets between the committed and the pending position, cut to
    /// [`Self::max_span`] at the far end of the movement.
    pub open spec fn span(self, config: VirtualScrollConfig) -> (int, int) {
        let low: int = crate::math::min_int(self.committed_top(), self.target_top());
        let high: int = crate::math::max_int(self.committed_top(), self.target_top());
        if high - low <= self.max_span(config) {
            (low, high)
        } else if self.pending_delta < 0 {
            (high - self.max_span(config), high)
        } else {
            (low, crate::math::sat_i32(low + self.max_span(config)))
        }
    }

    /// The list row from which on items are mounted.
    pub open spec fn first_row(self, config: VirtualScrollConfig) -> int {
        crate::math::max_int(crate::math::sat_i32(self.span(config).0 - self.list_origin), 0)
            - config.overscan_rows
    }

    /// The list row up to which items are mounted.
    pub open spec fn last_row(self, config: VirtualScrollConfig) -> int {
        crate::math::sat_i32(
            crate::math::sat_i32(self.span(config).1 - self.list_origin) + self.viewport_height
                + config.overscan_rows,
        )
    }

    /// How fast the viewport moves: the distance since the last pass and the
    /// distance that is pending.
    pub open spec fn velocity(self, previous_top: int) -> int {
        crate::math::sat_i32(
            crate::math::min_int(
                crate::math::abs_int(crate::math::sat_i32(self.committed_top() - previous_top)),
                i32::MAX as int,
            ) + crate::math::min_int(
                crate::math::abs_int(self.pending_delta as int),
                i32::MAX as int,
            ),
        )
    }

    /// Whether the slide cap applies: there is a previous pass, and the viewport
    /// moves faster than two of its heights.
    pub open spec fn is_fast(self) -> bool {
        &&& self.previous_range is Some
        &&& self.previous_scroll_top is Some
        &&& self.viewport_height > 0
        &&& self.velocity(self.previous_scroll_top->0 as int) > 2 * self.viewport_height
    }
}

/// The start of the shortest tail whose items before its first one reach
/// `budget` rows above the end, searched downwards from `from`.
pub open spec fn tail_start(
    heights: Seq<Option<u16>>,
    config: VirtualScrollConfig,
    budget: int,
    from: int,
) -> int
    decreases from,
{
    if from > 0 && offset_at(heights, config, heights.len() as int) - offset_at(
        heights,
        config,
        from - 1,
    ) < budget {
        tail_start(heights, config, budget, from - 1)
    } else {
        from
    }
}

/// The first item from `from` on that ends below row `row`, or the item count.
pub open spec fn first_ending_after(
    heights: Seq<Option<u16>>,
    config: VirtualScrollConfig,
    row: int,
    from: int,
) -> int
    decreases heights.len() - from,
{
    if from < heights.len() && offset_at(heights, config, from + 1) <= row {
        first_ending_after(heights, config, row, from + 1)
    } else {
        from
    }
}

/// The end of the range that starts at `start`: the first `end` from `from` on at
/// which the items cover `needed` rows and reach row `last_row`, at most `limit`.
pub open spec fn covering_end(
    heights: Seq<Option<u16>>,
    config: VirtualScrollConfig,
    needed: int,
    last_row: int,
    limit: int,
    start: int,
    from: int,
) -> int
    decreases limit - from,
{
    if from < limit && (sure_rows(heights, config, start, from) < needed || offset_at(
        heights,
        config,
        from,
    ) < last_row) {
        covering_end(heights, config, needed, last_row, limit, start, from + 1)
    } else {
        from
    }
}

/// The range before it is widened and capped.
pub open spec fn seed_range(
    heights: Seq<Option<u16>>,
    input: VirtualScrollInput,
    config: VirtualScrollConfig,
) -> (int, int) {
    let n: int = heights.len() as int;
    if n == 0 {
        (0, 0)
    } else if input.viewport_height == 0 || input.scroll_top is None {
        (crate::math::max_int(n - config.cold_start_count, 0), n)
    } else if input.is_sticky {
        (tail_start(heights, config, input.viewport_height + config.overscan_rows, n), n)
    } else {
        let start: int = first_ending_after(heights, config, input.first_row(config), 0);
        let limit: int = crate::math::min_int(n, start + config.mount_limit());
        (
            start,
            covering_end(
                heights,
                config,
                input.needed_rows(config),
                input.last_row(config),
                limit,
                start,
                start,
            ),
        )
    }
}

/// The start after items are added at the front, searched downwards from
/// `start`, until the range covers `needed` rows or `lowest` is reached.
pub open spec fn widened_start(
    heights: Seq<Option<u16>>,
    config: VirtualScrollConfig,
    needed: int,
    lowest: int,
    start: int,
    end: int,
) -> int
    decreases start - lowest,
{
    if start > lowest && sure_rows(heights, config, start, end) < needed {
        widened_start(heights, config, needed, lowest, start - 1, end)
    } else {
        start
    }
}

/// The seed range, widened at its front.
pub open spec fn widened_range(
    heights: Seq<Option<u16>>,
    input: VirtualScrollInput,
    config: VirtualScrollConfig,
) -> (int, int) {
    let (start, end): (int, int) = seed_range(heights, input, config);
    let lowest: int = crate::math::max_int(end - config.mount_limit(), 0);
    (widened_start(heights, config, input.needed_rows(config), lowest, start, end), end)
}

/// The range after the slide cap: a fast scroll extends the previous range by at
/// most the slide limit on each side, and mounts that many items where the two
/// do not meet.
pub open spec fn slide_capped(
    range: (int, int),
    n: int,
    input: VirtualScrollInput,
    config: VirtualScrollConfig,
) -> (int, int) {
    if !input.is_fast() {
        range
    } else {
        let slide: int = config.slide_limit();
        let previous: VirtualScrollRange = input.previous_range->0;
        let start: int = crate::math::max_int(range.0, previous.start - slide);
        let end: int = crate::math::min_int(range.1, previous.end + slide);
        if start > end {
            (start, crate::math::min_int(n, start + slide))
        } else {
            (start, end)
        }
    }
}

/// The range after the mount cap: it keeps the end that is nearer to the
/// committed offset.
pub open spec fn mount_capped(
    range: (int, int),
    heights: Seq<Option<u16>>,
    input: VirtualScrollInput,
    config: VirtualScrollConfig,
) -> (int, int) {
    if range.1 - range.0 <= config.mount_limit() {
        range
    } else {
        let middle: int = crate::math::sat_i32(
            offset_at(heights, config, range.0) + offset_at(heights, config, range.1),
        ) / 2;
        if crate::math::sat_i32(input.committed_top() - input.list_origin) < middle {
            (range.0, range.0 + config.mount_limit())
        } else {
            (range.1 - config.mount_limit(), range.1)
        }
    }
}

/// A range moved into `0..n`, empty where it was reversed.
pub open spec fn within_items(range: (int, int), n: int) -> (int, int) {
    let start: int = crate::math::min_int(range.0, n);
    (start, crate::math::max_int(crate::math::min_int(range.1, n), start))
}

/// The range that planning mounts.
pub open spec fn planned_range(
    heights: Seq<Option<u16>>,
    input: VirtualScrollInput,
    config: VirtualScrollConfig,
) -> (int, int) {
    let n: int = heights.len() as int;
    within_items(
        mount_capped(
            slide_capped(widened_range(heights, input, config), n, input, config),
            heights,
            input,
            config,
        ),
        n,
    )
}

/// The snapshot bin of an offset: its quantum number, inverted in sticky mode.
pub open spec fn snapshot_bin_of(target: int, is_sticky: bool, config: VirtualScrollConfig) -> int {
    let bin: int = target / crate::math::max_int(config.scroll_quantum_rows as int, 1);
    if is_sticky {
        -1 - bin
    } else {
        bin
    }
}

/// What a plan for a mounted range says of the rows around it.
pub open spec fn plan_describes(
    plan: VirtualScrollPlan,
    range: (int, int),
    heights: Seq<Option<u16>>,
    input: VirtualScrollInput,
    config: VirtualScrollConfig,
) -> bool {
    let n: int = heights.len() as int;
    let top: int = offset_at(heights, config, range.0);
    let bottom: int = offset_at(heights, config, range.1);
    &&& plan.range.start == range.0
    &&& plan.range.end == range.1
    &&& plan.top_spacer == top
    &&& plan.bottom_spacer == offset_at(heights, config, n) - bottom
    &&& plan.total_height == offset_at(heights, config, n)
    &&& plan.target_scroll_top == input.target_top()
    &&& plan.snapshot_bin == snapshot_bin_of(input.target_top(), input.is_sticky, config)
    &&& plan.clamp_min == if input.is_sticky {
        None
    } else if range.0 == 0 {
        Some(0i32)
    } else {
        Some(crate::math::sat_i32(top + input.list_origin) as i32)
    }
    &&& plan.clamp_max == if input.is_sticky || range.1 == n {
        None
    } else {
        Some(
            crate::math::sat_i32(
                crate::math::max_int(top, bottom - input.viewport_height) + input.list_origin,
            ) as i32,
        )
    }
}

proof fn lemma_rows_nonnegative(
    heights: Seq<Option<u16>>,
    fallback: u16,
    from: int,
    to: int,
)
    ensures
        rows_between(heights, fallback, from, to) >= 0,
    decreases to - from,
{
    if from < to {
        lemma_rows_nonnegative(heights, fallback, from, to - 1);
    }
}

proof fn lemma_rows_split(
    heights: Seq<Option<u16>>,
    fallback: u16,
    from: int,
    middle: int,
    to: int,
)
    requires
        from <= middle <= to,
    ensures
        rows_between(heights, fallback, from, to) == rows_between(heights, fallback, from, middle)
            + rows_between(heights, fallback, middle, to),
    decreases to - middle,
{
    if middle < to {
        lemma_rows_split(heights, fallback, from, middle, to - 1);
    }
}

proof fn lemma_offsets_monotone(
    heights: Seq<Option<u16>>,
    config: VirtualScrollConfig,
    i: int,
    j: int,
)
    requires
        0 <= i <= j,
    ensures
        0 <= offset_at(heights, config, i) <= offset_at(heights, config, j),
{
    lemma_rows_split(heights, config.default_estimate_rows, 0, i, j);
    lemma_rows_nonnegative(heights, config.default_estimate_rows, i, j);
    lemma_rows_nonnegative(heights, config.default_estimate_rows, 0, i);
}

proof fn lemma_first_ending_after_found(
    heights: Seq<Option<u16>>,
    config: VirtualScrollConfig,
    row: int,
    from: int,
    found: int,
)
    requires
        0 <= from <= found <= heights.len(),
        forall|j: int| 1 <= j <= found ==> #[trigger] offset_at(heights, config, j) <= row,
        found < heights.len() ==> offset_at(heights, config, found + 1) > row,
    ensures
        first_ending_after(heights, config, row, from) == found,
    decreases found - from,
{
    if from < found {
        assert(offset_at(heights, config, from + 1) <= row);
        lemma_first_ending_after_found(heights, config, row, from + 1, found);
    }
}

/// Returns the quantized snapshot bin of a scroll position.
///
/// The bin is computed from `scroll_top + pending_delta`, so that a wheel burst
/// can mount its destination before the visual drain reaches it. Sticky mode
/// inverts the bin, which makes sticky transitions observable even where the
/// offset stays inside the same quantum.
pub fn virtual_scroll_snapshot_bin(
    scroll_top: i32,
    pending_delta: i32,
    is_sticky: bool,
    config: VirtualScrollConfig,
) -> (bin: i32)
    ensures
        bin == snapshot_bin_of(
            crate::math::max_int(crate::math::sat_i32(scroll_top + pending_delta), 0),
            is_sticky,
            config,
        ),
{
    let quantum: i32 = max_u16(config.scroll_quantum_rows, 1) as i32;
    let target: i32 = max_i32(saturating_add(scroll_top, pending_delta), 0);
    let bin: i32 = target / quantum;
    assert(0 <= target as int / quantum as int <= target) by (nonlinear_arith)
        requires
            target >= 0,
            quantum >= 1,
    ;
    if is_sticky {
        -1 - bin
    } else {
        bin
    }
}

/// The row at which each item starts, with the total as the last entry.
pub fn virtual_scroll_offsets(item_heights: &[Option<u16>], config: VirtualScrollConfig) -> (offsets:
    Vec<i32>)
    ensures
        offsets@.len() == item_heights@.len() + 1,
        forall|i: int|
            0 <= i <= item_heights@.len() ==> #[trigger] offsets@[i] == offset_at(
                item_heights@,
                config,
                i,
            ),
{
    let mut offsets: Vec<i32> = Vec::new();
    offsets.push(0);
    let estimate: i32 = max_u16(config.default_estimate_rows, 1) as i32;
    let mut total: i32 = 0;
    let mut i: usize = 0;
    while i < item_heights.len()
        invariant
            i <= item_heights@.len(),
            offsets@.len() == i + 1,
            estimate == crate::math::max_int(config.default_estimate_rows as int, 1),
            total == offset_at(item_heights@, config, i as int),
            total >= 0,
            forall|k: int|
                0 <= k <= i ==> #[trigger] offsets@[k] == offset_at(item_heights@, config, k),
        decreases item_heights@.len() - i,
    {
        let rows: i32 = match item_heights[i] {
            Some(height) => height as i32,
            None => estimate,
        };
        proof {
            lemma_rows_nonnegative(item_heights@, config.default_estimate_rows, 0, i as int);
        }
        total = saturating_add(total, rows);
        offsets.push(total);
        i = i + 1;
    }
    offsets
}

/// The offsets between the committed and the pending position that the mounted
/// range has to cover.
pub fn virtual_scroll_effective_span(
    scroll_top: i32,
    input: VirtualScrollInput,
    config: VirtualScrollConfig,
) -> (span: (i32, i32))
    requires
        scroll_top == input.committed_top(),
    ensures
        span.0 == input.span(config).0,
        span.1 == input.span(config).1,
{
    let target: i32 = saturating_add(scroll_top, input.pending_delta);
    let low: i32 = max_i32(min_i32(scroll_top, target), 0);
    let high: i32 = max_i32(max_i32(scroll_top, target), 0);
    let length: i32 = saturating_sub(high, low);
    let viewports: u16 = max_u16(config.max_span_viewports, 1);
    assert(0 <= input.viewport_height as int * viewports as int <= 65535 * 65535)
        by (nonlinear_arith)
        requires
            0 <= input.viewport_height <= 65535,
            1 <= viewports <= 65535,
    ;
    let product: i64 = input.viewport_height as i64 * viewports as i64;
    let max_span: i32 = if product > i32::MAX as i64 {
        i32::MAX
    } else {
        product as i32
    };
    assert(max_span == input.max_span(config));
    if length > max_span {
        if input.pending_delta < 0 {
            (saturating_sub(high, max_span), high)
        } else {
            (low, saturating_add(low, max_span))
        }
    } else {
        (low, high)
    }
}

/// Finds the first item that ends below row `lo`, by bisection.
pub fn virtual_scroll_find_start(
    offsets: &Vec<i32>,
    lo: i32,
) -> (start: usize)
    requires
        offsets@.len() >= 1,
        forall|i: int, j: int| 0 <= i <= j < offsets@.len() ==> offsets@[i] <= offsets@[j],
    ensures
        start < offsets@.len(),
        forall|j: int| 1 <= j <= start ==> #[trigger] offsets@[j] <= lo,
        start + 1 < offsets@.len() ==> offsets@[start + 1] > lo,
{
    let n: usize = offsets.len() - 1;
    let mut left: usize = 0;
    let mut right: usize = n;
    while left < right
        invariant
            left <= right <= n,
            n == offsets@.len() - 1,
            forall|i: int, j: int| 0 <= i <= j < offsets@.len() ==> offsets@[i] <= offsets@[j],
            forall|j: int| 1 <= j <= left ==> #[trigger] offsets@[j] <= lo,
            right < n ==> offsets@[right + 1] > lo,
        decreases right - left,
    {
        let mid: usize = left + (right - left) / 2;
        if offsets[mid + 1] <= lo {
            left = mid + 1;
        } else {
            right = mid;
        }
    }
    left
}

/// The rows that one item is certain to cover.
pub fn virtual_scroll_coverage_height(height: Option<u16>, pessimistic_height_rows: u16) -> (rows:
    i32)
    ensures
        rows == item_rows(height, pessimistic_height_rows),
{
    match height {
        Some(rows) => rows as i32,
        None => max_u16(pessimistic_height_rows, 1) as i32,
    }
}

/// The rows that the items of a range are certain to cover.
pub fn virtual_scroll_coverage(
    item_heights: &[Option<u16>],
    start: usize,
    end: usize,
    config: VirtualScrollConfig,
) -> (coverage: i32)
    requires
        start <= end <= item_heights@.len(),
    ensures
        coverage == sure_rows(item_heights@, config, start as int, end as int),
{
    let mut coverage: i32 = 0;
    let mut i: usize = start;
    while i < end
        invariant
            start <= i <= end <= item_heights@.len(),
            coverage == sure_rows(item_heights@, config, start as int, i as int),
        decreases end - i,
    {
        proof {
            lemma_rows_nonnegative(
                item_heights@,
                config.pessimistic_height_rows,
                start as int,
                i as int,
            );
        }
        coverage = saturating_add(
            coverage,
            virtual_scroll_coverage_height(item_heights[i], config.pessimistic_height_rows),
        );
        i = i + 1;
    }
    coverage
}

/// Chooses the range before it is widened and capped.
fn virtual_scroll_seed_range(
    item_heights: &[Option<u16>],
    input: VirtualScrollInput,
    config: VirtualScrollConfig,
    offsets: &Vec<i32>,
) -> (range: (usize, usize))
    requires
        offsets@.len() == item_heights@.len() + 1,
        forall|i: int|
            0 <= i <= item_heights@.len() ==> #[trigger] offsets@[i] == offset_at(
                item_heights@,
                config,
                i,
            ),
    ensures
        range.0 == seed_range(item_heights@, input, config).0,
        range.1 == seed_range(item_heights@, input, config).1,
        range.0 <= range.1 <= item_heights@.len(),
{
    let n: usize = item_heights.len();
    let ghost heights = item_heights@;
    proof {
        assert forall|i: int, j: int| 0 <= i <= j < offsets@.len() implies offsets@[i]
            <= offsets@[j] by {
            lemma_offsets_monotone(heights, config, i, j);
        }
        assert forall|i: int| 0 <= i <= n implies 0 <= #[trigger] offsets@[i] by {
            lemma_offsets_monotone(heights, config, i, i);
        }
    }
    if n == 0 {
        return (0, 0);
    }
    let scroll_top: i32 = match input.scroll_top {
        Some(top) => max_i32(top, 0),
        None => {
            return (n.saturating_sub(config.cold_start_count), n);
        },
    };
    if input.viewport_height == 0 {
        return (n.saturating_sub(config.cold_start_count), n);
    }
    let viewport: i32 = input.viewport_height as i32;
    let overscan: i32 = config.overscan_rows as i32;
    if input.is_sticky {
        let budget: i32 = viewport + overscan;
        let total: i32 = offsets[n];
        let mut start: usize = n;
        while start > 0 && total - offsets[start - 1] < budget
            invariant
                start <= n,
                n == heights.len(),
                offsets@.len() == n + 1,
                total == offset_at(heights, config, n as int),
                total >= 0,
                forall|i: int| 0 <= i <= n ==> #[trigger] offsets@[i] == offset_at(heights, config, i),
                forall|i: int| 0 <= i <= n ==> 0 <= #[trigger] offsets@[i],
                tail_start(heights, config, budget as int, n as int) == tail_start(
                    heights,
                    config,
                    budget as int,
                    start as int,
                ),
            decreases start,
        {
            start = start - 1;
        }
        return (start, n);
    }
    let span = virtual_scroll_effective_span(scroll_top, input, config);
    let low: i32 = max_i32(saturating_sub(span.0, input.list_origin), 0);
    let high: i32 = saturating_sub(span.1, input.list_origin);
    let first_row: i32 = low - overscan;
    let last_row: i32 = saturating_add(saturating_add(high, viewport), overscan);
    let start: usize = virtual_scroll_find_start(offsets, first_row);
    proof {
        assert forall|j: int| 1 <= j <= start implies #[trigger] offset_at(heights, config, j)
            <= first_row by {
            assert(offsets@[j] <= first_row);
        }
        if start < n {
            assert(offsets@[start + 1] == offset_at(heights, config, start + 1));
        }
        lemma_first_ending_after_found(heights, config, first_row as int, 0, start as int);
    }
    let needed: i32 = viewport + overscan * 2;
    let limit: usize = min_usize(n, start.saturating_add(max_usize(config.max_mounted_items, 1)));
    let mut coverage: i32 = 0;
    let mut end: usize = start;
    while end < limit && (coverage < needed || offsets[end] < last_row)
        invariant
            start <= end <= limit <= n,
            n == heights.len(),
            heights == item_heights@,
            offsets@.len() == n + 1,
            forall|i: int| 0 <= i <= n ==> #[trigger] offsets@[i] == offset_at(heights, config, i),
            coverage == sure_rows(heights, config, start as int, end as int),
            covering_end(
                heights,
                config,
                needed as int,
                last_row as int,
                limit as int,
                start as int,
                start as int,
            ) == covering_end(
                heights,
                config,
                needed as int,
                last_row as int,
                limit as int,
                start as int,
                end as int,
            ),
        decreases limit - end,
    {
        proof {
            lemma_rows_nonnegative(
                heights,
                config.pessimistic_height_rows,
                start as int,
                end as int,
            );
        }
        coverage = saturating_add(
            coverage,
            virtual_scroll_coverage_height(item_heights[end], config.pessimistic_height_rows),
        );
        end = end + 1;
    }
    (start, end)
}

/// Builds the plan for a mounted range.
fn build_virtual_scroll_plan_from_range(
    item_heights: &[Option<u16>],
    input: VirtualScrollInput,
    config: VirtualScrollConfig,
    range: VirtualScrollRange,
    offsets: Vec<i32>,
) -> (plan: VirtualScrollPlan)
    requires
        offsets@.len() == item_heights@.len() + 1,
        forall|i: int|
            0 <= i <= item_heights@.len() ==> #[trigger] offsets@[i] == offset_at(
                item_heights@,
                config,
                i,
            ),
    ensures
        plan_describes(
            plan,
            within_items((range.start as int, range.end as int), item_heights@.len() as int),
            item_heights@,
            input,
            config,
        ),
{
    let n: usize = item_heights.len();
    let start: usize = min_usize(range.start, n);
    let end: usize = max_usize(min_usize(range.end, n), start);
    let scroll_top: i32 = match input.scroll_top {
        Some(top) => max_i32(top, 0),
        None => 0,
    };
    let viewport: i32 = input.viewport_height as i32;
    let top_spacer: i32 = offsets[start];
    let bottom: i32 = offsets[end];
    let total_height: i32 = offsets[n];
    proof {
        lemma_offsets_monotone(item_heights@, config, start as int, end as int);
        lemma_offsets_monotone(item_heights@, config, end as int, n as int);
    }
    let clamp_min: Option<i32> = if input.is_sticky {
        None
    } else if start == 0 {
        Some(0)
    } else {
        Some(saturating_add(top_spacer, input.list_origin))
    };
    let clamp_max: Option<i32> = if input.is_sticky || end == n {
        None
    } else {
        Some(saturating_add(max_i32(top_spacer, bottom - viewport), input.list_origin))
    };
    VirtualScrollPlan {
        range: VirtualScrollRange { start, end },
        top_spacer,
        bottom_spacer: total_height - bottom,
        total_height,
        target_scroll_top: max_i32(saturating_add(scroll_top, input.pending_delta), 0),
        clamp_min,
        clamp_max,
        snapshot_bin: virtual_scroll_snapshot_bin(
            scroll_top,
            input.pending_delta,
            input.is_sticky,
            config,
        ),
    }
}

/// Plans the mounted range, the spacers, and the clamp bounds of a virtual list.
///
/// `item_heights` contains one entry per item: `Some(rows)` for a measured item
/// and `None` for an unmeasured one. Before the viewport is known the tail is
/// mounted; in sticky mode the tail that covers the viewport; otherwise the
/// items that cover both the committed and the pending position. A fast scroll
/// mounts a bounded number of new items, and the mounted count never exceeds
/// its cap.
pub fn plan_virtual_scroll_range(
    item_heights: &[Option<u16>],
    input: VirtualScrollInput,
    config: VirtualScrollConfig,
) -> (plan: VirtualScrollPlan)
    ensures
        plan_describes(
            plan,
            planned_range(item_heights@, input, config),
            item_heights@,
            input,
            config,
        ),
{
    let n: usize = item_heights.len();
    let ghost heights = item_heights@;
    let offsets = virtual_scroll_offsets(item_heights, config);
    let seed = virtual_scroll_seed_range(item_heights, input, config, &offsets);
    let mut start: usize = seed.0;
    let mut end: usize = seed.1;

    let viewport: i32 = input.viewport_height as i32;
    let needed: i32 = viewport + config.overscan_rows as i32 * 2;
    let max_mounted: usize = max_usize(config.max_mounted_items, 1);
    let lowest: usize = end.saturating_sub(max_mounted);
    let mut coverage: i32 = virtual_scroll_coverage(item_heights, start, end, config);
    while start > lowest && coverage < needed
        invariant
            start <= end <= n,
            n == heights.len(),
            heights == item_heights@,
            coverage == sure_rows(heights, config, start as int, end as int),
            widened_start(
                heights,
                config,
                needed as int,
                lowest as int,
                seed.0 as int,
                end as int,
            ) == widened_start(
                heights,
                config,
                needed as int,
                lowest as int,
                start as int,
                end as int,
            ),
        decreases start,
    {
        start = start - 1;
        proof {
            let fallback: u16 = config.pessimistic_height_rows;
            lemma_rows_split(heights, fallback, start as int, start + 1, end as int);
            lemma_rows_nonnegative(heights, fallback, start + 1, end as int);
            assert(rows_between(heights, fallback, start as int, start + 1) == item_rows(
                heights[start as int],
                fallback,
            )) by {
                assert(rows_between(heights, fallback, start as int, start as int) == 0);
            }
        }
        coverage = saturating_add(
            coverage,
            virtual_scroll_coverage_height(item_heights[start], config.pessimistic_height_rows),
        );
    }
    assert(start == widened_range(heights, input, config).0);
    assert(end == widened_range(heights, input, config).1);

    let scroll_top: i32 = match input.scroll_top {
        Some(top) => max_i32(top, 0),
        None => 0,
    };
    if let (Some(previous), Some(previous_scroll_top)) = (
        input.previous_range,
        input.previous_scroll_top,
    ) {
        let moved: i32 = magnitude(saturating_sub(scroll_top, previous_scroll_top));
        let velocity: i32 = saturating_add(moved, magnitude(input.pending_delta));
        if viewport > 0 && velocity > viewport * 2 {
            let slide: usize = max_usize(config.slide_step_items, 1);
            if previous.start > slide && start < previous.start - slide {
                start = previous.start - slide;
            }
            if end > previous.end.saturating_add(slide) {
                end = previous.end.saturating_add(slide);
            }
            if start > end {
                end = min_usize(n, start.saturating_add(slide));
            }
        }
    }
    let ghost slid = slide_capped(widened_range(heights, input, config), n as int, input, config);
    assert(start == slid.0);
    assert(end == slid.1);
    assert(end <= n);

    if end.saturating_sub(start) > max_mounted {
        proof {
            lemma_offsets_monotone(heights, config, start as int, end as int);
        }
        let middle: i32 = saturating_add(offsets[start], offsets[end]) / 2;
        if saturating_sub(scroll_top, input.list_origin) < middle {
            end = start + max_mounted;
        } else {
            start = end - max_mounted;
        }
    }
    assert(start == mount_capped(slid, heights, input, config).0);
    assert(end == mount_capped(slid, heights, input, config).1);
    build_virtual_scroll_plan_from_range(
        item_heights,
        input,
        config,
        VirtualScrollRange { start, end },
        offsets,
    )
}

/// Plans with a range that is already chosen, moved into the item list.
pub fn plan_virtual_scroll_fixed_range(
    item_heights: &[Option<u16>],
    input: VirtualScrollInput,
    config: VirtualScrollConfig,
    range: VirtualScrollRange,
) -> (plan: VirtualScrollPlan)
    ensures
        plan_describes(
            plan,
            within_items((range.start as int, range.end as int), item_heights@.len() as int),
            item_heights@,
            input,
            config,
        ),
{
    let offsets = virtual_scroll_offsets(item_heights, config);
    build_virtual_scroll_plan_from_range(item_heights, input, config, range, offsets)
}

proof fn lemma_tail_start_bounds(
    heights: Seq<Option<u16>>,
    config: VirtualScrollConfig,
    budget: int,
    from: int,
)
    requires
        0 <= from,
    ensures
        0 <= tail_start(heights, config, budget, from) <= from,
    decreases from,
{
    if from > 0 {
        lemma_tail_start_bounds(heights, config, budget, from - 1);
    }
}

proof fn lemma_first_ending_after_bounds(
    heights: Seq<Option<u16>>,
    config: VirtualScrollConfig,
    row: int,
    from: int,
)
    requires
        0 <= from <= heights.len(),
    ensures
        from <= first_ending_after(heights, config, row, from) <= heights.len(),
    decreases heights.len() - from,
{
    if from < heights.len() {
        lemma_first_ending_after_bounds(heights, config, row, from + 1);
    }
}

proof fn lemma_covering_end_bounds(
    heights: Seq<Option<u16>>,
    config: VirtualScrollConfig,
    needed: int,
    last_row: int,
    limit: int,
    start: int,
    from: int,
)
    requires
        from <= limit,
    ensures
        from <= covering_end(heights, config, needed, last_row, limit, start, from) <= limit,
    decreases limit - from,
{
    if from < limit {
        lemma_covering_end_bounds(heights, config, needed, last_row, limit, start, from + 1);
    }
}

proof fn lemma_widened_start_covers(
    heights: Seq<Option<u16>>,
    config: VirtualScrollConfig,
    needed: int,
    lowest: int,
    start: int,
    end: int,
)
    requires
        0 <= lowest,
        0 <= start,
    ensures
        0 <= widened_start(heights, config, needed, lowest, start, end) <= start,
        widened_start(heights, config, needed, lowest, start, end) > lowest ==> sure_rows(
            heights,
            config,
            widened_start(heights, config, needed, lowest, start, end),
            end,
        ) >= needed,
    decreases start - lowest,
{
    if start > lowest {
        lemma_widened_start_covers(heights, config, needed, lowest, start - 1, end);
    }
}

proof fn lemma_widened_range(
    heights: Seq<Option<u16>>,
    input: VirtualScrollInput,
    config: VirtualScrollConfig,
)
    ensures
        ({
            let (start, end): (int, int) = widened_range(heights, input, config);
            &&& 0 <= start <= end <= heights.len()
            &&& start == 0 || end - start >= config.mount_limit() || sure_rows(
                heights,
                config,
                start,
                end,
            ) >= input.needed_rows(config)
        }),
{
    let n: int = heights.len() as int;
    let (start, end): (int, int) = seed_range(heights, input, config);
    lemma_tail_start_bounds(heights, config, input.viewport_height + config.overscan_rows, n);
    let first: int = first_ending_after(heights, config, input.first_row(config), 0);
    lemma_first_ending_after_bounds(heights, config, input.first_row(config), 0);
    lemma_covering_end_bounds(
        heights,
        config,
        input.needed_rows(config),
        input.last_row(config),
        crate::math::min_int(n, first + config.mount_limit()),
        first,
        first,
    );
    lemma_widened_start_covers(
        heights,
        config,
        input.needed_rows(config),
        crate::math::max_int(end - config.mount_limit(), 0),
        start,
        end,
    );
}

/// The planned range lies in the item list and never mounts more items than the
/// cap allows.
pub proof fn lemma_planned_range_within_cap(
    heights: Seq<Option<u16>>,
    input: VirtualScrollInput,
    config: VirtualScrollConfig,
)
    ensures
        ({
            let (start, end): (int, int) = planned_range(heights, input, config);
            &&& 0 <= start <= end <= heights.len()
            &&& end - start <= config.mount_limit()
        }),
{
    lemma_widened_range(heights, input, config);
}

/// Without a fast scroll the planned range covers the viewport and the overscan
/// on both sides, unless it starts at the first item or the mount cap is
/// reached.
pub proof fn lemma_planned_range_covers(
    heights: Seq<Option<u16>>,
    input: VirtualScrollInput,
    config: VirtualScrollConfig,
)
    requires
        !input.is_fast(),
    ensures
        ({
            let (start, end): (int, int) = planned_range(heights, input, config);
            ||| start == 0
            ||| end - start == config.mount_limit()
            ||| sure_rows(heights, config, start, end) >= input.needed_rows(config)
        }),
{
    lemma_widened_range(heights, input, config);
}

/// Without a fast scroll the planned range of a list that does not stick to its tail reaches
/// from the lower to the higher of the committed offset and the one that the pending delta
/// leads to, with the viewport and the overscan, as far as planning covers them at once. It
/// ends earlier only at the last item or at the mount cap.
pub proof fn lemma_planned_range_reaches_target(
    heights: Seq<Option<u16>>,
    input: VirtualScrollInput,
    config: VirtualScrollConfig,
)
    requires
        !input.is_fast(),
        !input.is_sticky,
        input.viewport_height > 0,
        input.scroll_top is Some,
    ensures
        ({
            let (start, end): (int, int) = planned_range(heights, input, config);
            &&& start == 0 || offset_at(heights, config, start) <= input.first_row(config)
            &&& end == heights.len() || end - start == config.mount_limit() || offset_at(
                heights,
                config,
                end,
            ) >= input.last_row(config)
        }),
        crate::math::abs_int(input.target_top() - input.committed_top()) <= input.max_span(config)
            ==> input.span(config).0 <= input.target_top() <= input.span(config).1,
{
    let n: int = heights.len() as int;
    let first: int = first_ending_after(heights, config, input.first_row(config), 0);
    let limit: int = crate::math::min_int(n, first + config.mount_limit());
    let needed: int = input.needed_rows(config);
    lemma_first_ending_after_bounds(heights, config, input.first_row(config), 0);
    lemma_first_item_reaches_up(heights, config, input.first_row(config), 0);
    lemma_covering_end_bounds(
        heights,
        config,
        needed,
        input.last_row(config),
        limit,
        first,
        first,
    );
    lemma_covering_end_reaches(
        heights,
        config,
        needed,
        input.last_row(config),
        limit,
        first,
        first,
    );
    if n > 0 {
        let (start, end): (int, int) = seed_range(heights, input, config);
        let lowest: int = crate::math::max_int(end - config.mount_limit(), 0);
        lemma_widened_start_covers(heights, config, needed, lowest, start, end);
        lemma_widened_start_is_not_below(heights, config, needed, lowest, start, end);
        let widened: int = widened_start(heights, config, needed, lowest, start, end);
        lemma_offsets_monotone(heights, config, widened, start);
    }
}

/// The items before the first one that ends below a row end at it or above.
proof fn lemma_first_item_reaches_up(
    heights: Seq<Option<u16>>,
    config: VirtualScrollConfig,
    row: int,
    from: int,
)
    requires
        0 <= from <= heights.len(),
        from == 0 || offset_at(heights, config, from) <= row,
    ensures
        ({
            let first: int = first_ending_after(heights, config, row, from);
            first == 0 || offset_at(heights, config, first) <= row
        }),
    decreases heights.len() - from,
{
    if from < heights.len() && offset_at(heights, config, from + 1) <= row {
        lemma_first_item_reaches_up(heights, config, row, from + 1);
    }
}

proof fn lemma_covering_end_reaches(
    heights: Seq<Option<u16>>,
    config: VirtualScrollConfig,
    needed: int,
    last_row: int,
    limit: int,
    start: int,
    from: int,
)
    requires
        from <= limit,
    ensures
        ({
            let end: int = covering_end(heights, config, needed, last_row, limit, start, from);
            end == limit || offset_at(heights, config, end) >= last_row
        }),
    decreases limit - from,
{
    if from < limit {
        lemma_covering_end_reaches(heights, config, needed, last_row, limit, start, from + 1);
    }
}

proof fn lemma_widened_start_is_not_below(
    heights: Seq<Option<u16>>,
    config: VirtualScrollConfig,
    needed: int,
    lowest: int,
    start: int,
    end: int,
)
    requires
        lowest <= start,
    ensures
        lowest <= widened_start(heights, config, needed, lowest, start, end),
    decreases start - lowest,
{
    if start > lowest {
        lemma_widened_start_is_not_below(heights, config, needed, lowest, start - 1, end);
    }
}

/// A fast scroll mounts at most the slide limit of new items before the previous
/// range, and after it either at most that many or a range of at most that
/// length.
pub proof fn lemma_fast_scroll_is_capped(
    heights: Seq<Option<u16>>,
    input: VirtualScrollInput,
    config: VirtualScrollConfig,
)
    requires
        input.is_fast(),
        input.previous_range->0.start <= heights.len(),
    ensures
        ({
            let (start, end): (int, int) = planned_range(heights, input, config);
            let previous: VirtualScrollRange = input.previous_range->0;
            &&& start >= previous.start - config.slide_limit()
            &&& end <= previous.end + config.slide_limit() || end - start <= config.slide_limit()
        }),
{
    lemma_widened_range(heights, input, config);
}

/// The spacers and the mounted items make up the whole list, as long as the
/// total does not run into the end of the `i32` range.
pub proof fn lemma_spacers_complete_the_list(
    plan: VirtualScrollPlan,
    heights: Seq<Option<u16>>,
    input: VirtualScrollInput,
    config: VirtualScrollConfig,
)
    requires
        plan_describes(plan, planned_range(heights, input, config), heights, input, config),
        rows_between(heights, config.default_estimate_rows, 0, heights.len() as int) <= i32::MAX,
    ensures
        plan.top_spacer + rows_between(
            heights,
            config.default_estimate_rows,
            plan.range.start as int,
            plan.range.end as int,
        ) + plan.bottom_spacer == plan.total_height,
{
    lemma_planned_range_within_cap(heights, input, config);
    let n: int = heights.len() as int;
    let fallback: u16 = config.default_estimate_rows;
    let (start, end): (int, int) = planned_range(heights, input, config);
    lemma_rows_split(heights, fallback, 0, start, end);
    lemma_rows_split(heights, fallback, 0, end, n);
    lemma_rows_nonnegative(heights, fallback, 0, start);
    lemma_rows_nonnegative(heights, fallback, start, end);
    lemma_rows_nonnegative(heights, fallback, end, n);
}

/// Every change of stickiness changes the snapshot bin, even where the offset
/// stays inside the same quantum.
pub proof fn lemma_snapshot_bin_shows_stickiness(
    first: int,
    second: int,
    config: VirtualScrollConfig,
)
    requires
        first >= 0,
        second >= 0,
    ensures
        snapshot_bin_of(first, true, config) != snapshot_bin_of(second, false, config),
{
    let quantum: int = crate::math::max_int(config.scroll_quantum_rows as int, 1);
    assert(first / quantum >= 0 && second / quantum >= 0) by (nonlinear_arith)
        requires
            first >= 0,
            second >= 0,
            quantum >= 1,
    ;
}

/// The first item starts at row zero, and each other one where the one before it ends: a
/// measured item is as high as it was measured, any other as high as it is estimated, and at
/// least one row. Rows beyond the `i32` range are not counted.
pub proof fn lemma_items_follow_each_other(
    heights: Seq<Option<u16>>,
    config: VirtualScrollConfig,
    i: int,
)
    requires
        0 <= i < heights.len(),
    ensures
        offset_at(heights, config, 0) == 0,
        ({
            let here: int = offset_at(heights, config, i);
            let next: int = offset_at(heights, config, i + 1);
            let rows: int = match heights[i] {
                Some(rows) => rows as int,
                None => if config.default_estimate_rows == 0 {
                    1
                } else {
                    config.default_estimate_rows as int
                },
            };
            &&& 0 <= here <= i32::MAX
            &&& here + rows <= i32::MAX ==> next == here + rows
            &&& here + rows > i32::MAX ==> next == i32::MAX
        }),
{
    lemma_rows_nonnegative(heights, config.default_estimate_rows, 0, i);
}

/// The rows that a range is certain to cover grow with each item: by the measured height, or
/// by the pessimistic one, which is at least one row.
pub proof fn lemma_coverage_grows(
    heights: Seq<Option<u16>>,
    config: VirtualScrollConfig,
    from: int,
    to: int,
)
    requires
        0 <= from <= to < heights.len(),
    ensures
        sure_rows(heights, config, from, from) == 0,
        ({
            let here: int = sure_rows(heights, config, from, to);
            let next: int = sure_rows(heights, config, from, to + 1);
            let rows: int = match heights[to] {
                Some(rows) => rows as int,
                None => if config.pessimistic_height_rows == 0 {
                    1
                } else {
                    config.pessimistic_height_rows as int
                },
            };
            &&& 0 <= here <= i32::MAX
            &&& here + rows <= i32::MAX ==> next == here + rows
            &&& here + rows > i32::MAX ==> next == i32::MAX
        }),
{
    lemma_rows_nonnegative(heights, config.pessimistic_height_rows, from, to);
}

/// A view at rest has every item mounted of which a row lies in the viewport, or in the
/// overscan above or below it: the range starts with an item that starts at the first of these
/// rows or above, and ends with one that ends at the last of them or below. It falls short of
/// them only at the ends of the list and at the mount cap.
pub proof fn lemma_view_at_rest_is_mounted(
    plan: VirtualScrollPlan,
    heights: Seq<Option<u16>>,
    input: VirtualScrollInput,
    config: VirtualScrollConfig,
    scroll_top: i32,
)
    requires
        plan_describes(plan, planned_range(heights, input, config), heights, input, config),
        !input.is_sticky,
        input.viewport_height > 0,
        input.scroll_top == Some(scroll_top),
        scroll_top >= 0,
        input.pending_delta == 0,
        input.previous_range is None || input.previous_scroll_top is None || -2
            * input.viewport_height <= scroll_top - input.previous_scroll_top->0 <= 2
            * input.viewport_height,
    ensures
        ({
            let top: int = if scroll_top < input.list_origin {
                0
            } else {
                scroll_top - input.list_origin
            };
            let bottom: int = scroll_top - input.list_origin + input.viewport_height;
            let start: int = plan.range.start as int;
            let end: int = plan.range.end as int;
            let cap: int = if config.max_mounted_items == 0 {
                1
            } else {
                config.max_mounted_items as int
            };
            &&& start <= end <= heights.len()
            &&& start > 0 ==> offset_at(heights, config, start) <= top - config.overscan_rows
            &&& end < heights.len() && end - start < cap && bottom + config.overscan_rows
                <= i32::MAX ==> offset_at(heights, config, end) >= bottom + config.overscan_rows
        }),
{
    lemma_planned_range_within_cap(heights, input, config);
    lemma_planned_range_reaches_target(heights, input, config);
    assert(input.viewport_height * crate::math::max_int(config.max_span_viewports as int, 1) >= 0)
        by (nonlinear_arith)
        requires
            input.viewport_height >= 0,
            crate::math::max_int(config.max_span_viewports as int, 1) >= 0,
    ;
}

/// Where rows are pending, what the viewport shows now and on its way is mounted, up to the
/// offset that the pending rows lead to, with the overscan. A way that is longer than the
/// span limit, a number of viewport heights, is mounted up to that limit only, counted from
/// where the view is.
pub proof fn lemma_pending_way_is_mounted(
    plan: VirtualScrollPlan,
    heights: Seq<Option<u16>>,
    input: VirtualScrollInput,
    config: VirtualScrollConfig,
    scroll_top: i32,
)
    requires
        plan_describes(plan, planned_range(heights, input, config), heights, input, config),
        !input.is_sticky,
        input.viewport_height > 0,
        input.scroll_top == Some(scroll_top),
        scroll_top >= 0,
        input.previous_range is None || input.previous_scroll_top is None,
        0 <= input.list_origin,
        scroll_top + 2 * input.viewport_height + config.overscan_rows + input.pending_delta
            <= i32::MAX,
        scroll_top + 2 * input.viewport_height + config.overscan_rows <= i32::MAX,
    ensures
        ({
            let limit: int = input.viewport_height * (if config.max_span_viewports == 0 {
                1int
            } else {
                config.max_span_viewports as int
            });
            let target: int = if scroll_top + input.pending_delta < 0 {
                0
            } else {
                scroll_top + input.pending_delta
            };
            let low: int = if target >= scroll_top {
                scroll_top as int
            } else if scroll_top - target <= limit {
                target
            } else {
                scroll_top - limit
            };
            let high: int = if target <= scroll_top {
                scroll_top as int
            } else if target - scroll_top <= limit {
                target
            } else {
                scroll_top + limit
            };
            let start: int = plan.range.start as int;
            let end: int = plan.range.end as int;
            let cap: int = if config.max_mounted_items == 0 {
                1
            } else {
                config.max_mounted_items as int
            };
            let top: int = if low < input.list_origin {
                0
            } else {
                low - input.list_origin
            };
            &&& plan.target_scroll_top == target
            &&& start > 0 ==> offset_at(heights, config, start) <= top - config.overscan_rows
            &&& end < heights.len() && end - start < cap ==> offset_at(heights, config, end)
                >= high - input.list_origin + input.viewport_height + config.overscan_rows
        }),
{
    lemma_planned_range_within_cap(heights, input, config);
    lemma_planned_range_reaches_target(heights, input, config);
    assert(input.viewport_height * crate::math::max_int(config.max_span_viewports as int, 1) >= 0)
        by (nonlinear_arith)
        requires
            input.viewport_height >= 0,
            crate::math::max_int(config.max_span_viewports as int, 1) >= 0,
    ;
}

proof fn lemma_first_ending_after_is_first(
    heights: Seq<Option<u16>>,
    config: VirtualScrollConfig,
    row: int,
    from: int,
)
    requires
        0 <= from <= heights.len(),
    ensures
        ({
            let first: int = first_ending_after(heights, config, row, from);
            first < heights.len() ==> offset_at(heights, config, first + 1) > row
        }),
    decreases heights.len() - from,
{
    if from < heights.len() && offset_at(heights, config, from + 1) <= row {
        lemma_first_ending_after_is_first(heights, config, row, from + 1);
    }
}

proof fn lemma_widened_start_is_needed(
    heights: Seq<Option<u16>>,
    config: VirtualScrollConfig,
    needed: int,
    lowest: int,
    start: int,
    end: int,
)
    ensures
        ({
            let widened: int = widened_start(heights, config, needed, lowest, start, end);
            widened < start ==> sure_rows(heights, config, widened + 1, end) < needed
        }),
    decreases start - lowest,
{
    if start > lowest && sure_rows(heights, config, start, end) < needed {
        lemma_widened_start_is_needed(heights, config, needed, lowest, start - 1, end);
    }
}

/// A view at rest has no more items mounted above the viewport than it needs: without the
/// first of them a row of the overscan would be missing, or the rows that the others are
/// certain to cover would not be enough for the viewport and the overscan on both sides.
pub proof fn lemma_no_needless_item_is_mounted_above(
    plan: VirtualScrollPlan,
    heights: Seq<Option<u16>>,
    input: VirtualScrollInput,
    config: VirtualScrollConfig,
    scroll_top: i32,
)
    requires
        plan_describes(plan, planned_range(heights, input, config), heights, input, config),
        !input.is_sticky,
        input.viewport_height > 0,
        input.scroll_top == Some(scroll_top),
        scroll_top >= 0,
        input.pending_delta == 0,
        input.previous_range is None || input.previous_scroll_top is None,
        plan.range.start < heights.len(),
        i32::MIN < scroll_top - input.list_origin < i32::MAX,
        plan.range.end - plan.range.start < config.max_mounted_items,
    ensures
        ({
            let top: int = scroll_top - input.list_origin;
            let first: int = (if top < 0 {
                0int
            } else {
                top
            }) - config.overscan_rows;
            let start: int = plan.range.start as int;
            let end: int = plan.range.end as int;
            ||| offset_at(heights, config, start + 1) > first
            ||| sure_rows(heights, config, start + 1, end) < input.viewport_height + 2
                * config.overscan_rows
        }),
{
    lemma_planned_range_within_cap(heights, input, config);
    lemma_widened_range(heights, input, config);
    assert(input.viewport_height * crate::math::max_int(config.max_span_viewports as int, 1) >= 0)
        by (nonlinear_arith)
        requires
            input.viewport_height >= 0,
            crate::math::max_int(config.max_span_viewports as int, 1) >= 0,
    ;
    let (start, end): (int, int) = seed_range(heights, input, config);
    lemma_first_ending_after_bounds(heights, config, input.first_row(config), 0);
    lemma_first_ending_after_is_first(heights, config, input.first_row(config), 0);
    let widened = widened_range(heights, input, config);
    assert(planned_range(heights, input, config) == widened);
    assert(start == first_ending_after(heights, config, input.first_row(config), 0));
    lemma_widened_start_covers(
        heights,
        config,
        input.needed_rows(config),
        crate::math::max_int(end - config.mount_limit(), 0),
        start,
        end,
    );
    lemma_widened_start_is_needed(
        heights,
        config,
        input.needed_rows(config),
        crate::math::max_int(end - config.mount_limit(), 0),
        start,
        end,
    );
}

proof fn lemma_tail_start_is_needed(
    heights: Seq<Option<u16>>,
    config: VirtualScrollConfig,
    budget: int,
    from: int,
)
    requires
        0 <= from <= heights.len(),
        from < heights.len() ==> offset_at(heights, config, heights.len() as int) - offset_at(
            heights,
            config,
            from,
        ) < budget,
    ensures
        ({
            let start: int = tail_start(heights, config, budget, from);
            start < heights.len() ==> offset_at(heights, config, heights.len() as int) - offset_at(
                heights,
                config,
                start,
            ) < budget
        }),
    decreases from,
{
    if from > 0 && offset_at(heights, config, heights.len() as int) - offset_at(
        heights,
        config,
        from - 1,
    ) < budget {
        lemma_tail_start_is_needed(heights, config, budget, from - 1);
    }
}

/// A list that sticks to its tail has its last items mounted: as many as are certain to
/// cover the viewport and the overscan on both sides, and not one more than these rows or the
/// viewport with one overscan ask for. Fewer are mounted only where there are no more, or at
/// the mount cap.
pub proof fn lemma_tail_is_mounted(
    plan: VirtualScrollPlan,
    heights: Seq<Option<u16>>,
    input: VirtualScrollInput,
    config: VirtualScrollConfig,
)
    requires
        plan_describes(plan, planned_range(heights, input, config), heights, input, config),
        input.is_sticky,
        input.viewport_height > 0,
        input.scroll_top is Some,
        input.previous_range is None || input.previous_scroll_top is None,
    ensures
        ({
            let n: int = heights.len() as int;
            let start: int = plan.range.start as int;
            let end: int = plan.range.end as int;
            let cap: int = if config.max_mounted_items == 0 {
                1
            } else {
                config.max_mounted_items as int
            };
            let rows: int = input.viewport_height + config.overscan_rows;
            &&& end - start <= cap
            &&& end - start < cap ==> end == n
            &&& 0 < start && end - start < cap ==> sure_rows(heights, config, start, n) >= rows
                + config.overscan_rows
            &&& start < n && end - start < cap ==> {
                ||| offset_at(heights, config, n) - offset_at(heights, config, start) < rows
                ||| sure_rows(heights, config, start + 1, n) < rows + config.overscan_rows
            }
            &&& plan.clamp_min is None && plan.clamp_max is None
        }),
{
    let n: int = heights.len() as int;
    lemma_planned_range_within_cap(heights, input, config);
    lemma_planned_range_covers(heights, input, config);
    lemma_widened_range(heights, input, config);
    let budget: int = input.viewport_height + config.overscan_rows;
    lemma_tail_start_bounds(heights, config, budget, n);
    lemma_tail_start_is_needed(heights, config, budget, n);
    let (start, end): (int, int) = seed_range(heights, input, config);
    let widened = widened_range(heights, input, config);
    assert(widened.1 - widened.0 <= config.mount_limit() ==> planned_range(heights, input, config)
        == widened);
    assert(n > 0 ==> start == tail_start(heights, config, budget, n));
    lemma_widened_start_covers(
        heights,
        config,
        input.needed_rows(config),
        crate::math::max_int(end - config.mount_limit(), 0),
        start,
        end,
    );
    lemma_widened_start_is_needed(
        heights,
        config,
        input.needed_rows(config),
        crate::math::max_int(end - config.mount_limit(), 0),
        start,
        end,
    );
}

/// Before the viewport is known the last items are mounted: the number for a cold start, or
/// more where these are not certain to cover the overscan, up to the mount cap.
pub proof fn lemma_cold_start_mounts_the_tail(
    plan: VirtualScrollPlan,
    heights: Seq<Option<u16>>,
    input: VirtualScrollInput,
    config: VirtualScrollConfig,
)
    requires
        plan_describes(plan, planned_range(heights, input, config), heights, input, config),
        input.viewport_height == 0 || input.scroll_top is None,
        input.previous_range is None || input.previous_scroll_top is None,
    ensures
        ({
            let n: int = heights.len() as int;
            let start: int = plan.range.start as int;
            let end: int = plan.range.end as int;
            let cap: int = if config.max_mounted_items == 0 {
                1
            } else {
                config.max_mounted_items as int
            };
            &&& end - start <= cap
            &&& end - start < cap ==> end == n && (start == 0 || end - start
                >= config.cold_start_count)
            &&& start > 0 && end - start < cap ==> sure_rows(heights, config, start, n)
                >= input.viewport_height + 2 * config.overscan_rows
            &&& config.cold_start_count < n - start && end - start < cap ==> sure_rows(
                heights,
                config,
                start + 1,
                n,
            ) < input.viewport_height + 2 * config.overscan_rows
        }),
{
    lemma_planned_range_within_cap(heights, input, config);
    lemma_planned_range_covers(heights, input, config);
    lemma_widened_range(heights, input, config);
    let (start, end): (int, int) = seed_range(heights, input, config);
    lemma_widened_start_covers(
        heights,
        config,
        input.needed_rows(config),
        crate::math::max_int(end - config.mount_limit(), 0),
        start,
        end,
    );
    lemma_widened_start_is_needed(
        heights,
        config,
        input.needed_rows(config),
        crate::math::max_int(end - config.mount_limit(), 0),
        start,
        end,
    );
}

/// A view that moves by more than two viewport heights mounts what it would mount otherwise,
/// but on either side of what was mounted before no more than the slide step; where nothing of
/// both is left, as many items as the slide step allows.
pub proof fn lemma_fast_scroll_extends_what_was_mounted(
    plan: VirtualScrollPlan,
    slow: VirtualScrollPlan,
    heights: Seq<Option<u16>>,
    input: VirtualScrollInput,
    config: VirtualScrollConfig,
    previous: (VirtualScrollRange, i32),
    scroll_top: i32,
)
    requires
        plan_describes(plan, planned_range(heights, input, config), heights, input, config),
        input.previous_range == Some(previous.0),
        input.previous_scroll_top == Some(previous.1),
        previous.0.start <= previous.0.end <= heights.len(),
        input.scroll_top == Some(scroll_top),
        input.viewport_height > 0,
        scroll_top >= 0,
        previous.1 >= 0,
        -i32::MAX <= input.pending_delta,
        plan_describes(
            slow,
            planned_range(
                heights,
                VirtualScrollInput { previous_range: None, ..input },
                config,
            ),
            heights,
            VirtualScrollInput { previous_range: None, ..input },
            config,
        ),
        slow.range.end - slow.range.start < config.max_mounted_items,
        config.slide_step_items <= config.max_mounted_items,
    ensures
        ({
            let moved: int = if scroll_top >= previous.1 {
                scroll_top - previous.1
            } else {
                previous.1 - scroll_top
            };
            let pending: int = if input.pending_delta >= 0 {
                input.pending_delta as int
            } else {
                -input.pending_delta
            };
            let step: int = if config.slide_step_items == 0 {
                1
            } else {
                config.slide_step_items as int
            };
            let fast = moved + pending > 2 * input.viewport_height;
            let start: int = if slow.range.start >= previous.0.start - step {
                slow.range.start as int
            } else {
                previous.0.start - step
            };
            let end: int = if slow.range.end <= previous.0.end + step {
                slow.range.end as int
            } else {
                previous.0.end + step
            };
            &&& !fast ==> plan.range == slow.range
            &&& fast && start <= end ==> plan.range.start == start && plan.range.end == end
            &&& fast && start > end ==> plan.range.start == start && plan.range.end
                - plan.range.start <= step && (plan.range.end - plan.range.start == step
                || plan.range.end == heights.len())
        }),
{
    let without = VirtualScrollInput { previous_range: None, ..input };
    lemma_planned_range_within_cap(heights, input, config);
    lemma_planned_range_within_cap(heights, without, config);
    lemma_widened_range(heights, input, config);
    lemma_widened_range(heights, without, config);
    assert(widened_range(heights, input, config) == widened_range(heights, without, config)) by {
        assert(input.first_row(config) == without.first_row(config));
        assert(input.last_row(config) == without.last_row(config));
    }
}

/// While the scroll offset keeps to the clamp bounds of a list that does not stick to its
/// tail, the viewport stays inside of what is mounted: it starts at the first mounted row or
/// below, unless the first item is mounted, and ends at the last or above, unless the last
/// item is, or nothing that is mounted reaches that far. The bounds allow every such offset.
pub proof fn lemma_clamp_bounds_keep_to_what_is_mounted(
    plan: VirtualScrollPlan,
    heights: Seq<Option<u16>>,
    input: VirtualScrollInput,
    config: VirtualScrollConfig,
    range: (int, int),
    offset: i32,
)
    requires
        0 <= range.0 <= range.1 <= heights.len(),
        plan_describes(plan, range, heights, input, config),
        !input.is_sticky,
        offset >= 0,
        offset_at(heights, config, heights.len() as int) + input.list_origin <= i32::MAX,
    ensures
        ({
            let top: int = offset - input.list_origin;
            let first: int = offset_at(heights, config, range.0);
            let last: int = offset_at(heights, config, range.1);
            let allowed = (plan.clamp_min is None || plan.clamp_min->0 <= offset) && (
            plan.clamp_max is None || offset <= plan.clamp_max->0);
            &&& allowed == ((range.0 == 0 || first <= top) && (range.1 == heights.len() || top
                + input.viewport_height <= last || top <= first))
            &&& plan.clamp_min is Some
            &&& plan.clamp_max is None == (range.1 == heights.len())
            &&& range.0 == 0 ==> plan.clamp_min == Some(0i32)
        }),
{
    lemma_offsets_monotone(heights, config, 0, range.0);
    lemma_offsets_monotone(heights, config, range.0, range.1);
    lemma_offsets_monotone(heights, config, range.1, heights.len() as int);
}

/// The spacer above stands for the items before the mounted ones, the spacer below for those
/// behind them.
pub proof fn lemma_spacers_stand_for_items(
    plan: VirtualScrollPlan,
    heights: Seq<Option<u16>>,
    input: VirtualScrollInput,
    config: VirtualScrollConfig,
    range: (int, int),
)
    requires
        0 <= range.0 <= range.1 <= heights.len(),
        plan_describes(plan, range, heights, input, config),
    ensures
        plan.range.start == range.0,
        plan.range.end == range.1,
        plan.top_spacer == offset_at(heights, config, range.0),
        plan.total_height - plan.bottom_spacer == offset_at(heights, config, range.1),
        plan.total_height == offset_at(heights, config, heights.len() as int),
        range.0 == 0 ==> plan.top_spacer == 0,
        range.1 == heights.len() ==> plan.bottom_spacer == 0,
        plan.bottom_spacer >= 0,
{
    lemma_offsets_monotone(heights, config, range.1, heights.len() as int);
}

/// The snapshot bin of a list that does not stick to its tail counts whole quanta of rows up
/// to the offset that the pending rows lead to; a list that does has the same bin, inverted.
pub proof fn lemma_snapshot_bin_counts_quanta(target: i32, config: VirtualScrollConfig)
    requires
        target >= 0,
    ensures
        ({
            let quantum: int = if config.scroll_quantum_rows == 0 {
                1
            } else {
                config.scroll_quantum_rows as int
            };
            let bin: int = snapshot_bin_of(target as int, false, config);
            &&& bin * quantum <= target < (bin + 1) * quantum
            &&& snapshot_bin_of(target as int, true, config) + bin == -1
        }),
{
    let quantum: int = crate::math::max_int(config.scroll_quantum_rows as int, 1);
    let bin: int = target as int / quantum;
    assert(bin * quantum <= target < (bin + 1) * quantum) by (nonlinear_arith)
        requires
            quantum >= 1,
            target >= 0,
            bin == target as int / quantum,
    ;
}

proof fn lemma_covering_end_is_needed(
    heights: Seq<Option<u16>>,
    config: VirtualScrollConfig,
    needed: int,
    last_row: int,
    limit: int,
    start: int,
    from: int,
)
    ensures
        ({
            let end: int = covering_end(heights, config, needed, last_row, limit, start, from);
            end > from ==> sure_rows(heights, config, start, end - 1) < needed || offset_at(
                heights,
                config,
                end - 1,
            ) < last_row
        }),
    decreases limit - from,
{
    if from < limit && (sure_rows(heights, config, start, from) < needed || offset_at(
        heights,
        config,
        from,
    ) < last_row) {
        lemma_covering_end_is_needed(heights, config, needed, last_row, limit, start, from + 1);
    }
}

/// A view at rest has no more items mounted below the viewport than it needs: without the last
/// of them a row of the viewport or of the overscan below it would be missing, or the items
/// from the first row of the overscan on, `shown` being the first of them, would not be
/// certain to cover the viewport and the overscan on both sides.
pub proof fn lemma_no_needless_item_is_mounted_below(
    plan: VirtualScrollPlan,
    heights: Seq<Option<u16>>,
    input: VirtualScrollInput,
    config: VirtualScrollConfig,
    scroll_top: i32,
    shown: int,
)
    requires
        plan_describes(plan, planned_range(heights, input, config), heights, input, config),
        !input.is_sticky,
        input.viewport_height > 0,
        input.scroll_top == Some(scroll_top),
        scroll_top >= 0,
        input.pending_delta == 0,
        input.previous_range is None || input.previous_scroll_top is None,
        i32::MIN < scroll_top - input.list_origin < i32::MAX,
        0 <= shown < plan.range.end,
        ({
            let first: int = (if scroll_top < input.list_origin {
                0int
            } else {
                scroll_top - input.list_origin
            }) - config.overscan_rows;
            &&& shown == 0 || offset_at(heights, config, shown) <= first
            &&& offset_at(heights, config, shown + 1) > first
        }),
    ensures
        ({
            let end: int = plan.range.end as int;
            let below: int = scroll_top - input.list_origin + input.viewport_height
                + config.overscan_rows;
            ||| offset_at(heights, config, end - 1) < below
            ||| sure_rows(heights, config, shown, end - 1) < input.viewport_height + 2
                * config.overscan_rows
        }),
{
    lemma_planned_range_within_cap(heights, input, config);
    lemma_widened_range(heights, input, config);
    assert(input.viewport_height * crate::math::max_int(config.max_span_viewports as int, 1) >= 0)
        by (nonlinear_arith)
        requires
            input.viewport_height >= 0,
            crate::math::max_int(config.max_span_viewports as int, 1) >= 0,
    ;
    let n: int = heights.len() as int;
    let row: int = input.first_row(config);
    assert forall|j: int| 1 <= j <= shown implies #[trigger] offset_at(heights, config, j)
        <= row by {
        lemma_offsets_monotone(heights, config, j, shown);
    }
    lemma_first_ending_after_found(heights, config, row, 0, shown);
    let (start, end): (int, int) = seed_range(heights, input, config);
    let limit: int = crate::math::min_int(n, shown + config.mount_limit());
    assert(start == shown);
    lemma_covering_end_bounds(
        heights,
        config,
        input.needed_rows(config),
        input.last_row(config),
        limit,
        shown,
        shown,
    );
    lemma_covering_end_is_needed(
        heights,
        config,
        input.needed_rows(config),
        input.last_row(config),
        limit,
        shown,
        shown,
    );
    lemma_widened_start_is_not_below(
        heights,
        config,
        input.needed_rows(config),
        crate::math::max_int(end - config.mount_limit(), 0),
        start,
        end,
    );
    assert(planned_range(heights, input, config) == widened_range(heights, input, config));
}

/// Where more items would be mounted than the cap allows, those at the end that is nearer to the
/// viewport are: before the viewport is known, the first of the items for a cold start where the
/// offset lies in the upper half of their rows, and the last of them otherwise.
pub proof fn lemma_mount_cap_keeps_what_is_near(
    plan: VirtualScrollPlan,
    heights: Seq<Option<u16>>,
    input: VirtualScrollInput,
    config: VirtualScrollConfig,
)
    requires
        plan_describes(plan, planned_range(heights, input, config), heights, input, config),
        input.viewport_height == 0,
        input.scroll_top is Some,
        0 <= input.scroll_top->0 - input.list_origin <= i32::MAX,
        input.scroll_top->0 >= 0,
        0 < config.max_mounted_items < config.cold_start_count <= heights.len(),
        2 * offset_at(heights, config, heights.len() as int) <= i32::MAX,
    ensures
        ({
            let n: int = heights.len() as int;
            let first: int = n - config.cold_start_count;
            let at: int = input.scroll_top->0 - input.list_origin;
            let twice: int = offset_at(heights, config, first) + offset_at(heights, config, n);
            &&& plan.range.end - plan.range.start == config.max_mounted_items
            &&& 2 * at + 2 <= twice ==> plan.range.start == first
            &&& 2 * at >= twice ==> plan.range.end == n
        }),
{
    let n: int = heights.len() as int;
    lemma_planned_range_within_cap(heights, input, config);
    lemma_offsets_monotone(heights, config, 0, n - config.cold_start_count);
    lemma_offsets_monotone(heights, config, n - config.cold_start_count, n);
    let lowest: int = crate::math::max_int(n - config.mount_limit(), 0);
    assert(widened_start(
        heights,
        config,
        input.needed_rows(config),
        lowest,
        n - config.cold_start_count,
        n,
    ) == n - config.cold_start_count);
}

/// A range that is already chosen is mounted as it is, as far as there are items: one that starts
/// behind the last item mounts nothing, and neither does one that ends before it starts.
pub proof fn lemma_fixed_range_is_cut(range: (int, int), n: int)
    requires
        0 <= range.0,
        0 <= n,
    ensures
        ({
            let (start, end): (int, int) = within_items(range, n);
            &&& 0 <= start <= end <= n
            &&& range.0 <= range.1 <= n ==> start == range.0 && end == range.1
            &&& range.0 <= n < range.1 ==> start == range.0 && end == n
            &&& range.0 > n ==> start == n && end == n
            &&& range.1 < range.0 ==> start == end
        }),
{
}

} // verus!
