//! Height cache and planning history of a virtualized list.

use crate::math::{max_i32, max_u16};
use crate::virtual_scroll::{
    plan_virtual_scroll_fixed_range, plan_virtual_scroll_range, VirtualScrollConfig,
    VirtualScrollInput, VirtualScrollPlan, VirtualScrollRange,
};
use std::collections::HashMap;
use std::hash::Hash;
use vstd::prelude::*;

verus! {

broadcast use vstd::std_specs::hash::group_hash_axioms;

/// What a [`VirtualScrollState`] holds.
#[verifier::reject_recursive_types(K)]
pub struct VirtualScrollModel<K> {
    /// Measured heights by item key.
    pub heights: Map<K, u16>,
    /// The terminal width that the heights were measured at.
    pub columns: Option<u16>,
    /// The range of the last pass that was not frozen.
    pub previous_range: Option<VirtualScrollRange>,
    /// The committed offset of the last pass that had one.
    pub previous_scroll_top: Option<i32>,
    /// The range that a resize has frozen.
    pub frozen_range: Option<VirtualScrollRange>,
    /// The planning passes for which the frozen range still holds.
    pub freeze_remaining: int,
    /// Whether the next measurement pass should be skipped.
    pub skip_measurement: bool,
}

impl<K> VirtualScrollModel<K> {
    /// Finitely many heights are cached, the width is at least one column, and a range is
    /// frozen for as many passes as are left, two at most.
    pub open spec fn wf(self) -> bool {
        &&& self.heights.dom().finite()
        &&& self.columns is Some ==> self.columns->0 >= 1
        &&& 0 <= self.freeze_remaining <= 2
        &&& (self.freeze_remaining > 0) == (self.frozen_range is Some)
    }

    /// The cached height of a key.
    pub open spec fn height_of(self, key: K) -> Option<u16> {
        if self.heights.contains_key(key) {
            Some(self.heights[key])
        } else {
            None
        }
    }

    /// With a height cached for a key.
    pub open spec fn with_height(self, key: K, height: u16) -> VirtualScrollModel<K> {
        VirtualScrollModel { heights: self.heights.insert(key, height), ..self }
    }
}

/// Whether keys of type `K` behave as map keys: equal keys are the same key, hash
/// alike, and clone to themselves.
pub open spec fn lawful_key<K: Clone>() -> bool {
    &&& vstd::std_specs::hash::obeys_key_model::<K>()
    &&& forall|a: K, b: K| #[trigger] cloned::<K>(a, b) ==> a == b
}

/// The cached height of each key.
pub open spec fn cached_heights<K>(heights: Map<K, u16>, keys: Seq<K>) -> Seq<Option<u16>> {
    Seq::new(
        keys.len(),
        |i: int|
            if heights.contains_key(keys[i]) {
                Some(heights[keys[i]])
            } else {
                None
            },
    )
}

/// A cached height after the terminal width changed: scaled by the ratio of the
/// widths, rounded to the nearest row, and at least one row.
pub open spec fn scaled_height(height: int, from_columns: int, to_columns: int) -> int {
    crate::math::clamp_int(
        (height * from_columns + to_columns / 2) / to_columns,
        1,
        u16::MAX as int,
    )
}

/// The input that a pass plans with: what it leaves out of the previous pass is
/// filled in from the history.
pub open spec fn with_history<K>(
    model: VirtualScrollModel<K>,
    input: VirtualScrollInput,
) -> VirtualScrollInput {
    VirtualScrollInput {
        previous_range: if input.previous_range is None {
            model.previous_range
        } else {
            input.previous_range
        },
        previous_scroll_top: if input.previous_scroll_top is None {
            model.previous_scroll_top
        } else {
            input.previous_scroll_top
        },
        ..input
    }
}

/// The range that a pass mounts: the frozen one while a freeze lasts, otherwise
/// the planned one.
pub open spec fn state_range<K>(
    model: VirtualScrollModel<K>,
    heights: Seq<Option<u16>>,
    input: VirtualScrollInput,
    config: VirtualScrollConfig,
) -> (int, int) {
    if model.freeze_remaining > 0 {
        let frozen: VirtualScrollRange = match model.frozen_range {
            Some(range) => range,
            None => VirtualScrollRange { start: 0, end: 0 },
        };
        crate::virtual_scroll::within_items(
            (frozen.start as int, frozen.end as int),
            heights.len() as int,
        )
    } else {
        crate::virtual_scroll::planned_range(heights, with_history(model, input), config)
    }
}

/// The history after a pass that mounted `range`.
pub open spec fn after_plan<K>(
    model: VirtualScrollModel<K>,
    input: VirtualScrollInput,
    range: VirtualScrollRange,
) -> VirtualScrollModel<K> {
    let frozen: bool = model.freeze_remaining > 0;
    VirtualScrollModel {
        previous_range: if frozen {
            model.previous_range
        } else {
            Some(range)
        },
        previous_scroll_top: match input.scroll_top {
            Some(top) => Some(crate::math::max_int(top as int, 0) as i32),
            None => model.previous_scroll_top,
        },
        frozen_range: if model.freeze_remaining == 1 {
            None
        } else {
            model.frozen_range
        },
        freeze_remaining: if frozen {
            model.freeze_remaining - 1
        } else {
            0
        },
        ..model
    }
}

/// The state after a change of the terminal width to `columns`.
pub open spec fn after_resize<K>(model: VirtualScrollModel<K>, columns: u16) -> VirtualScrollModel<K>
{
    let width: u16 = if columns == 0 {
        1
    } else {
        columns
    };
    match model.columns {
        None => VirtualScrollModel { columns: Some(width), ..model },
        Some(previous) => if previous == width {
            model
        } else {
            VirtualScrollModel {
                heights: Map::new(
                    |key: K| model.heights.contains_key(key),
                    |key: K|
                        scaled_height(
                            model.heights[key] as int,
                            crate::math::max_int(previous as int, 1),
                            width as int,
                        ) as u16,
                ),
                columns: Some(width),
                frozen_range: model.previous_range,
                freeze_remaining: if model.previous_range is Some {
                    2
                } else {
                    0
                },
                skip_measurement: true,
                ..model
            }
        },
    }
}

/// Stateful owner of measured heights for virtual-scroll planning.
///
/// Measured row heights are cached by a stable item key, stale keys are collected
/// explicitly, a change of the terminal width scales the cached heights instead of
/// dropping them, and the previous range is frozen briefly to avoid mount churn
/// while a resize settles.
#[derive(Clone, Debug)]
#[verifier::reject_recursive_types(K)]
pub struct VirtualScrollState<K> {
    heights: HashMap<K, u16>,
    columns: Option<u16>,
    previous_range: Option<VirtualScrollRange>,
    previous_scroll_top: Option<i32>,
    frozen_range: Option<VirtualScrollRange>,
    freeze_remaining: u8,
    skip_next_measurement: bool,
}

impl<K> View for VirtualScrollState<K> {
    type V = VirtualScrollModel<K>;

    closed spec fn view(&self) -> VirtualScrollModel<K> {
        VirtualScrollModel {
            heights: self.heights@,
            columns: self.columns,
            previous_range: self.previous_range,
            previous_scroll_top: self.previous_scroll_top,
            frozen_range: self.frozen_range,
            freeze_remaining: self.freeze_remaining as int,
            skip_measurement: self.skip_next_measurement,
        }
    }
}

/// The model of a fresh state.
pub open spec fn empty_model<K>() -> VirtualScrollModel<K> {
    VirtualScrollModel {
        heights: Map::empty(),
        columns: None,
        previous_range: None,
        previous_scroll_top: None,
        frozen_range: None,
        freeze_remaining: 0,
        skip_measurement: false,
    }
}

impl<K> Default for VirtualScrollState<K> {
    fn default() -> (r: Self)
        ensures
            r@ == empty_model::<K>(),
            r@.wf(),
    {
        VirtualScrollState {
            heights: HashMap::new(),
            columns: None,
            previous_range: None,
            previous_scroll_top: None,
            frozen_range: None,
            freeze_remaining: 0,
            skip_next_measurement: false,
        }
    }
}

impl<K> VirtualScrollState<K> where K: Eq + Hash + Clone {
    /// Creates an empty state.
    pub fn new() -> (r: Self)
        ensures
            r@ == empty_model::<K>(),
            r@.wf(),
    {
        Self::default()
    }

    /// Returns the number of measured item heights currently cached.
    pub fn len(&self) -> (r: usize)
        ensures
            lawful_key::<K>() ==> r == self@.heights.len(),
    {
        self.heights.len()
    }

    /// Returns true if no measured heights are cached.
    pub fn is_empty(&self) -> (r: bool)
        ensures
            lawful_key::<K>() ==> r == self@.heights.is_empty(),
    {
        self.heights.is_empty()
    }

    /// Returns the cached measured height for `key`.
    pub fn height(&self, key: &K) -> (r: Option<u16>)
        ensures
            lawful_key::<K>() ==> r == self@.height_of(*key),
    {
        match self.heights.get(key) {
            Some(height) => Some(*height),
            None => None,
        }
    }

    /// Inserts or updates a measured height. Returns true when the cache changed.
    pub fn set_height(&mut self, key: K, height: u16) -> (changed: bool)
        ensures
            lawful_key::<K>() ==> final(self)@ == old(self)@.with_height(key, height),
            lawful_key::<K>() ==> changed == (old(self)@.height_of(key) != Some(height)),
            lawful_key::<K>() ==> final(self)@.heights.len() == old(self)@.heights.len()
                + if old(self)@.height_of(key) is None {
                1int
            } else {
                0
            },
            lawful_key::<K>() && old(self)@.wf() ==> final(self)@.wf(),
    {
        if self.height(&key) == Some(height) {
            assert(lawful_key::<K>() ==> self@.heights.insert(key, height) =~= self@.heights);
            return false;
        }
        self.heights.insert(key, height);
        assert(lawful_key::<K>() ==> old(self)@.heights.insert(key, height)[key] == height);
        true
    }

    /// Removes one measured height. Returns true when an entry was present.
    pub fn remove_height(&mut self, key: &K) -> (removed: bool)
        ensures
            lawful_key::<K>() ==> final(self)@ == (VirtualScrollModel {
                heights: old(self)@.heights.remove(*key),
                ..old(self)@
            }),
            lawful_key::<K>() ==> removed == old(self)@.heights.contains_key(*key),
            lawful_key::<K>() && old(self)@.wf() ==> final(self)@.wf(),
    {
        self.heights.remove(key).is_some()
    }

    /// Clears all measured heights.
    pub fn clear_heights(&mut self)
        ensures
            final(self)@ == (VirtualScrollModel { heights: Map::empty(), ..old(self)@ }),
            old(self)@.wf() ==> final(self)@.wf(),
    {
        self.heights.clear();
    }

    /// Retains only measured heights whose keys are still present in `keys`.
    /// Returns true when an entry was dropped.
    pub fn retain_keys(&mut self, keys: &[K]) -> (dropped: bool)
        ensures
            lawful_key::<K>() ==> final(self)@ == (VirtualScrollModel {
                heights: old(self)@.heights.restrict(keys@.to_set()),
                ..old(self)@
            }),
            lawful_key::<K>() ==> dropped == (final(self)@.heights != old(self)@.heights),
            lawful_key::<K>() && old(self)@.wf() ==> final(self)@.wf(),
    {
        let before: usize = self.heights.len();
        let mut live: HashMap<K, u16> = HashMap::new();
        let ghost all = self.heights@;
        let mut i: usize = 0;
        while i < keys.len()
            invariant
                i <= keys@.len(),
                self.heights@ == all,
                lawful_key::<K>() ==> live@ == all.restrict(keys@.take(i as int).to_set()),
            decreases keys@.len() - i,
        {
            let ghost seen = keys@.take(i as int);
            proof {
                assert(keys@.take(i + 1) =~= seen.push(keys@[i as int]));
                assert forall|k: K| #[trigger]
                    keys@.take(i + 1).to_set().contains(k) == (seen.to_set().contains(k) || k
                        == keys@[i as int]) by {
                    if seen.to_set().contains(k) {
                        let j: int = choose|j: int| 0 <= j < seen.len() && seen[j] == k;
                        assert(keys@.take(i + 1)[j] == k);
                    }
                    if k == keys@[i as int] {
                        assert(keys@.take(i + 1)[i as int] == k);
                    }
                }
            }
            if let Some(height) = self.heights.get(&keys[i]) {
                let key = keys[i].clone();
                live.insert(key, *height);
                assert(cloned::<K>(keys@[i as int], key));
                assert(lawful_key::<K>() ==> live@ =~= all.restrict(keys@.take(i + 1).to_set()));
            } else {
                assert(lawful_key::<K>() ==> live@ =~= all.restrict(keys@.take(i + 1).to_set()));
            }
            i = i + 1;
        }
        assert(keys@.take(i as int) =~= keys@);
        let after: usize = live.len();
        self.heights = live;
        proof {
            if lawful_key::<K>() {
                let kept = all.restrict(keys@.to_set());
                assert(kept.dom().subset_of(all.dom()));
                vstd::set_lib::lemma_len_subset(kept.dom(), all.dom());
                if before == after {
                    vstd::set_lib::lemma_subset_equality(kept.dom(), all.dom());
                    assert(kept =~= all);
                }
            }
        }
        before != after
    }

    /// Updates the terminal width and scales the cached heights on a change.
    ///
    /// Widening tends to shrink wrapped rows, narrowing tends to grow them, so the
    /// heights are scaled by `old / new`. On a change the previous range is frozen
    /// for two planning passes, and [`VirtualScrollState::take_skip_measurement`]
    /// returns true once.
    pub fn set_columns(&mut self, columns: u16) -> (changed: bool)
        ensures
            lawful_key::<K>() ==> final(self)@ == after_resize(old(self)@, columns),
            changed == (old(self)@.columns is Some && old(self)@.columns != Some(
                if columns == 0 {
                    1u16
                } else {
                    columns
                },
            )),
            lawful_key::<K>() && old(self)@.wf() ==> final(self)@.wf(),
    {
        let width: u16 = max_u16(columns, 1);
        let previous: u16 = match self.columns {
            Some(previous) => previous,
            None => {
                self.columns = Some(width);
                return false;
            },
        };
        if previous == width {
            return false;
        }
        let from: u16 = max_u16(previous, 1);
        let mut scaled: HashMap<K, u16> = HashMap::new();
        let ghost all = self.heights@;
        let count: usize = self.heights.len();
        let mut entries = self.heights.iter();
        let mut i: usize = 0;
        while i < count
            invariant
                i <= count,
                width >= 1,
                all == self.heights@,
                lawful_key::<K>() ==> {
                    let listed = vstd::std_specs::iter::IteratorSpec::remaining(
                        &vstd::std_specs::hash::spec_hash_map_iter(&self.heights),
                    );
                    &&& listed.len() == count
                    &&& vstd::std_specs::iter::IteratorSpec::remaining(&entries) == listed.skip(
                        i as int,
                    )
                    &&& forall|j: int| 0 <= j < i ==> scaled@.contains_key(*(#[trigger] listed[j]).0)
                },
                lawful_key::<K>() ==> forall|key: K| #[trigger]
                    scaled@.contains_key(key) ==> all.contains_key(key) && scaled@[key]
                        == scaled_height(all[key] as int, from as int, width as int),
            decreases count - i,
        {
            if let Some(entry) = next_entry(&mut entries) {
                let height: u16 = scale_height(*entry.1, from, width);
                let key = entry.0.clone();
                assert(cloned::<K>(*entry.0, key));
                assert(lawful_key::<K>() ==> all.contains_key(key) && all[key] == *entry.1);
                scaled.insert(key, height);
            }
            i = i + 1;
        }
        self.heights = scaled;
        self.columns = Some(width);
        self.frozen_range = self.previous_range;
        self.freeze_remaining = if self.frozen_range.is_some() {
            2
        } else {
            0
        };
        self.skip_next_measurement = true;
        proof {
            if lawful_key::<K>() {
                assert(self@.heights =~= after_resize(old(self)@, columns).heights);
            }
        }
        true
    }

    /// Returns whether the next external measurement pass should be skipped, and
    /// forgets it.
    pub fn take_skip_measurement(&mut self) -> (skip: bool)
        ensures
            skip == old(self)@.skip_measurement,
            final(self)@ == (VirtualScrollModel { skip_measurement: false, ..old(self)@ }),
            old(self)@.wf() ==> final(self)@.wf(),
    {
        let skip = self.skip_next_measurement;
        self.skip_next_measurement = false;
        skip
    }

    /// Returns the previous planned range, if any.
    pub fn previous_range(&self) -> (r: Option<VirtualScrollRange>)
        ensures
            r == self@.previous_range,
    {
        self.previous_range
    }

    /// Returns how many resize-freeze planning passes remain.
    pub fn freeze_remaining(&self) -> (r: u8)
        ensures
            r == self@.freeze_remaining,
    {
        self.freeze_remaining
    }

    /// Clears previous range, previous scroll position, and resize-freeze state.
    pub fn clear_planning_state(&mut self)
        ensures
            final(self)@ == (VirtualScrollModel {
                heights: old(self)@.heights,
                columns: old(self)@.columns,
                ..empty_model()
            }),
            old(self)@.wf() ==> final(self)@.wf(),
    {
        self.previous_range = None;
        self.previous_scroll_top = None;
        self.frozen_range = None;
        self.freeze_remaining = 0;
        self.skip_next_measurement = false;
    }

    /// Plans a range for `keys` using the cached heights.
    ///
    /// The previous range and offset may be supplied in `input`; where they are
    /// not, the ones recorded by earlier calls are used. The returned range is
    /// recorded unless a resize freeze is active, which reuses the range from
    /// before the resize.
    pub fn plan(
        &mut self,
        keys: &[K],
        input: VirtualScrollInput,
        config: VirtualScrollConfig,
    ) -> (plan: VirtualScrollPlan)
        ensures
            final(self)@ == after_plan(old(self)@, input, plan.range),
            old(self)@.wf() ==> final(self)@.wf(),
            old(self)@.freeze_remaining > 0 || lawful_key::<K>() ==> {
                let heights = cached_heights(old(self)@.heights, keys@);
                let range = state_range(old(self)@, heights, input, config);
                &&& plan.range.start == range.0
                &&& plan.range.end == range.1
            },
            lawful_key::<K>() ==> {
                let heights = cached_heights(old(self)@.heights, keys@);
                crate::virtual_scroll::plan_describes(
                    plan,
                    state_range(old(self)@, heights, input, config),
                    heights,
                    with_history(old(self)@, input),
                    config,
                )
            },
    {
        let mut filled = input;
        if filled.previous_range.is_none() {
            filled.previous_range = self.previous_range;
        }
        if filled.previous_scroll_top.is_none() {
            filled.previous_scroll_top = self.previous_scroll_top;
        }
        assert(filled == with_history(self@, input));
        let mut heights: Vec<Option<u16>> = Vec::new();
        let mut i: usize = 0;
        while i < keys.len()
            invariant
                i <= keys@.len(),
                heights@.len() == i,
                lawful_key::<K>() ==> heights@ == cached_heights(self@.heights, keys@).take(i as int),
            decreases keys@.len() - i,
        {
            let height = self.height(&keys[i]);
            heights.push(height);
            i = i + 1;
            assert(lawful_key::<K>() ==> heights@ =~= cached_heights(self@.heights, keys@).take(
                i as int,
            ));
        }
        assert(lawful_key::<K>() ==> heights@ =~= cached_heights(self@.heights, keys@));
        let was_frozen = self.freeze_remaining > 0;
        let plan = if was_frozen {
            let frozen = match self.frozen_range {
                Some(range) => range,
                None => VirtualScrollRange { start: 0, end: 0 },
            };
            plan_virtual_scroll_fixed_range(heights.as_slice(), filled, config, frozen)
        } else {
            plan_virtual_scroll_range(heights.as_slice(), filled, config)
        };
        if was_frozen {
            self.freeze_remaining = self.freeze_remaining - 1;
            if self.freeze_remaining == 0 {
                self.frozen_range = None;
            }
        } else {
            self.previous_range = Some(plan.range);
        }
        if let Some(scroll_top) = input.scroll_top {
            self.previous_scroll_top = Some(max_i32(scroll_top, 0));
        }
        plan
    }
}

/// Takes the next entry of an iteration over a map.
fn next_entry<I: Iterator>(entries: &mut I) -> (entry: Option<I::Item>)
    ensures
        vstd::std_specs::iter::IteratorSpec::obeys_prophetic_iter_laws(old(entries)) ==> {
            let before = vstd::std_specs::iter::IteratorSpec::remaining(old(entries));
            let after = vstd::std_specs::iter::IteratorSpec::remaining(final(entries));
            if before.len() > 0 {
                entry == Some(before[0]) && after == before.drop_first()
            } else {
                entry is None && after == before
            }
        },
{
    entries.next()
}

/// Scales one cached height from one terminal width to another.
fn scale_height(height: u16, from_columns: u16, to_columns: u16) -> (scaled: u16)
    requires
        to_columns >= 1,
    ensures
        scaled == scaled_height(height as int, from_columns as int, to_columns as int),
{
    assert(0 <= height as int * from_columns as int <= 65535 * 65535) by (nonlinear_arith)
        requires
            0 <= height <= 65535,
            0 <= from_columns <= 65535,
    ;
    let product: u64 = height as u64 * from_columns as u64;
    let rounded: u64 = (product + to_columns as u64 / 2) / to_columns as u64;
    if rounded < 1 {
        1
    } else if rounded > u16::MAX as u64 {
        u16::MAX
    } else {
        rounded as u16
    }
}

/// A resize freezes the previous range: both of the next two passes over the same
/// number of items mount it again, whatever their input, and the third plans anew.
pub proof fn lemma_resize_freezes_two_passes<K>(
    model: VirtualScrollModel<K>,
    columns: u16,
    first: VirtualScrollInput,
    second: VirtualScrollInput,
    heights: Seq<Option<u16>>,
    config: VirtualScrollConfig,
    first_range: VirtualScrollRange,
    second_range: VirtualScrollRange,
)
    requires
        model.columns is Some,
        model.columns != Some(columns),
        columns > 0,
        model.previous_range is Some,
    ensures
        ({
            let frozen = crate::virtual_scroll::within_items(
                (model.previous_range->0.start as int, model.previous_range->0.end as int),
                heights.len() as int,
            );
            let resized = after_resize(model, columns);
            let after_first = after_plan(resized, first, first_range);
            let after_second = after_plan(after_first, second, second_range);
            &&& state_range(resized, heights, first, config) == frozen
            &&& state_range(after_first, heights, second, config) == frozen
            &&& after_second.freeze_remaining == 0
            &&& after_second.previous_range == model.previous_range
        }),
{
}

/// Planning never touches the measured heights.
pub proof fn lemma_planning_keeps_heights<K>(
    model: VirtualScrollModel<K>,
    input: VirtualScrollInput,
    range: VirtualScrollRange,
)
    ensures
        after_plan(model, input, range).heights == model.heights,
        after_plan(model, input, range).columns == model.columns,
{
}

/// A height that was set is the one of its key, every other key keeps its own, and the
/// number of heights grows by one exactly for a new key. Setting it again changes nothing.
pub proof fn lemma_set_height_is_kept<K>(
    model: VirtualScrollModel<K>,
    key: K,
    height: u16,
    other: K,
)
    requires
        model.wf(),
    ensures
        model.with_height(key, height).wf(),
        model.with_height(key, height).height_of(key) == Some(height),
        other != key ==> model.with_height(key, height).height_of(other) == model.height_of(other),
        model.with_height(key, height).heights.len() == model.heights.len()
            + if model.height_of(key) is None {
            1int
        } else {
            0
        },
        model.with_height(key, height).with_height(key, height) == model.with_height(key, height),
{
    let changed = model.heights.insert(key, height);
    assert(changed.dom() =~= model.heights.dom().insert(key));
    assert(changed.insert(key, height) =~= changed);
}

/// A height that is scaled is to the height before as the width before is to the new one, to
/// the nearest row; it is at least one row, and no more than can be counted.
pub proof fn lemma_scaled_height_is_proportional(height: u16, from_columns: u16, to_columns: u16)
    requires
        from_columns >= 1,
        to_columns >= 1,
    ensures
        ({
            let scaled = scaled_height(height as int, from_columns as int, to_columns as int);
            let exact: int = height * from_columns;
            &&& 1 <= scaled <= u16::MAX
            &&& scaled > 1 ==> 2 * scaled * to_columns <= 2 * exact + to_columns
            &&& scaled < u16::MAX ==> 2 * exact <= 2 * scaled * to_columns + to_columns
            &&& from_columns == to_columns && height >= 1 ==> scaled == height
        }),
{
    let exact: int = height * from_columns;
    let to: int = to_columns as int;
    let sum: int = exact + to / 2;
    let quotient: int = sum / to;
    assert(exact >= 0) by (nonlinear_arith)
        requires
            exact == height * from_columns,
            height >= 0,
            from_columns >= 0,
    ;
    assert(quotient * to <= sum < quotient * to + to) by (nonlinear_arith)
        requires
            quotient == sum / to,
            to >= 1,
    ;
    let scaled = scaled_height(height as int, from_columns as int, to_columns as int);
    if scaled == quotient {
        assert(2 * scaled * to == 2 * (quotient * to)) by (nonlinear_arith)
            requires
                scaled == quotient,
        ;
    } else if quotient < 1 {
        assert(2 * exact <= 2 * scaled * to + to) by (nonlinear_arith)
            requires
                exact + to / 2 < quotient * to + to,
                quotient < 1,
                scaled == 1,
                to >= 1,
        ;
    } else {
        assert(2 * scaled * to <= 2 * exact + to) by (nonlinear_arith)
            requires
                quotient * to <= exact + to / 2,
                scaled <= quotient,
                to >= 1,
        ;
    }
    if from_columns == to_columns && height >= 1 {
        assert(quotient == height) by (nonlinear_arith)
            requires
                quotient * to <= exact + to / 2 < quotient * to + to,
                exact == height * from_columns,
                from_columns == to_columns,
                to == to_columns as int,
                to >= 1,
        ;
    }
}

/// The first width that is heard of is noted, and the same width again changes nothing. Another
/// one scales every height that is cached, and no other, freezes the range of the last pass for
/// two passes, and has the next measurement skipped. No column counts as one.
pub proof fn lemma_resize_scales_heights<K>(model: VirtualScrollModel<K>, columns: u16, key: K)
    requires
        model.wf(),
    ensures
        ({
            let after = after_resize(model, columns);
            let width: u16 = if columns == 0 {
                1
            } else {
                columns
            };
            let changes = model.columns is Some && model.columns->0 != width;
            &&& after.columns == Some(width)
            &&& !changes ==> after == (VirtualScrollModel { columns: Some(width), ..model })
            &&& changes ==> {
                &&& after.skip_measurement
                &&& after.frozen_range == model.previous_range
                &&& after.freeze_remaining == if model.previous_range is Some {
                    2int
                } else {
                    0
                }
                &&& after.heights.contains_key(key) == model.heights.contains_key(key)
                &&& model.heights.contains_key(key) ==> after.heights[key] == scaled_height(
                    model.heights[key] as int,
                    model.columns->0 as int,
                    width as int,
                )
                &&& after.previous_range == model.previous_range
                &&& after.previous_scroll_top == model.previous_scroll_top
            }
        }),
{
    if let Some(previous) = model.columns {
        lemma_scaled_height_is_proportional(
            model.heights[key],
            previous,
            if columns == 0 {
                1
            } else {
                columns
            },
        );
    }
}

/// A pass plans with what it is told of the pass before it, and otherwise with what that pass
/// left: the range that it mounted, unless it was frozen, and the offset that it had.
pub proof fn lemma_passes_follow_each_other<K>(
    model: VirtualScrollModel<K>,
    first: VirtualScrollInput,
    range: VirtualScrollRange,
    second: VirtualScrollInput,
)
    ensures
        ({
            let planned = with_history(after_plan(model, first, range), second);
            let told = second.previous_range;
            &&& told is Some ==> planned.previous_range == told
            &&& told is None && model.freeze_remaining == 0 ==> planned.previous_range == Some(
                range,
            )
            &&& told is None && model.freeze_remaining > 0 ==> planned.previous_range
                == model.previous_range
            &&& second.previous_scroll_top is Some ==> planned.previous_scroll_top
                == second.previous_scroll_top
            &&& second.previous_scroll_top is None ==> (first.scroll_top matches Some(top) ==> {
                &&& top >= 0 ==> planned.previous_scroll_top == Some(top)
                &&& top < 0 ==> planned.previous_scroll_top == Some(0i32)
            })
            &&& second.previous_scroll_top is None && first.scroll_top is None
                ==> planned.previous_scroll_top == model.previous_scroll_top
            &&& planned == (VirtualScrollInput {
                previous_range: planned.previous_range,
                previous_scroll_top: planned.previous_scroll_top,
                ..second
            })
        }),
{
}

/// A frozen range is counted down by one in each pass and given up with the last one; a pass
/// that is not frozen freezes nothing.
pub proof fn lemma_freeze_is_counted_down<K>(
    model: VirtualScrollModel<K>,
    input: VirtualScrollInput,
    range: VirtualScrollRange,
)
    requires
        model.wf(),
    ensures
        ({
            let after = after_plan(model, input, range);
            &&& model.freeze_remaining > 0 ==> after.freeze_remaining + 1
                == model.freeze_remaining
            &&& model.freeze_remaining == 0 ==> after.freeze_remaining == 0
            &&& after.frozen_range is Some == (after.freeze_remaining > 0)
            &&& after.freeze_remaining > 0 ==> after.frozen_range == model.frozen_range
            &&& after.skip_measurement == model.skip_measurement
            &&& after.wf()
        }),
{
}

/// Each item is planned with the height that is cached for its key, if there is one.
pub proof fn lemma_items_have_cached_heights<K>(heights: Map<K, u16>, keys: Seq<K>, i: int)
    requires
        0 <= i < keys.len(),
    ensures
        cached_heights(heights, keys).len() == keys.len(),
        heights.contains_key(keys[i]) ==> cached_heights(heights, keys)[i] == Some(
            heights[keys[i]],
        ),
        !heights.contains_key(keys[i]) ==> cached_heights(heights, keys)[i] is None,
{
}

} // verus!
