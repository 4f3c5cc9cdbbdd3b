//! Components that keep what they have rendered: subtrees that are drawn from a
//! snapshot, subtrees that are not updated, and output that is written once.

use crate::element::{AnyElement, ElementNode};
use crate::style::{Dimension, LayoutStyle};
use crate::view_props::ViewProps;
use vstd::prelude::*;

verus! {

/// Where a component was drawn: its position and size on the canvas, and the size of the
/// canvas.
#[derive(Clone, Copy, Debug, PartialEq, Eq, Structural)]
pub struct DrawnRegion {
    pub x: i16,
    pub y: i16,
    pub width: u16,
    pub height: u16,
    pub canvas_width: usize,
    pub canvas_height: usize,
}

impl DrawnRegion {
    /// Whether the region can be copied: it is not empty, and lies on the canvas.
    pub open spec fn copyable(self) -> bool {
        &&& self.width > 0
        &&& self.height > 0
        &&& self.x >= 0
        &&& self.y >= 0
        &&& self.x + self.width <= self.canvas_width
        &&& self.y + self.height <= self.canvas_height
    }

    /// Whether the region can be copied.
    pub fn can_be_copied(&self) -> (r: bool)
        ensures
            r == self.copyable(),
    {
        if self.width == 0 || self.height == 0 || self.x < 0 || self.y < 0 {
            return false;
        }
        let right: usize = self.x as usize + self.width as usize;
        let bottom: usize = self.y as usize + self.height as usize;
        right <= self.canvas_width && bottom <= self.canvas_height
    }
}

/// The props of [`CachedSubtree`].
#[derive(Debug)]
pub struct CachedSubtreeProps {
    /// The elements of the subtree.
    pub children: Vec<AnyElement>,
    /// The key under which the subtree looks the same.
    pub cache_key: String,
    /// Whether snapshots are kept; they are by default.
    pub enabled: Option<bool>,
}

/// A snapshot of a subtree: the key it was drawn under, and its size.
#[derive(Debug)]
pub struct CachedSubtreeSnapshot {
    pub key: String,
    pub width: u16,
    pub height: u16,
}

/// A subtree that is drawn from its snapshot.
#[derive(Debug)]
pub struct CachedSubtreeHook {
    key: String,
    enabled: bool,
    snapshot: Option<CachedSubtreeSnapshot>,
}

/// What a [`CachedSubtreeHook`] holds.
pub struct CachedModel {
    pub key: Seq<char>,
    pub enabled: bool,
    /// The key and the size of the snapshot.
    pub snapshot: Option<(Seq<char>, u16, u16)>,
}

impl View for CachedSubtreeHook {
    type V = CachedModel;

    closed spec fn view(&self) -> CachedModel {
        CachedModel {
            key: self.key@,
            enabled: self.enabled,
            snapshot: match self.snapshot {
                Some(snapshot) => Some((snapshot.key@, snapshot.width, snapshot.height)),
                None => None,
            },
        }
    }
}

impl CachedModel {
    /// Whether a subtree of the given size is drawn from its snapshot.
    pub open spec fn restores(self, width: u16, height: u16) -> bool {
        self.enabled && width > 0 && height > 0 && self.snapshot == Some((self.key, width, height))
    }

    /// The subtree after it was drawn.
    pub open spec fn drawn(self, region: DrawnRegion) -> CachedModel {
        CachedModel {
            snapshot: if self.enabled && region.copyable() {
                Some((self.key, region.width, region.height))
            } else {
                None
            },
            ..self
        }
    }
}

impl CachedSubtreeHook {
    /// A subtree without a snapshot.
    pub fn new() -> (r: Self)
        ensures
            r@.key.len() == 0,
            !r@.enabled,
            r@.snapshot is None,
    {
        CachedSubtreeHook { key: String::new(), enabled: false, snapshot: None }
    }

    /// Takes over the props.
    pub fn update(&mut self, props: &CachedSubtreeProps)
        ensures
            final(self)@ == (CachedModel {
                key: props.cache_key@,
                enabled: props.enabled != Some(false),
                ..old(self)@
            }),
    {
        self.key = props.cache_key.clone();
        self.enabled = match props.enabled {
            Some(enabled) => enabled,
            None => true,
        };
    }

    /// Whether a subtree of the given size is drawn from its snapshot.
    pub fn pre_component_draw(&self, width: u16, height: u16) -> (restores: bool)
        ensures
            restores == self@.restores(width, height),
    {
        if !self.enabled || width == 0 || height == 0 {
            return false;
        }
        match &self.snapshot {
            Some(snapshot) => snapshot.key == self.key && snapshot.width == width
                && snapshot.height == height,
            None => false,
        }
    }

    /// Takes a snapshot of the region that was drawn, or drops the one there is; returns
    /// whether the region is to be copied.
    pub fn post_component_draw(&mut self, region: &DrawnRegion) -> (copies: bool)
        ensures
            copies == (old(self)@.enabled && region.copyable()),
            final(self)@ == old(self)@.drawn(*region),
    {
        if self.enabled && region.can_be_copied() {
            self.snapshot = Some(
                CachedSubtreeSnapshot {
                    key: self.key.clone(),
                    width: region.width,
                    height: region.height,
                },
            );
            true
        } else {
            self.snapshot = None;
            false
        }
    }
}

/// A subtree that was drawn on the canvas is drawn from its snapshot as long as its key and
/// its size stay the same, and no longer.
pub proof fn lemma_snapshot_lasts_while_key_lasts(
    cached: CachedModel,
    region: DrawnRegion,
    key: Seq<char>,
    width: u16,
    height: u16,
)
    requires
        cached.enabled,
        region.copyable(),
    ensures
        (CachedModel { key, ..cached.drawn(region) }).restores(width, height) <==> key
            == cached.key && width == region.width && height == region.height,
{
}

/// Renders a subtree that is drawn from its snapshot: as wide as its parent.
#[allow(non_snake_case)]
pub fn CachedSubtree(props: CachedSubtreeProps) -> (element: AnyElement)
    ensures
        element.is_view_at(
            0,
            (LayoutStyle { width: Dimension::Percent(100), ..crate::style::plain_layout() }),
            props.children@,
        ),
{
    let mut layout = LayoutStyle::default();
    layout.width = Dimension::Percent(100);
    AnyElement::at(0, ElementNode::View(ViewProps::bare(layout, props.children)))
}

/// Says that a component is inside of a virtual list.
#[derive(Clone, Copy, Debug, PartialEq, Eq, Structural)]
pub struct InVirtualListContext;

/// The props of [`OffscreenFreeze`].
#[derive(Debug)]
pub struct OffscreenFreezeProps {
    /// The elements that are frozen while they are off the screen.
    pub children: Vec<AnyElement>,
    /// The rows of the terminal, instead of what it reports.
    pub terminal_rows: Option<u16>,
    /// Whether rows that come from a snapshot count as changed.
    pub damage_on_restore: Option<bool>,
    /// Whether frozen elements are not polled either.
    pub skip_poll: Option<bool>,
}

/// Whether rows of the canvas are seen in the terminal. The terminal shows the last rows of
/// a canvas that is too high for it, and the cursor takes one of them.
pub open spec fn is_seen(top: int, height: int, canvas_height: int, terminal_rows: int) -> bool {
    let first: int = crate::math::max_int(canvas_height - terminal_rows, 0) + if canvas_height
        > terminal_rows {
        1int
    } else {
        0int
    };
    terminal_rows == 0 || (top + height > first && top < first + terminal_rows)
}

/// Whether rows of the canvas are seen in the terminal.
pub fn is_visible_in_terminal_viewport(
    top: i16,
    height: u16,
    canvas_height: u32,
    terminal_rows: u16,
) -> (visible: bool)
    ensures
        visible == is_seen(
            top as int,
            height as int,
            canvas_height as int,
            terminal_rows as int,
        ),
{
    let rows: i64 = terminal_rows as i64;
    if rows == 0 {
        return true;
    }
    let top: i64 = top as i64;
    let bottom: i64 = top + height as i64;
    let screen: i64 = canvas_height as i64;
    let first: i64 = if screen > rows {
        screen - rows + 1
    } else {
        0
    };
    bottom > first && top < first + rows
}

/// A subtree that is frozen while it is off the screen.
#[derive(Clone, Copy, Debug, PartialEq, Eq)]
pub struct OffscreenFreeze {
    /// Whether the subtree was off the screen when it was last drawn.
    pub frozen: bool,
    /// Whether the subtree is never frozen: it is inside of a virtual list.
    pub bypassed: bool,
    /// Whether rows that come from a snapshot count as changed.
    pub damage_on_restore: bool,
    /// The rows of the terminal.
    pub terminal_rows: u16,
    /// The size of the snapshot.
    pub snapshot: Option<(u16, u16)>,
}

/// What an update does to a subtree.
#[derive(Clone, Copy, Debug, PartialEq, Eq, Structural)]
pub struct FreezeUpdate {
    /// Whether the children are updated.
    pub update_children: bool,
    /// Whether the children are not polled.
    pub skip_child_poll: bool,
}

/// What is drawn of a subtree.
#[derive(Clone, Copy, Debug, PartialEq, Eq, Structural)]
pub enum FreezeDrawing {
    /// The children.
    Children,
    /// The snapshot, of which the rows count as changed where `damages`.
    Snapshot { damages: bool },
}

impl OffscreenFreeze {
    /// A subtree that was not drawn yet.
    pub fn new() -> (r: Self)
        ensures
            r == (OffscreenFreeze {
                frozen: false,
                bypassed: false,
                damage_on_restore: false,
                terminal_rows: 0,
                snapshot: None,
            }),
    {
        OffscreenFreeze {
            frozen: false,
            bypassed: false,
            damage_on_restore: false,
            terminal_rows: 0,
            snapshot: None,
        }
    }

    /// Takes over the props; a frozen subtree is not updated.
    pub fn update(
        &mut self,
        props: &OffscreenFreezeProps,
        actual_rows: u16,
        in_virtual_list: bool,
    ) -> (r: FreezeUpdate)
        ensures
            *final(self) == (OffscreenFreeze {
                terminal_rows: match props.terminal_rows {
                    Some(rows) => rows,
                    None => actual_rows,
                },
                bypassed: in_virtual_list,
                damage_on_restore: props.damage_on_restore == Some(true),
                ..*old(self)
            }),
            ({
                let frozen = old(self).frozen && !in_virtual_list;
                r == (FreezeUpdate {
                    update_children: !frozen,
                    skip_child_poll: frozen && props.skip_poll == Some(true),
                })
            }),
    {
        self.terminal_rows = match props.terminal_rows {
            Some(rows) => rows,
            None => actual_rows,
        };
        self.bypassed = in_virtual_list;
        self.damage_on_restore = match props.damage_on_restore {
            Some(damages) => damages,
            None => false,
        };
        let frozen = self.frozen && !in_virtual_list;
        let skip_poll: bool = match props.skip_poll {
            Some(skips) => skips,
            None => false,
        };
        FreezeUpdate { update_children: !frozen, skip_child_poll: frozen && skip_poll }
    }

    /// Whether the subtree is off the screen.
    pub open spec fn freezes(self, top: int, height: int, canvas_height: int) -> bool {
        !self.bypassed && !is_seen(top, height, canvas_height, self.terminal_rows as int)
    }

    /// Notes whether the subtree is off the screen, and returns what is drawn of it: the
    /// snapshot of a frozen subtree, if there is one of its size.
    pub fn pre_component_draw(&mut self, top: i16, width: u16, height: u16, canvas_height: u32) -> (
    r: FreezeDrawing)
        ensures
            ({
                let frozen = old(self).freezes(top as int, height as int, canvas_height as int);
                &&& *final(self) == (OffscreenFreeze { frozen, ..*old(self) })
                &&& r == if frozen && old(self).snapshot == Some((width, height)) {
                    FreezeDrawing::Snapshot { damages: old(self).damage_on_restore }
                } else {
                    FreezeDrawing::Children
                }
            }),
    {
        self.frozen = !self.bypassed && !is_visible_in_terminal_viewport(
            top,
            height,
            canvas_height,
            self.terminal_rows,
        );
        if self.frozen {
            if let Some(size) = self.snapshot {
                if size.0 == width && size.1 == height {
                    return FreezeDrawing::Snapshot { damages: self.damage_on_restore };
                }
            }
        }
        FreezeDrawing::Children
    }

    /// Takes a snapshot of a subtree that was seen; keeps the one of a frozen subtree.
    /// Returns whether the region is to be copied.
    pub fn post_component_draw(&mut self, region: &DrawnRegion) -> (copies: bool)
        ensures
            copies == (!old(self).bypassed && !old(self).frozen && region.copyable()),
            *final(self) == (OffscreenFreeze {
                snapshot: if old(self).bypassed {
                    None
                } else if old(self).frozen {
                    old(self).snapshot
                } else if region.copyable() {
                    Some((region.width, region.height))
                } else {
                    None
                },
                ..*old(self)
            }),
    {
        if self.bypassed {
            self.snapshot = None;
            return false;
        }
        if self.frozen {
            return false;
        }
        if region.can_be_copied() {
            self.snapshot = Some((region.width, region.height));
            true
        } else {
            self.snapshot = None;
            false
        }
    }
}

/// A subtree inside of a virtual list is never frozen: it is always updated and drawn.
pub proof fn lemma_virtual_list_is_never_frozen(
    freeze: OffscreenFreeze,
    top: int,
    height: int,
    canvas_height: int,
)
    requires
        freeze.bypassed,
    ensures
        !freeze.freezes(top, height, canvas_height),
{
}

/// Whether two keys are the same.
pub fn memo_key_eq(previous_key: &str, next_key: &str) -> (r: bool)
    ensures
        r == (previous_key@ == next_key@),
{
    previous_key.to_owned() == next_key.to_owned()
}

/// The props of [`Memo`].
#[derive(Debug)]
pub struct MemoProps {
    /// The key under which the children stay the same.
    pub memo_key: String,
    /// Whether keys are compared at all.
    pub compares: bool,
    /// The elements that are updated only where the key changes.
    pub children: Vec<AnyElement>,
}

impl Default for MemoProps {
    fn default() -> (r: Self)
        ensures
            r.memo_key@.len() == 0,
            !r.compares,
            r.children@.len() == 0,
    {
        MemoProps { memo_key: String::new(), compares: false, children: Vec::new() }
    }
}

/// Elements that are updated only where their key changes.
#[derive(Debug)]
pub struct Memo {
    previous_key: Option<String>,
}

impl Memo {
    /// The key of the last update.
    pub closed spec fn previous(self) -> Option<Seq<char>> {
        crate::strings::opt_text(self.previous_key)
    }

    /// Elements that were not updated yet.
    pub fn new() -> (r: Self)
        ensures
            r.previous() is None,
    {
        Memo { previous_key: None }
    }

    /// The key of the last update, to be compared with the next one.
    pub fn previous_key(&self) -> (r: Option<&str>)
        ensures
            r is Some == self.previous() is Some,
            r matches Some(key) ==> key@ == self.previous()->0,
    {
        match &self.previous_key {
            Some(key) => Some(key.as_str()),
            None => None,
        }
    }

    /// Takes over the key, and returns whether the children are updated: unless the keys
    /// were compared and found equal, or where a child has changed by itself. `equal` is
    /// what the comparison of the last key with the next one says.
    pub fn update(&mut self, props: &MemoProps, equal: bool, child_changed: bool) -> (updates: bool)
        ensures
            updates == (!(old(self).previous() is Some && props.compares && equal)
                || child_changed),
            final(self).previous() == Some(props.memo_key@),
    {
        let memo_equal = self.previous_key.is_some() && props.compares && equal;
        self.previous_key = Some(props.memo_key.clone());
        !memo_equal || child_changed
    }
}

/// The props of [`StaticOutput`].
#[derive(Debug)]
pub struct StaticOutputProps {
    /// The lines that are written, each once.
    pub items: Vec<String>,
}

/// Output that is written once.
#[derive(Debug)]
pub struct StaticOutputUpdate {
    /// The lines that were not written yet.
    pub new_items: Vec<String>,
    /// What is rendered: nothing.
    pub element: AnyElement,
}

/// The lines that were not written yet, after so many were.
pub open spec fn unwritten(lines: Seq<Seq<char>>, written: int) -> Seq<Seq<char>> {
    lines.skip(crate::math::min_int(written, lines.len() as int))
}

/// The number of lines that were written after updates with the given lists: the length of
/// the longest one.
pub open spec fn high_water_mark(lists: Seq<Seq<Seq<char>>>) -> int
    decreases lists.len(),
{
    if lists.len() == 0 {
        0
    } else {
        crate::math::max_int(high_water_mark(lists.drop_last()), lists.last().len() as int)
    }
}

/// What the update with list `k` writes, after the updates with the lists before it.
pub open spec fn written_at(lists: Seq<Seq<Seq<char>>>, k: int) -> Seq<Seq<char>> {
    unwritten(lists[k], high_water_mark(lists.take(k)))
}

/// Whether the update with list `k` writes line `i` of its list.
pub open spec fn writes_line(lists: Seq<Seq<Seq<char>>>, k: int, i: int) -> bool {
    0 <= k < lists.len() && high_water_mark(lists.take(k)) <= i < lists[k].len()
}

/// Whatever the lists are, each line up to the high-water mark is written by one update, and
/// by no other; an update writes its lines past the mark, in order, and a list that is no
/// longer than one before it writes nothing.
pub proof fn lemma_lines_are_written_once(lists: Seq<Seq<Seq<char>>>, i: int)
    requires
        0 <= i,
    ensures
        i < high_water_mark(lists) ==> exists|k: int| writes_line(lists, k, i),
        forall|j: int, k: int|
            writes_line(lists, j, i) && writes_line(lists, k, i) ==> j == k,
        forall|k: int|
            0 <= k < lists.len() ==> (#[trigger] written_at(lists, k)).len()
                == crate::math::max_int(lists[k].len() - high_water_mark(lists.take(k)), 0),
        forall|k: int|
            #[trigger] writes_line(lists, k, i) ==> written_at(lists, k)[i - high_water_mark(
                lists.take(k),
            )] == lists[k][i],
{
    assert forall|k: int| 0 <= k < lists.len() implies (#[trigger] written_at(lists, k)).len()
        == crate::math::max_int(lists[k].len() - high_water_mark(lists.take(k)), 0) by {
        lemma_mark_grows(lists, 0, k);
    }
    assert forall|k: int| #[trigger] writes_line(lists, k, i) implies written_at(
        lists,
        k,
    )[i - high_water_mark(lists.take(k))] == lists[k][i] by {
        lemma_mark_grows(lists, 0, k);
    }
    assert forall|j: int, k: int| writes_line(lists, j, i) && writes_line(lists, k, i) implies j
        == k by {
        if j < k {
            lemma_mark_grows(lists, j + 1, k);
            lemma_mark_covers(lists, j);
        } else if k < j {
            lemma_mark_grows(lists, k + 1, j);
            lemma_mark_covers(lists, k);
        }
    }
    if i < high_water_mark(lists) {
        lemma_line_is_written(lists, i);
    }
}

/// The mark after some of the lists is no lower than after fewer of them.
proof fn lemma_mark_grows(lists: Seq<Seq<Seq<char>>>, fewer: int, more: int)
    requires
        0 <= fewer <= more <= lists.len(),
    ensures
        0 <= high_water_mark(lists.take(fewer)) <= high_water_mark(lists.take(more)),
    decreases more,
{
    if more > 0 {
        assert(lists.take(more).drop_last() =~= lists.take(more - 1));
        if fewer < more {
            lemma_mark_grows(lists, fewer, more - 1);
        } else {
            lemma_mark_grows(lists, more - 1, more - 1);
        }
    }
}

/// The mark after a list is no lower than its length.
proof fn lemma_mark_covers(lists: Seq<Seq<Seq<char>>>, k: int)
    requires
        0 <= k < lists.len(),
    ensures
        lists[k].len() <= high_water_mark(lists.take(k + 1)),
{
    assert(lists.take(k + 1).last() == lists[k]);
}

/// Some update writes each line below the mark.
proof fn lemma_line_is_written(lists: Seq<Seq<Seq<char>>>, i: int)
    requires
        0 <= i < high_water_mark(lists),
    ensures
        exists|k: int| writes_line(lists, k, i),
    decreases lists.len(),
{
    if lists.len() > 0 {
        let earlier = lists.drop_last();
        let last: int = lists.len() - 1;
        assert(lists.take(last) =~= earlier);
        if i < high_water_mark(earlier) {
            lemma_line_is_written(earlier, i);
            let k = choose|k: int| writes_line(earlier, k, i);
            assert(earlier.take(k) =~= lists.take(k));
            assert(writes_line(lists, k, i));
        } else {
            assert(writes_line(lists, last, i));
        }
    }
}

/// Writes the lines that were not written yet, and renders nothing. `rendered_count` is the
/// number of lines that were written: a list that shrinks does not lower it, so that no line
/// is written again.
#[allow(non_snake_case)]
pub fn StaticOutput(props: &StaticOutputProps, rendered_count: &mut usize) -> (r:
    StaticOutputUpdate)
    ensures
        *final(rendered_count) == crate::math::max_int(
            *old(rendered_count) as int,
            props.items@.len() as int,
        ),
        crate::strings::texts(r.new_items@) == unwritten(
            crate::strings::texts(props.items@),
            *old(rendered_count) as int,
        ),
        r.element.is_view_at(0, crate::style::plain_layout(), r.element.node->View_0.children@),
        r.element.node->View_0.children@.len() == 0,
{
    let already: usize = if *rendered_count < props.items.len() {
        *rendered_count
    } else {
        props.items.len()
    };
    let ghost all = crate::strings::texts(props.items@);
    let mut new_items: Vec<String> = Vec::new();
    let mut i: usize = already;
    assert(crate::strings::texts(new_items@) =~= all.subrange(already as int, already as int));
    while i < props.items.len()
        invariant
            already <= i <= props.items@.len(),
            all == crate::strings::texts(props.items@),
            crate::strings::texts(new_items@) == all.subrange(already as int, i as int),
        decreases props.items@.len() - i,
    {
        let item = props.items[i].clone();
        let ghost before = crate::strings::texts(new_items@);
        new_items.push(item);
        i = i + 1;
        proof {
            assert(all[i - 1] == props.items@[i - 1]@);
            assert(crate::strings::texts(new_items@) =~= before.push(item@));
            assert(all.subrange(already as int, i as int) =~= all.subrange(
                already as int,
                i - 1,
            ).push(all[i - 1]));
        }
    }
    assert(all.subrange(already as int, i as int) =~= all.skip(already as int));
    if *rendered_count < props.items.len() {
        *rendered_count = props.items.len();
    }
    StaticOutputUpdate {
        new_items,
        element: AnyElement::at(0, ElementNode::View(ViewProps::default())),
    }
}

/// A subtree is seen where one of its rows is on the screen: the screen shows the canvas from
/// its first row on where it fits, and its last rows where it does not, with one row less for the
/// row behind it. Where the rows of the terminal are not known everything is seen.
pub proof fn lemma_seen_rows(top: int, height: int, canvas_height: int, terminal_rows: int)
    requires
        0 < height,
        0 <= canvas_height,
        0 < terminal_rows,
    ensures
        is_seen(top, height, canvas_height, 0),
        canvas_height <= terminal_rows ==> is_seen(top, height, canvas_height, terminal_rows) == (
        top + height - 1 >= 0 && top < terminal_rows),
        canvas_height > terminal_rows ==> is_seen(top, height, canvas_height, terminal_rows) == (
        top + height - 1 > canvas_height - terminal_rows && top <= canvas_height),
{
}

/// A region can be copied where it has cells, and its first and its last are on the canvas.
pub proof fn lemma_region_is_on_canvas(region: DrawnRegion)
    ensures
        region.width == 0 || region.height == 0 ==> !region.copyable(),
        region.width > 0 && region.height > 0 ==> region.copyable() == (region.x >= 0 && region.y
            >= 0 && region.x + (region.width - 1) < region.canvas_width && region.y + (
        region.height - 1) < region.canvas_height),
{
}

/// A subtree is drawn from its snapshot only where it is cached and there is one, of its key and
/// of its size. One that is not on the canvas as a whole leaves no snapshot.
pub proof fn lemma_snapshot_is_of_key_and_size(
    cached: CachedModel,
    region: DrawnRegion,
    width: u16,
    height: u16,
)
    ensures
        cached.restores(width, height) ==> {
            &&& cached.enabled && width > 0 && height > 0
            &&& cached.snapshot matches Some(snapshot) && snapshot.0 == cached.key && snapshot.1
                == width && snapshot.2 == height
        },
        !cached.enabled || !region.copyable() ==> cached.drawn(region).snapshot is None,
        cached.enabled && region.copyable() ==> cached.drawn(region).restores(
            region.width,
            region.height,
        ),
        cached.drawn(region).key == cached.key && cached.drawn(region).enabled == cached.enabled,
{
}

/// A subtree is frozen exactly while it is off the screen, unless it is inside of a virtual list.
pub proof fn lemma_frozen_off_screen(
    freeze: OffscreenFreeze,
    top: int,
    height: int,
    canvas_height: int,
)
    ensures
        !freeze.bypassed ==> freeze.freezes(top, height, canvas_height) == !is_seen(
            top,
            height,
            canvas_height,
            freeze.terminal_rows as int,
        ),
{
}

} // verus!
