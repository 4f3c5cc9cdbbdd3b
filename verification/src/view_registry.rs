//! The views of a frame: which of them the pointer is over, which one a click
//! targets, and which handlers see it.

use crate::event::{FullscreenMouseEvent, MouseButton, MouseEventKind, Rect};
use crate::view_event::{FocusId, ViewClickEvent, ViewEventPhase, ViewId};
use vstd::prelude::*;

verus! {

/// An entry of a focus context.
#[derive(Clone, Copy, Debug, PartialEq, Eq, Structural)]
pub struct FocusTarget {
    /// The focus context.
    pub context: u64,
    /// The entry.
    pub id: FocusId,
}

/// What is known of a view while events are dispatched. Handlers are named by
/// numbers.
#[derive(Clone, Copy, Debug, PartialEq, Eq, Structural)]
pub struct ViewRecord {
    /// The view.
    pub id: ViewId,
    /// The view that it is inside of.
    pub parent: Option<ViewId>,
    /// The cells that it was drawn on, once it was drawn.
    pub rect: Option<Rect>,
    /// The handler for the pointer coming in.
    pub on_enter: Option<u64>,
    /// The handler for the pointer going out.
    pub on_leave: Option<u64>,
    /// The handler for clicks.
    pub on_click: Option<u64>,
    /// The focus entry that a click focuses.
    pub focus: Option<FocusTarget>,
}

impl ViewRecord {
    /// Whether the view was drawn on a cell.
    pub open spec fn covers(self, column: int, row: int) -> bool {
        self.rect is Some && self.rect->0.has_cell(column, row)
    }

    /// Whether a handler of the view follows the pointer.
    pub open spec fn follows_pointer(self) -> bool {
        self.on_enter is Some || self.on_leave is Some
    }

    /// Whether the view was drawn on a cell.
    pub fn contains(&self, column: u16, row: u16) -> (r: bool)
        ensures
            r == self.covers(column as int, row as int),
    {
        match self.rect {
            Some(rect) => rect.contains(column, row),
            None => false,
        }
    }
}

/// The first record of a view; the number of records where it has none.
pub open spec fn index_of(records: Seq<ViewRecord>, id: ViewId) -> int
    decreases records.len(),
{
    if records.len() == 0 {
        0
    } else {
        let before: int = index_of(records.drop_last(), id);
        if before < records.len() - 1 || records.last().id == id {
            before
        } else {
            before + 1
        }
    }
}

/// Every view is registered after the view that it is inside of.
pub open spec fn parents_first(records: Seq<ViewRecord>) -> bool {
    forall|i: int|
        0 <= i < records.len() ==> ((#[trigger] records[i]).parent matches Some(parent)
            ==> index_of(records, parent) < i)
}

/// The topmost view on a cell, that is the last one that was registered; -1 where there
/// is none.
pub open spec fn topmost(records: Seq<ViewRecord>, column: int, row: int) -> int
    decreases records.len(),
{
    if records.len() == 0 {
        -1
    } else if records.last().covers(column, row) {
        records.len() - 1
    } else {
        topmost(records.drop_last(), column, row)
    }
}

/// The records from a view outwards. `limit` bounds the places at which they stand.
pub open spec fn ancestry(records: Seq<ViewRecord>, from: Option<ViewId>, limit: int) -> Seq<
    ViewRecord,
>
    decreases limit,
{
    match from {
        Some(id) => {
            let k: int = index_of(records, id);
            if 0 <= k < limit && k < records.len() {
                seq![records[k]] + ancestry(records, records[k].parent, k)
            } else {
                Seq::empty()
            }
        },
        None => Seq::empty(),
    }
}

/// The views from one outwards: itself, the view that it is inside of, and so on.
pub open spec fn outwards(records: Seq<ViewRecord>, from: Option<ViewId>) -> Seq<ViewRecord> {
    ancestry(records, from, records.len() as int)
}

/// The views among the records whose handlers follow the pointer.
pub open spec fn following(chain: Seq<ViewRecord>) -> Seq<ViewId>
    decreases chain.len(),
{
    if chain.len() == 0 {
        Seq::empty()
    } else if chain.last().follows_pointer() {
        following(chain.drop_last()).push(chain.last().id)
    } else {
        following(chain.drop_last())
    }
}

/// The views that the pointer is over, innermost first.
pub open spec fn hovered_at(records: Seq<ViewRecord>, column: int, row: int) -> Seq<ViewId> {
    let top: int = topmost(records, column, row);
    following(
        outwards(
            records,
            if top >= 0 {
                Some(records[top].id)
            } else {
                None
            },
        ),
    )
}

/// The handlers for the pointer going out of the views in `old` that are not in `new`.
pub open spec fn leaving(records: Seq<ViewRecord>, old: Seq<ViewId>, new: Seq<ViewId>) -> Seq<u64>
    decreases old.len(),
{
    if old.len() == 0 {
        Seq::empty()
    } else {
        let before: Seq<u64> = leaving(records, old.drop_last(), new);
        let k: int = index_of(records, old.last());
        if !new.contains(old.last()) && k < records.len() && records[k].on_leave is Some {
            before.push(records[k].on_leave->0)
        } else {
            before
        }
    }
}

/// The handlers for the pointer coming into the views in `new` that are not in `old`.
pub open spec fn entering(records: Seq<ViewRecord>, old: Seq<ViewId>, new: Seq<ViewId>) -> Seq<u64>
    decreases new.len(),
{
    if new.len() == 0 {
        Seq::empty()
    } else {
        let before: Seq<u64> = entering(records, old, new.drop_last());
        let k: int = index_of(records, new.last());
        if !old.contains(new.last()) && k < records.len() && records[k].on_enter is Some {
            before.push(records[k].on_enter->0)
        } else {
            before
        }
    }
}

proof fn lemma_index_of(records: Seq<ViewRecord>, id: ViewId)
    ensures
        0 <= index_of(records, id) <= records.len(),
        index_of(records, id) < records.len() ==> records[index_of(records, id)].id == id,
        forall|i: int|
            0 <= i < index_of(records, id) && i < records.len() ==> (#[trigger] records[i]).id
                != id,
    decreases records.len(),
{
    if records.len() > 0 {
        lemma_index_of(records.drop_last(), id);
        let before = records.drop_last();
        assert forall|i: int|
            0 <= i < index_of(records, id) && i < records.len() implies (#[trigger] records[i]).id
            != id by {
            if i < before.len() {
                assert(before[i] == records[i]);
            }
        }
    }
}

proof fn lemma_found(records: Seq<ViewRecord>, id: ViewId, k: int)
    requires
        0 <= k < records.len(),
        records[k].id == id,
        forall|i: int| 0 <= i < k ==> (#[trigger] records[i]).id != id,
    ensures
        index_of(records, id) == k,
{
    lemma_index_of(records, id);
    let found = index_of(records, id);
    if found < k {
        assert(records[found].id == id);
    } else if found > k {
        assert(records[k].id != id);
    }
}

/// The first record of a view.
fn find_record(records: &Vec<ViewRecord>, id: ViewId) -> (found: Option<usize>)
    ensures
        found matches Some(k) ==> k < records@.len() && index_of(records@, id) == k,
        found is None ==> index_of(records@, id) == records@.len(),
{
    let mut i: usize = 0;
    while i < records.len()
        invariant
            i <= records@.len(),
            forall|k: int| 0 <= k < i ==> (#[trigger] records@[k]).id != id,
        decreases records@.len() - i,
    {
        if records[i].id == id {
            proof {
                lemma_found(records@, id, i as int);
            }
            return Some(i);
        }
        i = i + 1;
    }
    proof {
        lemma_index_of(records@, id);
        let found = index_of(records@, id);
        if found < records@.len() {
            assert(records@[found].id == id);
        }
    }
    None
}

proof fn lemma_topmost_found(records: Seq<ViewRecord>, column: int, row: int, k: int)
    requires
        -1 <= k < records.len(),
        k >= 0 ==> records[k].covers(column, row),
        forall|i: int| k < i < records.len() ==> !(#[trigger] records[i]).covers(column, row),
    ensures
        topmost(records, column, row) == k,
    decreases records.len(),
{
    if records.len() > 0 && k < records.len() - 1 {
        let before = records.drop_last();
        assert(!records[records.len() - 1].covers(column, row));
        assert forall|i: int| k < i < before.len() implies !(#[trigger] before[i]).covers(
            column,
            row,
        ) by {
            assert(before[i] == records[i]);
        }
        if k >= 0 {
            assert(before[k] == records[k]);
        }
        lemma_topmost_found(before, column, row, k);
    }
}

/// The topmost view on a cell.
fn find_topmost(records: &Vec<ViewRecord>, column: u16, row: u16) -> (found: Option<usize>)
    ensures
        found matches Some(k) ==> k < records@.len() && topmost(
            records@,
            column as int,
            row as int,
        ) == k,
        found is None ==> topmost(records@, column as int, row as int) == -1,
{
    let mut i: usize = records.len();
    while i > 0
        invariant
            i <= records@.len(),
            forall|k: int|
                i <= k < records@.len() ==> !(#[trigger] records@[k]).covers(
                    column as int,
                    row as int,
                ),
        decreases i,
    {
        if records[i - 1].contains(column, row) {
            proof {
                lemma_topmost_found(records@, column as int, row as int, i - 1);
            }
            return Some(i - 1);
        }
        i = i - 1;
    }
    proof {
        lemma_topmost_found(records@, column as int, row as int, -1);
    }
    None
}

/// The views from one outwards.
fn walk_outwards(records: &Vec<ViewRecord>, from: Option<ViewId>) -> (chain: Vec<ViewRecord>)
    requires
        parents_first(records@),
    ensures
        chain@ == outwards(records@, from),
{
    let ghost goal = outwards(records@, from);
    let mut chain: Vec<ViewRecord> = Vec::new();
    let mut current: Option<ViewId> = from;
    let mut limit: usize = records.len();
    assert(chain@ + goal =~= goal);
    while current.is_some()
        invariant
            limit <= records@.len(),
            parents_first(records@),
            chain@ + ancestry(records@, current, limit as int) == goal,
            current matches Some(id) ==> index_of(records@, id) < limit || limit
                == records@.len(),
        decreases
            limit,
            if current is Some {
                1int
            } else {
                0int
            },
    {
        let id: ViewId = current.unwrap();
        match find_record(records, id) {
            Some(k) => {
                let record = records[k];
                proof {
                    assert(records@[k as int] == record);
                    let rest = ancestry(records@, record.parent, k as int);
                    assert(chain@.push(record) + rest =~= chain@ + (seq![record] + rest));
                }
                chain.push(record);
                current = record.parent;
                limit = k;
            },
            None => {
                current = None;
            },
        }
    }
    assert(chain@ + Seq::<ViewRecord>::empty() =~= chain@);
    chain
}

/// Whether a view is in a list.
fn has_view(views: &Vec<ViewId>, id: ViewId) -> (r: bool)
    ensures
        r == views@.contains(id),
{
    let mut i: usize = 0;
    while i < views.len()
        invariant
            i <= views@.len(),
            forall|k: int| 0 <= k < i ==> #[trigger] views@[k] != id,
        decreases views@.len() - i,
    {
        if views[i] == id {
            assert(views@[i as int] == id);
            return true;
        }
        i = i + 1;
    }
    false
}

/// The views that the pointer is over, innermost first.
fn find_hovered(records: &Vec<ViewRecord>, column: u16, row: u16) -> (views: Vec<ViewId>)
    requires
        parents_first(records@),
    ensures
        views@ == hovered_at(records@, column as int, row as int),
{
    let from: Option<ViewId> = match find_topmost(records, column, row) {
        Some(k) => Some(records[k].id),
        None => None,
    };
    let chain = walk_outwards(records, from);
    let mut views: Vec<ViewId> = Vec::new();
    let mut i: usize = 0;
    assert(views@ =~= following(chain@.take(0)));
    while i < chain.len()
        invariant
            i <= chain@.len(),
            views@ == following(chain@.take(i as int)),
        decreases chain@.len() - i,
    {
        proof {
            assert(chain@.take(i + 1).drop_last() =~= chain@.take(i as int));
            assert(chain@.take(i + 1).last() == chain@[i as int]);
        }
        let record = chain[i];
        if record.on_enter.is_some() || record.on_leave.is_some() {
            views.push(record.id);
        }
        i = i + 1;
    }
    assert(chain@.take(i as int) =~= chain@);
    views
}

/// Follows the pointer to a cell: records the views that it is now over, and returns the
/// handlers to call, those of the views that it left before those of the views that it
/// came into.
pub fn dispatch_hover(
    records: &Vec<ViewRecord>,
    hovered: &mut Vec<ViewId>,
    column: u16,
    row: u16,
) -> (calls: Vec<u64>)
    requires
        parents_first(records@),
    ensures
        final(hovered)@ == hovered_at(records@, column as int, row as int),
        calls@ == leaving(records@, old(hovered)@, final(hovered)@) + entering(
            records@,
            old(hovered)@,
            final(hovered)@,
        ),
{
    let next = find_hovered(records, column, row);
    let mut calls: Vec<u64> = Vec::new();
    let ghost before = hovered@;
    let mut i: usize = 0;
    assert(calls@ =~= leaving(records@, before.take(0), next@));
    while i < hovered.len()
        invariant
            i <= hovered@.len(),
            before == hovered@,
            calls@ == leaving(records@, before.take(i as int), next@),
        decreases hovered@.len() - i,
    {
        let old_id: ViewId = hovered[i];
        proof {
            assert(before.take(i + 1).drop_last() =~= before.take(i as int));
            assert(before.take(i + 1).last() == old_id);
        }
        if !has_view(&next, old_id) {
            if let Some(k) = find_record(records, old_id) {
                if let Some(handler) = records[k].on_leave {
                    calls.push(handler);
                }
            }
        }
        i = i + 1;
    }
    assert(before.take(i as int) =~= before);
    let ghost left = calls@;
    let mut j: usize = 0;
    assert(calls@ =~= left + entering(records@, before, next@.take(0)));
    while j < next.len()
        invariant
            j <= next@.len(),
            before == hovered@,
            calls@ == left + entering(records@, before, next@.take(j as int)),
        decreases next@.len() - j,
    {
        let new_id: ViewId = next[j];
        proof {
            assert(next@.take(j + 1).drop_last() =~= next@.take(j as int));
            assert(next@.take(j + 1).last() == new_id);
        }
        if !has_view(hovered, new_id) {
            if let Some(k) = find_record(records, new_id) {
                if let Some(handler) = records[k].on_enter {
                    calls.push(handler);
                }
            }
        }
        j = j + 1;
        assert(calls@ =~= left + entering(records@, before, next@.take(j as int)));
    }
    assert(next@.take(j as int) =~= next@);
    *hovered = next;
    calls
}

proof fn lemma_no_leaving(records: Seq<ViewRecord>, old: Seq<ViewId>, new: Seq<ViewId>)
    requires
        forall|i: int| 0 <= i < old.len() ==> new.contains(#[trigger] old[i]),
    ensures
        leaving(records, old, new).len() == 0,
    decreases old.len(),
{
    if old.len() > 0 {
        let before = old.drop_last();
        assert forall|i: int| 0 <= i < before.len() implies new.contains(#[trigger] before[i]) by {
            assert(before[i] == old[i]);
        }
        lemma_no_leaving(records, before, new);
        assert(new.contains(old[old.len() - 1]));
    }
}

proof fn lemma_no_entering(records: Seq<ViewRecord>, old: Seq<ViewId>, new: Seq<ViewId>)
    requires
        forall|i: int| 0 <= i < new.len() ==> old.contains(#[trigger] new[i]),
    ensures
        entering(records, old, new).len() == 0,
    decreases new.len(),
{
    if new.len() > 0 {
        let before = new.drop_last();
        assert forall|i: int| 0 <= i < before.len() implies old.contains(#[trigger] before[i]) by {
            assert(before[i] == new[i]);
        }
        lemma_no_entering(records, old, before);
        assert(old.contains(new[new.len() - 1]));
    }
}

/// A pointer that is over the same views as before calls no handler.
pub proof fn lemma_same_views_call_nothing(records: Seq<ViewRecord>, hovered: Seq<ViewId>)
    ensures
        leaving(records, hovered, hovered).len() == 0,
        entering(records, hovered, hovered).len() == 0,
{
    lemma_no_leaving(records, hovered, hovered);
    lemma_no_entering(records, hovered, hovered);
}

/// A press of the left button that may become a click.
#[derive(Clone, Copy, Debug, PartialEq, Eq, Structural)]
pub struct PendingClick {
    /// The column of the press.
    pub column: u16,
    /// The row of the press.
    pub row: u16,
    /// Whether the pointer has left that cell since.
    pub dragged: bool,
}

/// A call of a click handler.
#[derive(Clone, Copy, Debug, PartialEq, Eq, Structural)]
pub struct ClickDelivery {
    /// The handler to call.
    pub handler: u64,
    /// What it is handed.
    pub event: ViewClickEvent,
}

/// A cell relative to the start of a view, as a 16-bit number.
pub open spec fn local(cell: int, start: int) -> int {
    (cell - start) % 0x1_0000
}

/// The call that a view gets of a click, if it has a handler and was drawn.
pub open spec fn delivery_for(record: ViewRecord, click: ViewClickEvent, target: ViewId) -> Option<
    ClickDelivery,
> {
    if record.on_click is Some && record.rect is Some {
        Some(
            ClickDelivery {
                handler: record.on_click->0,
                event: ViewClickEvent {
                    phase: if record.id == target {
                        ViewEventPhase::AtTarget
                    } else {
                        ViewEventPhase::Bubbling
                    },
                    target: Some(target),
                    current_target: Some(record.id),
                    local_column: local(click.column as int, record.rect->0.left as int) as u16,
                    local_row: local(click.row as int, record.rect->0.top as int) as u16,
                    ..click
                },
            },
        )
    } else {
        None
    }
}

/// The calls that a click makes, from the target outwards.
pub open spec fn deliveries_for(
    chain: Seq<ViewRecord>,
    click: ViewClickEvent,
    target: ViewId,
) -> Seq<ClickDelivery>
    decreases chain.len(),
{
    if chain.len() == 0 {
        Seq::empty()
    } else {
        let before: Seq<ClickDelivery> = deliveries_for(chain.drop_last(), click, target);
        match delivery_for(chain.last(), click, target) {
            Some(delivery) => before.push(delivery),
            None => before,
        }
    }
}

/// The focus entry of the first view that has one.
pub open spec fn first_focus(chain: Seq<ViewRecord>) -> Option<FocusTarget>
    decreases chain.len(),
{
    if chain.len() == 0 {
        None
    } else {
        let before: Option<FocusTarget> = first_focus(chain.drop_last());
        if before is Some {
            before
        } else {
            chain.last().focus
        }
    }
}

/// A press after an event of the mouse over the view.
pub open spec fn pressed_after(
    pending: Option<PendingClick>,
    event: FullscreenMouseEvent,
) -> Option<PendingClick> {
    match event.kind {
        MouseEventKind::Down(MouseButton::Left) => Some(
            PendingClick { column: event.column, row: event.row, dragged: false },
        ),
        MouseEventKind::Down(_) => None,
        MouseEventKind::Up(MouseButton::Left) => None,
        MouseEventKind::Drag(MouseButton::Left) => match pending {
            Some(click) => Some(
                PendingClick {
                    dragged: click.dragged || click.column != event.column || click.row
                        != event.row,
                    ..click
                },
            ),
            None => None,
        },
        _ => pending,
    }
}

/// Whether an event of the mouse over the view completes a click: the left button is
/// released after a press that was not dragged.
pub open spec fn completes_click(
    pending: Option<PendingClick>,
    event: FullscreenMouseEvent,
) -> bool {
    event.kind == MouseEventKind::Up(MouseButton::Left) && pending is Some && !pending->0.dragged
}

/// A completed click.
#[derive(Debug)]
pub struct ClickOutcome {
    /// The focus entry that gets the focus.
    pub focus: Option<FocusTarget>,
    /// The calls that the click makes, in order, until a handler stops it:
    /// [`ClickDispatch`] takes them one by one.
    pub deliveries: Vec<ClickDelivery>,
    /// Whether other components are kept from the event.
    pub stops_propagation: bool,
}

/// The handler that a click calls next, and those that are left after it: none once a handler
/// has stopped the click.
pub open spec fn next_click(left: Seq<ClickDelivery>, stopped: bool) -> (
    Option<ClickDelivery>,
    Seq<ClickDelivery>,
) {
    if stopped || left.len() == 0 {
        (None, Seq::empty())
    } else {
        (Some(left[0]), left.drop_first())
    }
}

/// The handlers that a click calls, where `stops` says of each of them whether it stops the
/// click.
pub open spec fn called_by_click(left: Seq<ClickDelivery>, stops: Seq<bool>) -> Seq<ClickDelivery>
    decreases left.len(),
{
    match next_click(left, false) {
        (Some(delivery), rest) => seq![delivery] + if next_click(rest, stops[0]).0 is Some {
            called_by_click(rest, stops.drop_first())
        } else {
            Seq::empty()
        },
        (None, _) => Seq::empty(),
    }
}

/// The calls of a completed click, and how far they have come.
#[derive(Debug)]
pub struct ClickDispatch {
    deliveries: Vec<ClickDelivery>,
}

impl ClickDispatch {
    /// The calls that are left.
    pub closed spec fn left(self) -> Seq<ClickDelivery> {
        self.deliveries@
    }

    /// A dispatch of which no handler has run.
    pub fn new(deliveries: Vec<ClickDelivery>) -> (r: Self)
        ensures
            r.left() == deliveries@,
    {
        ClickDispatch { deliveries }
    }

    /// The next handler to run. `stopped` is whether one of the handlers so far has stopped
    /// the click.
    pub fn next(&mut self, stopped: bool) -> (delivery: Option<ClickDelivery>)
        ensures
            (delivery, final(self).left()) == next_click(old(self).left(), stopped),
    {
        if stopped {
            self.deliveries.clear();
        }
        if self.deliveries.len() == 0 {
            assert(self.deliveries@ =~= Seq::empty());
            return None;
        }
        let ghost before = self.deliveries@;
        let delivery = self.deliveries.remove(0);
        assert(self.deliveries@ =~= before.drop_first());
        Some(delivery)
    }
}

/// A click goes on from handler to handler, in order, until one of them stops it: that one is
/// the last to be called.
pub proof fn lemma_click_goes_on_until_stopped(
    deliveries: Seq<ClickDelivery>,
    stops: Seq<bool>,
    last: int,
)
    requires
        stops.len() == deliveries.len(),
        0 <= last < deliveries.len(),
        forall|i: int| 0 <= i < last ==> !#[trigger] stops[i],
        stops[last] || last == deliveries.len() - 1,
    ensures
        called_by_click(deliveries, stops) == deliveries.take(last + 1),
    decreases deliveries.len(),
{
    let rest = deliveries.drop_first();
    let later = stops.drop_first();
    if last == 0 {
        assert(called_by_click(deliveries, stops) =~= deliveries.take(1));
    } else {
        assert forall|i: int| 0 <= i < last - 1 implies !#[trigger] later[i] by {
            assert(later[i] == stops[i + 1]);
        }
        assert(!stops[0]);
        lemma_click_goes_on_until_stopped(rest, later, last - 1);
        assert(called_by_click(deliveries, stops) =~= deliveries.take(last + 1));
    }
}

/// A cell relative to the start of a view, as a 16-bit number.
fn local_cell(cell: u16, start: i32) -> (r: u16)
    ensures
        r == local(cell as int, start as int),
{
    let distance: i64 = cell as i64 - start as i64;
    let shifted: u64 = (distance + 0x1_0000_0000i64) as u64;
    assert((distance + 0x1_0000_0000) % 0x1_0000 == distance as int % 0x1_0000) by (nonlinear_arith);
    (shifted % 0x1_0000) as u16
}

/// Whether a handler is told of a click as it was made: it is the handler of a view, it is told
/// the cell of the mouse event, and where in that view the cell is.
pub open spec fn told_of_click(
    records: Seq<ViewRecord>,
    view_id: ViewId,
    event: FullscreenMouseEvent,
    delivery: ClickDelivery,
) -> bool {
    let told = delivery.event;
    &&& told.column == event.column && told.row == event.row
    &&& told.cell_is_blank == event.cell_is_blank
    &&& told.target == Some(view_id)
    &&& !told.stopped
    &&& exists|k: int|
        {
            &&& 0 <= k < records.len()
            &&& told.current_target == Some((#[trigger] records[k]).id)
            &&& records[k].on_click == Some(delivery.handler)
            &&& records[k].covers(event.column as int, event.row as int) ==> {
                &&& event.column - records[k].rect->0.left <= u16::MAX
                    ==> records[k].rect->0.left + told.local_column == event.column
                &&& event.row - records[k].rect->0.top <= u16::MAX ==> records[k].rect->0.top
                    + told.local_row == event.row
            }
        }
}

/// Whether every handler is told of a click as it was made.
pub open spec fn tells_click(
    records: Seq<ViewRecord>,
    view_id: ViewId,
    event: FullscreenMouseEvent,
    deliveries: Seq<ClickDelivery>,
) -> bool {
    forall|i: int|
        0 <= i < deliveries.len() ==> told_of_click(
            records,
            view_id,
            event,
            #[trigger] deliveries[i],
        )
}

/// Whether an event of the mouse completes a click on a view: the left button is released, after
/// it was pressed and not dragged since, on a cell that the view was drawn on, and on which no
/// view was drawn after it.
pub open spec fn is_clicked(
    records: Seq<ViewRecord>,
    view_id: ViewId,
    pending: Option<PendingClick>,
    event: FullscreenMouseEvent,
) -> bool {
    &&& event.kind == MouseEventKind::Up(MouseButton::Left)
    &&& pending matches Some(press) && !press.dragged
    &&& exists|k: int|
        {
            &&& 0 <= k < records.len()
            &&& (#[trigger] records[k]).id == view_id
            &&& records[k].covers(event.column as int, event.row as int)
            &&& forall|j: int|
                k < j < records.len() ==> !(#[trigger] records[j]).covers(
                    event.column as int,
                    event.row as int,
                )
        }
}

proof fn lemma_clicked(
    records: Seq<ViewRecord>,
    view_id: ViewId,
    pending: Option<PendingClick>,
    event: FullscreenMouseEvent,
)
    ensures
        ({
            let top = topmost(records, event.column as int, event.row as int);
            is_clicked(records, view_id, pending, event) == (top >= 0 && records[top].id == view_id
                && completes_click(pending, event))
        }),
{
    let column = event.column as int;
    let row = event.row as int;
    lemma_topmost_is_last_drawn(records, column, row);
    let top = topmost(records, column, row);
    if top >= 0 {
        assert(records[top].covers(column, row));
    }
    if is_clicked(records, view_id, pending, event) {
        let k = choose|k: int|
            {
                &&& 0 <= k < records.len()
                &&& (#[trigger] records[k]).id == view_id
                &&& records[k].covers(column, row)
                &&& forall|j: int|
                    k < j < records.len() ==> !(#[trigger] records[j]).covers(column, row)
            };
        lemma_topmost_found(records, column, row, k);
    }
    if top >= 0 && records[top].id == view_id && completes_click(pending, event) {
        assert forall|j: int| top < j < records.len() implies !(#[trigger] records[j]).covers(
            column,
            row,
        ) by {
            let record = records[j];
        }
        assert(records[top].id == view_id);
    }
}

/// The handlers that a click calls are told of it as it was made.
proof fn lemma_handlers_are_told(
    records: Seq<ViewRecord>,
    view_id: ViewId,
    click: ViewClickEvent,
    event: FullscreenMouseEvent,
)
    requires
        parents_first(records),
        click.column == event.column,
        click.row == event.row,
        click.cell_is_blank == event.cell_is_blank,
        !click.stopped,
    ensures
        tells_click(
            records,
            view_id,
            event,
            deliveries_for(outwards(records, Some(view_id)), click, view_id),
        ),
{
    let chain = outwards(records, Some(view_id));
    let deliveries = deliveries_for(chain, click, view_id);
    let places = lemma_click_is_delivered_along_chain(chain, click, view_id);
    lemma_chain_goes_outwards(records, view_id);
    assert forall|i: int| 0 <= i < deliveries.len() implies told_of_click(
        records,
        view_id,
        event,
        #[trigger] deliveries[i],
    ) by {
        let record = chain[places[i]];
        assert(hands_click(record, view_id, click, deliveries[i]));
        assert(records.contains(record));
        let k = choose|k: int| 0 <= k < records.len() && records[k] == record;
        assert(records[k] == record);
    }
}

/// The outcome of a completed click on a view.
fn click_outcome(records: &Vec<ViewRecord>, view_id: ViewId, event: &FullscreenMouseEvent) -> (r:
    ClickOutcome)
    requires
        parents_first(records@),
    ensures
        ({
            let chain = outwards(records@, Some(view_id));
            let click = ViewClickEvent {
                column: event.column,
                row: event.row,
                local_column: 0,
                local_row: 0,
                cell_is_blank: event.cell_is_blank,
                target: None,
                current_target: None,
                phase: ViewEventPhase::AtTarget,
                stopped: false,
            };
            &&& r.focus == first_focus(chain)
            &&& r.deliveries@ == deliveries_for(chain, click, view_id)
            &&& r.stops_propagation == (r.deliveries@.len() > 0)
        }),
        tells_click(records@, view_id, *event, r.deliveries@),
{
    let chain = walk_outwards(records, Some(view_id));
    let click = ViewClickEvent::new(event.column, event.row, 0, 0, event.cell_is_blank);
    let mut focus: Option<FocusTarget> = None;
    let mut deliveries: Vec<ClickDelivery> = Vec::new();
    let mut i: usize = 0;
    assert(deliveries@ =~= deliveries_for(chain@.take(0), click, view_id));
    while i < chain.len()
        invariant
            i <= chain@.len(),
            focus == first_focus(chain@.take(i as int)),
            deliveries@ == deliveries_for(chain@.take(i as int), click, view_id),
            click.column == event.column,
            click.row == event.row,
            click.cell_is_blank == event.cell_is_blank,
            !click.stopped,
        decreases chain@.len() - i,
    {
        let record = chain[i];
        proof {
            assert(chain@.take(i + 1).drop_last() =~= chain@.take(i as int));
            assert(chain@.take(i + 1).last() == record);
        }
        if focus.is_none() {
            focus = record.focus;
        }
        if let Some(handler) = record.on_click {
            if let Some(rect) = record.rect {
                let phase = if record.id == view_id {
                    ViewEventPhase::AtTarget
                } else {
                    ViewEventPhase::Bubbling
                };
                let event = click.for_dispatch(
                    phase,
                    Some(view_id),
                    Some(record.id),
                    local_cell(click.column, rect.left),
                    local_cell(click.row, rect.top),
                );
                deliveries.push(ClickDelivery { handler, event });
            }
        }
        i = i + 1;
    }
    assert(chain@.take(i as int) =~= chain@);
    proof {
        lemma_handlers_are_told(records@, view_id, click, *event);
    }
    let stops_propagation = deliveries.len() > 0;
    ClickOutcome { focus, deliveries, stops_propagation }
}

/// Handles an event of the mouse for a view: only the topmost view on the cell takes
/// part.
pub fn handle_click(
    records: &Vec<ViewRecord>,
    view_id: ViewId,
    pending: &mut Option<PendingClick>,
    event: &FullscreenMouseEvent,
) -> (outcome: Option<ClickOutcome>)
    requires
        parents_first(records@),
    ensures
        ({
            let top = topmost(records@, event.column as int, event.row as int);
            let is_target = top >= 0 && records@[top].id == view_id;
            &&& *final(pending) == if is_target {
                pressed_after(*old(pending), *event)
            } else {
                *old(pending)
            }
            &&& outcome is Some == (is_target && completes_click(*old(pending), *event))
        }),
        outcome matches Some(r) ==> {
            let chain = outwards(records@, Some(view_id));
            let click = ViewClickEvent {
                column: event.column,
                row: event.row,
                local_column: 0,
                local_row: 0,
                cell_is_blank: event.cell_is_blank,
                target: None,
                current_target: None,
                phase: ViewEventPhase::AtTarget,
                stopped: false,
            };
            &&& r.focus == first_focus(chain)
            &&& r.deliveries@ == deliveries_for(chain, click, view_id)
            &&& r.stops_propagation == (r.deliveries@.len() > 0)
        },
        outcome matches Some(r) ==> tells_click(records@, view_id, *event, r.deliveries@),
        outcome is Some <==> is_clicked(records@, view_id, *old(pending), *event),
{
    proof {
        lemma_clicked(records@, view_id, *pending, *event);
    }
    match find_topmost(records, event.column, event.row) {
        Some(k) => {
            if records[k].id != view_id {
                return None;
            }
        },
        None => {
            return None;
        },
    }
    match event.kind {
        MouseEventKind::Down(MouseButton::Left) => {
            *pending = Some(
                PendingClick { column: event.column, row: event.row, dragged: false },
            );
            None
        },
        MouseEventKind::Down(_) => {
            *pending = None;
            None
        },
        MouseEventKind::Drag(MouseButton::Left) => {
            if let Some(click) = *pending {
                if click.column != event.column || click.row != event.row {
                    *pending = Some(
                        PendingClick { column: click.column, row: click.row, dragged: true },
                    );
                }
            }
            None
        },
        MouseEventKind::Up(MouseButton::Left) => {
            let before: Option<PendingClick> = *pending;
            *pending = None;
            match before {
                Some(click) => {
                    if click.dragged {
                        None
                    } else {
                        Some(click_outcome(records, view_id, event))
                    }
                },
                None => None,
            }
        },
        _ => None,
    }
}

/// Without a drag, a press and a release of the left button on a view make a click.
pub proof fn lemma_press_and_release_click(
    pending: Option<PendingClick>,
    press: FullscreenMouseEvent,
    release: FullscreenMouseEvent,
)
    requires
        press.kind == MouseEventKind::Down(MouseButton::Left),
        release.kind == MouseEventKind::Up(MouseButton::Left),
    ensures
        completes_click(pressed_after(pending, press), release),
        pressed_after(pressed_after(pending, press), release) is None,
{
}

/// A press that is dragged to another cell of the view makes no click, wherever it is released.
pub proof fn lemma_drag_is_no_click(
    pending: Option<PendingClick>,
    press: FullscreenMouseEvent,
    drag: FullscreenMouseEvent,
    release: FullscreenMouseEvent,
)
    requires
        press.kind == MouseEventKind::Down(MouseButton::Left),
        drag.kind == MouseEventKind::Drag(MouseButton::Left),
        drag.column != press.column || drag.row != press.row,
    ensures
        !completes_click(pressed_after(pressed_after(pending, press), drag), release),
{
}

/// The views of a frame, in the order in which they were registered, and the views that
/// the pointer is over.
#[derive(Debug)]
pub struct ViewRegistry {
    records: Vec<ViewRecord>,
    hovered: Vec<ViewId>,
}

/// What a [`ViewRegistry`] holds.
pub struct RegistryModel {
    pub records: Seq<ViewRecord>,
    pub hovered: Seq<ViewId>,
}

impl View for ViewRegistry {
    type V = RegistryModel;

    closed spec fn view(&self) -> RegistryModel {
        RegistryModel { records: self.records@, hovered: self.hovered@ }
    }
}

impl ViewRegistry {
    /// Every view is registered after the view that it is inside of.
    pub open spec fn wf(self) -> bool {
        parents_first(self@.records)
    }

    /// No view, and the pointer over none.
    pub fn new() -> (r: Self)
        ensures
            r@ == (RegistryModel { records: Seq::empty(), hovered: Seq::empty() }),
            r.wf(),
    {
        ViewRegistry { records: Vec::new(), hovered: Vec::new() }
    }

    /// Forgets the views of the last frame. The pointer stays over the views that it was
    /// over.
    pub fn begin_root_event_frame(&mut self)
        ensures
            final(self)@ == (RegistryModel { records: Seq::empty(), ..old(self)@ }),
            final(self).wf(),
    {
        self.records = Vec::new();
        assert(self@.records =~= Seq::empty());
    }

    /// Registers a view, after the view that it is inside of.
    pub fn register(&mut self, record: ViewRecord)
        requires
            old(self).wf(),
            record.parent matches Some(parent) ==> index_of(old(self)@.records, parent) < old(
                self,
            )@.records.len(),
        ensures
            final(self)@ == (RegistryModel {
                records: old(self)@.records.push(record),
                ..old(self)@
            }),
            final(self).wf(),
    {
        let ghost before = self.records@;
        self.records.push(record);
        proof {
            let after = self.records@;
            assert(after.drop_last() =~= before);
            assert forall|i: int| 0 <= i < after.len() implies ((#[trigger] after[i]).parent
                matches Some(parent) ==> index_of(after, parent) < i) by {
                if i < before.len() {
                    assert(after[i] == before[i]);
                }
            }
        }
    }

    /// Records the cells that a view was drawn on.
    pub fn set_rect(&mut self, id: ViewId, rect: Rect)
        requires
            old(self).wf(),
        ensures
            final(self)@.hovered == old(self)@.hovered,
            ({
                let k = index_of(old(self)@.records, id);
                final(self)@.records == if k < old(self)@.records.len() {
                    old(self)@.records.update(
                        k,
                        ViewRecord { rect: Some(rect), ..old(self)@.records[k] },
                    )
                } else {
                    old(self)@.records
                }
            }),
            final(self).wf(),
    {
        if let Some(k) = find_record(&self.records, id) {
            let ghost before = self.records@;
            let mut record = self.records[k];
            record.rect = Some(rect);
            self.records[k] = record;
            proof {
                let after = self.records@;
                assert forall|i: int| 0 <= i < after.len() implies ((#[trigger] after[i]).parent
                    matches Some(parent) ==> index_of(after, parent) < i) by {
                    assert(after[i].parent == before[i].parent);
                    if let Some(parent) = after[i].parent {
                        lemma_same_ids(before, after, parent);
                    }
                }
            }
        }
    }

    /// Follows the pointer; see [`dispatch_hover`]. Only a move, a press or a drag is
    /// followed, and only where a view has a handler for it.
    pub fn handle_pointer(&mut self, event: &FullscreenMouseEvent) -> (calls: Vec<u64>)
        requires
            old(self).wf(),
        ensures
            final(self)@.records == old(self)@.records,
            final(self).wf(),
            ({
                let records = old(self)@.records;
                let follows = (event.kind is Moved || event.kind is Down || event.kind is Drag)
                    && exists|i: int|
                    0 <= i < records.len() && (#[trigger] records[i]).follows_pointer();
                let hovered = hovered_at(records, event.column as int, event.row as int);
                if follows {
                    &&& final(self)@.hovered == hovered
                    &&& calls@ == leaving(records, old(self)@.hovered, hovered) + entering(
                        records,
                        old(self)@.hovered,
                        hovered,
                    )
                } else {
                    final(self)@.hovered == old(self)@.hovered && calls@.len() == 0
                }
            }),
    {
        let moves = match event.kind {
            MouseEventKind::Moved => true,
            MouseEventKind::Down(_) => true,
            MouseEventKind::Drag(_) => true,
            _ => false,
        };
        if !moves {
            return Vec::new();
        }
        let mut i: usize = 0;
        let mut followed = false;
        while i < self.records.len() && !followed
            invariant
                i <= self.records@.len(),
                self@ == old(self)@,
                followed ==> exists|k: int|
                    0 <= k < self.records@.len() && (
                    #[trigger] self.records@[k]).follows_pointer(),
                !followed ==> forall|k: int|
                    0 <= k < i ==> !(#[trigger] self.records@[k]).follows_pointer(),
            decreases self.records@.len() - i,
        {
            if self.records[i].on_enter.is_some() || self.records[i].on_leave.is_some() {
                assert(self.records@[i as int].follows_pointer());
                followed = true;
            }
            i = i + 1;
        }
        if !followed {
            return Vec::new();
        }
        dispatch_hover(&self.records, &mut self.hovered, event.column, event.row)
    }

    /// Handles an event of the mouse for a view; see [`handle_click`].
    pub fn click(
        &self,
        view_id: ViewId,
        pending: &mut Option<PendingClick>,
        event: &FullscreenMouseEvent,
    ) -> (outcome: Option<ClickOutcome>)
        requires
            self.wf(),
        ensures
            ({
                let top = topmost(self@.records, event.column as int, event.row as int);
                let is_target = top >= 0 && self@.records[top].id == view_id;
                &&& *final(pending) == if is_target {
                    pressed_after(*old(pending), *event)
                } else {
                    *old(pending)
                }
                &&& outcome is Some == (is_target && completes_click(*old(pending), *event))
            }),
            outcome matches Some(r) ==> {
                let chain = outwards(self@.records, Some(view_id));
                let click = ViewClickEvent {
                    column: event.column,
                    row: event.row,
                    local_column: 0,
                    local_row: 0,
                    cell_is_blank: event.cell_is_blank,
                    target: None,
                    current_target: None,
                    phase: ViewEventPhase::AtTarget,
                    stopped: false,
                };
                &&& r.focus == first_focus(chain)
                &&& r.deliveries@ == deliveries_for(chain, click, view_id)
                &&& r.stops_propagation == (r.deliveries@.len() > 0)
            },
            outcome matches Some(r) ==> tells_click(
                self@.records,
                view_id,
                *event,
                r.deliveries@,
            ),
            outcome is Some <==> is_clicked(self@.records, view_id, *old(pending), *event),
    {
        handle_click(&self.records, view_id, pending, event)
    }
}

proof fn lemma_same_ids(a: Seq<ViewRecord>, b: Seq<ViewRecord>, id: ViewId)
    requires
        a.len() == b.len(),
        forall|i: int| 0 <= i < a.len() ==> (#[trigger] a[i]).id == b[i].id,
    ensures
        index_of(a, id) == index_of(b, id),
    decreases a.len(),
{
    if a.len() > 0 {
        let before = a.drop_last();
        let after = b.drop_last();
        assert forall|i: int| 0 <= i < before.len() implies (#[trigger] before[i]).id
            == after[i].id by {
            assert(before[i] == a[i]);
        }
        lemma_same_ids(before, after, id);
        assert(a[a.len() - 1].id == b[a.len() - 1].id);
    }
}

/// Whether a click on a cell is handed to a handler as it was made: with the cell, counted
/// from the top left of the screen and of the view, with the view that was clicked, and with
/// the view that the handler is one of.
pub open spec fn hands_click(
    record: ViewRecord,
    target: ViewId,
    click: ViewClickEvent,
    delivery: ClickDelivery,
) -> bool {
    &&& record.on_click == Some(delivery.handler)
    &&& delivery.event.column == click.column
    &&& delivery.event.row == click.row
    &&& record.rect is Some
    &&& record.rect->0.left <= click.column < record.rect->0.left + 0x1_0000
        ==> record.rect->0.left + delivery.event.local_column == click.column
    &&& record.rect->0.top <= click.row < record.rect->0.top + 0x1_0000 ==> record.rect->0.top
        + delivery.event.local_row == click.row
    &&& delivery.event.target == Some(target)
    &&& delivery.event.current_target == Some(record.id)
    &&& delivery.event.phase == ViewEventPhase::AtTarget <==> record.id == target
    &&& delivery.event.phase == ViewEventPhase::Bubbling <==> record.id != target
    &&& delivery.event.cell_is_blank == click.cell_is_blank
    &&& delivery.event.stopped == click.stopped
}

/// Whether the calls of a click are those of the views at the given places of a chain, in
/// order, and every view that has a handler for clicks and was drawn is at one of them.
pub open spec fn delivers_along(
    chain: Seq<ViewRecord>,
    target: ViewId,
    click: ViewClickEvent,
    deliveries: Seq<ClickDelivery>,
    places: Seq<int>,
) -> bool {
    &&& places.len() == deliveries.len()
    &&& forall|i: int| 0 <= i < places.len() ==> 0 <= #[trigger] places[i] < chain.len()
    &&& forall|i: int, j: int| 0 <= i < j < places.len() ==> places[i] < places[j]
    &&& forall|i: int|
        0 <= i < places.len() ==> hands_click(
            chain[#[trigger] places[i]],
            target,
            click,
            deliveries[i],
        )
    &&& forall|k: int|
        0 <= k < chain.len() && (#[trigger] chain[k]).on_click is Some && chain[k].rect is Some
            ==> places.contains(k)
}

/// A click is delivered to every view of a chain that has a handler and was drawn, in the
/// order of the chain, and each handler learns where in its own view the click was.
pub proof fn lemma_click_is_delivered_along_chain(
    chain: Seq<ViewRecord>,
    click: ViewClickEvent,
    target: ViewId,
) -> (places: Seq<int>)
    ensures
        delivers_along(chain, target, click, deliveries_for(chain, click, target), places),
    decreases chain.len(),
{
    if chain.len() == 0 {
        Seq::empty()
    } else {
        let before = chain.drop_last();
        let earlier = lemma_click_is_delivered_along_chain(before, click, target);
        let last: int = chain.len() - 1;
        let places = if delivery_for(chain.last(), click, target) is Some {
            earlier.push(last)
        } else {
            earlier
        };
        let deliveries = deliveries_for(chain, click, target);
        let fewer = deliveries_for(before, click, target);
        assert forall|i: int| 0 <= i < places.len() implies hands_click(
            chain[#[trigger] places[i]],
            target,
            click,
            deliveries[i],
        ) by {
            if i < earlier.len() {
                assert(places[i] == earlier[i]);
                assert(chain[places[i]] == before[earlier[i]]);
                assert(hands_click(before[earlier[i]], target, click, fewer[i]));
            } else {
                let record = chain.last();
                let delivery = deliveries[i];
                assert(delivery == delivery_for(record, click, target)->0);
                let rect = record.rect->0;
                if rect.left <= click.column < rect.left + 0x1_0000 {
                    assert(local(click.column as int, rect.left as int) == click.column
                        - rect.left);
                }
                if rect.top <= click.row < rect.top + 0x1_0000 {
                    assert(local(click.row as int, rect.top as int) == click.row - rect.top);
                }
            }
        }
        assert forall|k: int|
            0 <= k < chain.len() && (#[trigger] chain[k]).on_click is Some && chain[k].rect
                is Some implies places.contains(k) by {
            if k < last {
                assert(before[k] == chain[k]);
                assert(earlier.contains(k));
                let i = choose|i: int| 0 <= i < earlier.len() && earlier[i] == k;
                assert(places[i] == k);
            } else {
                assert(places[places.len() - 1] == k);
            }
        }
        places
    }
}

/// Every handler that a click calls is told the cell of the click inside of its own view,
/// where that view was drawn on the cell, and the cell is no further from its start than a
/// 16-bit number can say.
pub proof fn lemma_click_is_local(
    records: Seq<ViewRecord>,
    from: Option<ViewId>,
    click: ViewClickEvent,
    target: ViewId,
    i: int,
)
    requires
        0 <= i < deliveries_for(outwards(records, from), click, target).len(),
    ensures
        ({
            let delivery = deliveries_for(outwards(records, from), click, target)[i];
            exists|k: int|
                {
                    let record = #[trigger] outwards(records, from)[k];
                    &&& 0 <= k < outwards(records, from).len()
                    &&& delivery.event.current_target == Some(record.id)
                    &&& record.on_click == Some(delivery.handler)
                    &&& record.covers(click.column as int, click.row as int) ==> {
                        &&& click.column - record.rect->0.left <= u16::MAX
                            ==> record.rect->0.left + delivery.event.local_column
                            == delivery.event.column
                        &&& click.row - record.rect->0.top <= u16::MAX ==> record.rect->0.top
                            + delivery.event.local_row == delivery.event.row
                    }
                    &&& delivery.event.column == click.column && delivery.event.row == click.row
                }
        }),
{
    let chain = outwards(records, from);
    let places = lemma_click_is_delivered_along_chain(chain, click, target);
    let record = chain[places[i]];
    assert(hands_click(record, target, click, deliveries_for(chain, click, target)[i]));
}

proof fn lemma_ancestry(records: Seq<ViewRecord>, from: Option<ViewId>, limit: int)
    requires
        parents_first(records),
        limit <= records.len(),
        from matches Some(id) ==> index_of(records, id) < limit || limit == records.len(),
    ensures
        ({
            let chain = ancestry(records, from, limit);
            &&& chain.len() > 0 ==> from == Some(chain[0].id)
            &&& from matches Some(id) ==> (chain.len() == 0 ==> forall|k: int|
                0 <= k < records.len() ==> (#[trigger] records[k]).id != id)
            &&& forall|i: int| 0 <= i < chain.len() ==> records.contains(#[trigger] chain[i])
            &&& forall|i: int|
                0 <= i < chain.len() - 1 ==> (#[trigger] chain[i]).parent == Some(
                    chain[i + 1].id,
                )
            &&& chain.len() > 0 ==> (chain.last().parent matches Some(parent) ==> forall|k: int|
                0 <= k < records.len() ==> (#[trigger] records[k]).id != parent)
        }),
    decreases limit,
{
    if let Some(id) = from {
        lemma_index_of(records, id);
        let k: int = index_of(records, id);
        if 0 <= k < limit && k < records.len() {
            let record = records[k];
            if let Some(parent) = record.parent {
                assert(index_of(records, parent) < k);
            }
            lemma_ancestry(records, record.parent, k);
            let rest = ancestry(records, record.parent, k);
            let chain = ancestry(records, from, limit);
            assert(records.contains(record));
            assert forall|i: int| 0 <= i < chain.len() implies records.contains(
                #[trigger] chain[i],
            ) by {
                if i > 0 {
                    assert(chain[i] == rest[i - 1]);
                }
            }
            assert forall|i: int| 0 <= i < chain.len() - 1 implies (#[trigger] chain[i]).parent
                == Some(chain[i + 1].id) by {
                assert(chain[i + 1] == rest[i]);
                if i > 0 {
                    assert(chain[i] == rest[i - 1]);
                }
            }
            if rest.len() > 0 {
                assert(chain.last() == rest.last());
            }
        }
    }
}

/// The views from one outwards start with that view, and each of them is followed by the one
/// that it is inside of, up to one that is inside of none that is registered.
pub proof fn lemma_chain_goes_outwards(records: Seq<ViewRecord>, id: ViewId)
    requires
        parents_first(records),
    ensures
        ({
            let chain = outwards(records, Some(id));
            &&& chain.len() == 0 ==> forall|k: int|
                0 <= k < records.len() ==> (#[trigger] records[k]).id != id
            &&& chain.len() > 0 ==> chain[0].id == id
            &&& forall|i: int| 0 <= i < chain.len() ==> records.contains(#[trigger] chain[i])
            &&& forall|i: int|
                0 <= i < chain.len() - 1 ==> (#[trigger] chain[i]).parent == Some(
                    chain[i + 1].id,
                )
            &&& chain.len() > 0 ==> (chain.last().parent matches Some(parent) ==> forall|k: int|
                0 <= k < records.len() ==> (#[trigger] records[k]).id != parent)
        }),
{
    lemma_ancestry(records, Some(id), records.len() as int);
}

/// The topmost view on a cell was drawn on it, and no view that was registered later was.
pub proof fn lemma_topmost_is_last_drawn(records: Seq<ViewRecord>, column: int, row: int)
    ensures
        ({
            let top = topmost(records, column, row);
            let drawn = |record: ViewRecord|
                record.rect is Some && record.rect->0.left <= column < record.rect->0.right
                    && record.rect->0.top <= row < record.rect->0.bottom;
            &&& -1 <= top < records.len()
            &&& top >= 0 ==> drawn(records[top])
            &&& forall|k: int| top < k < records.len() ==> !drawn(#[trigger] records[k])
        }),
    decreases records.len(),
{
    if records.len() > 0 && !records.last().covers(column, row) {
        let before = records.drop_last();
        lemma_topmost_is_last_drawn(before, column, row);
        assert forall|k: int|
            topmost(records, column, row) < k < records.len() implies !(
        #[trigger] records[k]).covers(column, row) by {
            if k < before.len() {
                assert(before[k] == records[k]);
            }
        }
    }
}

/// A click focuses the entry of the first view of a chain that has one.
pub proof fn lemma_click_focuses_the_first(chain: Seq<ViewRecord>)
    ensures
        first_focus(chain) is None ==> forall|k: int|
            0 <= k < chain.len() ==> (#[trigger] chain[k]).focus is None,
        first_focus(chain) is Some ==> exists|k: int|
            0 <= k < chain.len() && (#[trigger] chain[k]).focus == first_focus(chain) && forall|
                j: int,
            |
                0 <= j < k ==> (#[trigger] chain[j]).focus is None,
    decreases chain.len(),
{
    if chain.len() > 0 {
        let before = chain.drop_last();
        lemma_click_focuses_the_first(before);
        if first_focus(before) is Some {
            let k = choose|k: int|
                0 <= k < before.len() && (#[trigger] before[k]).focus == first_focus(before)
                    && forall|j: int| 0 <= j < k ==> (#[trigger] before[j]).focus is None;
            assert(chain[k].focus == first_focus(chain));
            assert forall|j: int| 0 <= j < k implies (#[trigger] chain[j]).focus is None by {
                assert(before[j] == chain[j]);
            }
        } else {
            assert forall|j: int| 0 <= j < chain.len() - 1 implies (
            #[trigger] chain[j]).focus is None by {
                assert(before[j] == chain[j]);
            }
            assert(chain[chain.len() - 1] == chain.last());
        }
    }
}

/// The pointer is over the views of a chain whose handlers follow it, in the order of the
/// chain.
pub proof fn lemma_following_views(chain: Seq<ViewRecord>) -> (places: Seq<int>)
    ensures
        places.len() == following(chain).len(),
        forall|i: int| 0 <= i < places.len() ==> 0 <= #[trigger] places[i] < chain.len(),
        forall|i: int, j: int| 0 <= i < j < places.len() ==> places[i] < places[j],
        forall|i: int|
            0 <= i < places.len() ==> {
                let record = chain[#[trigger] places[i]];
                following(chain)[i] == record.id && (record.on_enter is Some || record.on_leave
                    is Some)
            },
        forall|k: int|
            0 <= k < chain.len() && ((#[trigger] chain[k]).on_enter is Some || chain[k].on_leave
                is Some) ==> places.contains(k),
    decreases chain.len(),
{
    if chain.len() == 0 {
        Seq::empty()
    } else {
        let before = chain.drop_last();
        let earlier = lemma_following_views(before);
        let last: int = chain.len() - 1;
        let places = if chain.last().follows_pointer() {
            earlier.push(last)
        } else {
            earlier
        };
        assert forall|i: int| 0 <= i < places.len() implies {
            let record = chain[#[trigger] places[i]];
            following(chain)[i] == record.id && (record.on_enter is Some || record.on_leave
                is Some)
        } by {
            if i < earlier.len() {
                assert(places[i] == earlier[i]);
                assert(chain[places[i]] == before[earlier[i]]);
            }
        }
        assert forall|k: int|
            0 <= k < chain.len() && ((#[trigger] chain[k]).on_enter is Some || chain[k].on_leave
                is Some) implies places.contains(k) by {
            if k < last {
                assert(before[k] == chain[k]);
                let i = choose|i: int| 0 <= i < earlier.len() && earlier[i] == k;
                assert(places[i] == k);
            } else {
                assert(places[places.len() - 1] == k);
            }
        }
        places
    }
}

/// A pointer at a cell is over the topmost view there and the views that this one is inside
/// of, as far as their handlers follow it, and over no other.
pub proof fn lemma_hovered_views(records: Seq<ViewRecord>, column: int, row: int, id: ViewId)
    ensures
        topmost(records, column, row) < 0 ==> hovered_at(records, column, row).len() == 0,
        topmost(records, column, row) >= 0 ==> {
            let top = records[topmost(records, column, row)];
            let chain = outwards(records, Some(top.id));
            hovered_at(records, column, row).contains(id) == exists|k: int|
                0 <= k < chain.len() && (#[trigger] chain[k]).id == id && (chain[k].on_enter
                    is Some || chain[k].on_leave is Some)
        },
{
    let top = topmost(records, column, row);
    if top >= 0 {
        let chain = outwards(records, Some(records[top].id));
        let places = lemma_following_views(chain);
        let views = hovered_at(records, column, row);
        if views.contains(id) {
            let i = choose|i: int| 0 <= i < views.len() && views[i] == id;
            assert(chain[places[i]].id == id);
        }
        if exists|k: int|
            0 <= k < chain.len() && (#[trigger] chain[k]).id == id && (chain[k].on_enter is Some
                || chain[k].on_leave is Some) {
            let k = choose|k: int|
                0 <= k < chain.len() && (#[trigger] chain[k]).id == id && (chain[k].on_enter
                    is Some || chain[k].on_leave is Some);
            assert(places.contains(k));
            let i = choose|i: int| 0 <= i < places.len() && places[i] == k;
            assert(chain[places[i]].id == views[i]);
        }
    } else {
        assert(outwards(records, None).len() == 0);
    }
}

/// The handlers for the pointer going out are those of the views that it was over and is no
/// longer over, in the order of these views.
pub proof fn lemma_left_views_are_told(
    records: Seq<ViewRecord>,
    old: Seq<ViewId>,
    new: Seq<ViewId>,
) -> (places: Seq<int>)
    ensures
        places.len() == leaving(records, old, new).len(),
        forall|i: int| 0 <= i < places.len() ==> 0 <= #[trigger] places[i] < old.len(),
        forall|i: int, j: int| 0 <= i < j < places.len() ==> places[i] < places[j],
        forall|i: int|
            0 <= i < places.len() ==> {
                let id = old[#[trigger] places[i]];
                &&& !new.contains(id)
                &&& index_of(records, id) < records.len()
                &&& records[index_of(records, id)].id == id
                &&& records[index_of(records, id)].on_leave == Some(
                    leaving(records, old, new)[i],
                )
            },
        forall|k: int|
            0 <= k < old.len() && !new.contains(#[trigger] old[k]) && index_of(records, old[k])
                < records.len() && records[index_of(records, old[k])].on_leave is Some
                ==> places.contains(k),
    decreases old.len(),
{
    if old.len() == 0 {
        Seq::empty()
    } else {
        let before = old.drop_last();
        let earlier = lemma_left_views_are_told(records, before, new);
        let id = old.last();
        let at: int = index_of(records, id);
        lemma_index_of(records, id);
        let told = !new.contains(id) && at < records.len() && records[at].on_leave is Some;
        let places = if told {
            earlier.push(old.len() - 1)
        } else {
            earlier
        };
        assert forall|i: int| 0 <= i < places.len() implies {
            let id = old[#[trigger] places[i]];
            &&& !new.contains(id)
            &&& index_of(records, id) < records.len()
            &&& records[index_of(records, id)].id == id
            &&& records[index_of(records, id)].on_leave == Some(leaving(records, old, new)[i])
        } by {
            if i < earlier.len() {
                assert(places[i] == earlier[i]);
                assert(old[places[i]] == before[earlier[i]]);
            }
        }
        assert forall|k: int|
            0 <= k < old.len() && !new.contains(#[trigger] old[k]) && index_of(records, old[k])
                < records.len() && records[index_of(records, old[k])].on_leave is Some implies
            places.contains(k) by {
            if k < old.len() - 1 {
                assert(before[k] == old[k]);
                let i = choose|i: int| 0 <= i < earlier.len() && earlier[i] == k;
                assert(places[i] == k);
            } else {
                assert(places[places.len() - 1] == k);
            }
        }
        places
    }
}

/// The handlers for the pointer coming in are those of the views that it is over and was not
/// over before, in the order of these views.
pub proof fn lemma_entered_views_are_told(
    records: Seq<ViewRecord>,
    old: Seq<ViewId>,
    new: Seq<ViewId>,
) -> (places: Seq<int>)
    ensures
        places.len() == entering(records, old, new).len(),
        forall|i: int| 0 <= i < places.len() ==> 0 <= #[trigger] places[i] < new.len(),
        forall|i: int, j: int| 0 <= i < j < places.len() ==> places[i] < places[j],
        forall|i: int|
            0 <= i < places.len() ==> {
                let id = new[#[trigger] places[i]];
                &&& !old.contains(id)
                &&& index_of(records, id) < records.len()
                &&& records[index_of(records, id)].id == id
                &&& records[index_of(records, id)].on_enter == Some(
                    entering(records, old, new)[i],
                )
            },
        forall|k: int|
            0 <= k < new.len() && !old.contains(#[trigger] new[k]) && index_of(records, new[k])
                < records.len() && records[index_of(records, new[k])].on_enter is Some
                ==> places.contains(k),
    decreases new.len(),
{
    if new.len() == 0 {
        Seq::empty()
    } else {
        let before = new.drop_last();
        let earlier = lemma_entered_views_are_told(records, old, before);
        let id = new.last();
        let at: int = index_of(records, id);
        lemma_index_of(records, id);
        let told = !old.contains(id) && at < records.len() && records[at].on_enter is Some;
        let places = if told {
            earlier.push(new.len() - 1)
        } else {
            earlier
        };
        assert forall|i: int| 0 <= i < places.len() implies {
            let id = new[#[trigger] places[i]];
            &&& !old.contains(id)
            &&& index_of(records, id) < records.len()
            &&& records[index_of(records, id)].id == id
            &&& records[index_of(records, id)].on_enter == Some(entering(records, old, new)[i])
        } by {
            if i < earlier.len() {
                assert(places[i] == earlier[i]);
                assert(new[places[i]] == before[earlier[i]]);
            }
        }
        assert forall|k: int|
            0 <= k < new.len() && !old.contains(#[trigger] new[k]) && index_of(records, new[k])
                < records.len() && records[index_of(records, new[k])].on_enter is Some implies
            places.contains(k) by {
            if k < new.len() - 1 {
                assert(before[k] == new[k]);
                let i = choose|i: int| 0 <= i < earlier.len() && earlier[i] == k;
                assert(places[i] == k);
            } else {
                assert(places[places.len() - 1] == k);
            }
        }
        places
    }
}

/// A press of the left button is remembered with its cell until the button is released or
/// another one is pressed; a drag over the same cell, a move, a wheel and a release of another
/// button leave it as it is. Only a release of the left button completes a click.
pub proof fn lemma_press_is_remembered(
    pending: Option<PendingClick>,
    event: FullscreenMouseEvent,
)
    ensures
        event.kind == MouseEventKind::Down(MouseButton::Left) ==> pressed_after(pending, event)
            == Some(PendingClick { column: event.column, row: event.row, dragged: false }),
        event.kind == MouseEventKind::Down(MouseButton::Right) || event.kind
            == MouseEventKind::Down(MouseButton::Middle) || event.kind == MouseEventKind::Up(
            MouseButton::Left,
        ) ==> pressed_after(pending, event) is None,
        event.kind == MouseEventKind::Moved || event.kind == MouseEventKind::ScrollDown
            || event.kind == MouseEventKind::ScrollUp || event.kind == MouseEventKind::ScrollLeft
            || event.kind == MouseEventKind::ScrollRight || event.kind == MouseEventKind::Up(
            MouseButton::Right,
        ) || event.kind == MouseEventKind::Up(MouseButton::Middle) || event.kind
            == MouseEventKind::Drag(MouseButton::Right) || event.kind == MouseEventKind::Drag(
            MouseButton::Middle,
        ) ==> pressed_after(pending, event) == pending,
        event.kind == MouseEventKind::Drag(MouseButton::Left) ==> {
            &&& pressed_after(pending, event) is Some == pending is Some
            &&& pending matches Some(press) ==> pressed_after(pending, event) == Some(
                PendingClick {
                    column: press.column,
                    row: press.row,
                    dragged: press.dragged || !(press.column == event.column && press.row
                        == event.row),
                },
            )
        },
        completes_click(pending, event) ==> event.kind == MouseEventKind::Up(MouseButton::Left),
        event.kind == MouseEventKind::Up(MouseButton::Left) && pending is None
            ==> !completes_click(pending, event),
{
}

} // verus!
