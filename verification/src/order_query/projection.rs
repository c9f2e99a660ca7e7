//! Projection of order events into stored order rows.

use vstd::prelude::*;
use crate::order_query::event::OrderPlacedData;
use crate::projection::{Tracker, is_watermark};
use crate::text::str_eq;

verus! {

/// A row of the order query store. `updated_at` is the insertion time of
/// the last event applied to the row, in microseconds since 1970-01-01
/// 00:00:00.
#[derive(Debug, Clone, PartialEq)]
pub struct OrderRow {
    pub entity_id: String,
    pub customer_id: String,
    pub date: Option<i32>,
    pub frame_color: Option<String>,
    pub frame_id: String,
    pub owner_id: String,
    pub quantity: i32,
    pub total_bits: u32,
    pub processed: bool,
    pub rejected: bool,
    pub updated_at: i64,
}

/// What an event of the order stream does to the query store.
#[derive(Debug, Clone, Copy, PartialEq, Eq)]
pub enum OrderEventKind {
    /// Inserts a new row.
    Placed,
    /// Sets the row processed and not rejected.
    Processed,
    /// Sets the row rejected and not processed.
    Rejected,
    /// Changes nothing.
    Unknown,
}

pub open spec fn order_event_kind_of(event_type: Seq<char>) -> OrderEventKind {
    if event_type == "OrderPlaced"@ {
        OrderEventKind::Placed
    } else if event_type == "OrderProcessed"@ {
        OrderEventKind::Processed
    } else if event_type == "OrderRejected"@ {
        OrderEventKind::Rejected
    } else {
        OrderEventKind::Unknown
    }
}

/// The (processed, rejected) flags an event sets, if it sets them.
pub open spec fn status_of(kind: OrderEventKind) -> Option<(bool, bool)> {
    match kind {
        OrderEventKind::Processed => Some((true, false)),
        OrderEventKind::Rejected => Some((false, true)),
        _ => None,
    }
}

/// What an event of the given type does to the query store.
pub fn order_event_kind(event_type: &str) -> (k: OrderEventKind)
    ensures
        k == order_event_kind_of(event_type@),
{
    if str_eq(event_type, "OrderPlaced") {
        OrderEventKind::Placed
    } else if str_eq(event_type, "OrderProcessed") {
        OrderEventKind::Processed
    } else if str_eq(event_type, "OrderRejected") {
        OrderEventKind::Rejected
    } else {
        OrderEventKind::Unknown
    }
}

/// The (processed, rejected) flags an event sets, if it sets them.
pub fn status_change(kind: OrderEventKind) -> (s: Option<(bool, bool)>)
    ensures
        s == status_of(kind),
{
    match kind {
        OrderEventKind::Processed => Some((true, false)),
        OrderEventKind::Rejected => Some((false, true)),
        _ => None,
    }
}

impl OrderRow {
    /// The row an `OrderPlaced` event of `entity_id`, inserted at
    /// `inserted_at`, is stored as: neither processed nor rejected.
    pub fn placed(entity_id: String, body: OrderPlacedData, inserted_at: i64) -> (row: OrderRow)
        ensures
            row.entity_id == entity_id,
            row.customer_id == body.customer_id,
            row.date == body.date,
            row.frame_color == body.frame_color,
            row.frame_id == body.frame_id,
            row.owner_id == body.owner_id,
            row.quantity == body.quantity,
            row.total_bits == body.total_bits,
            !row.processed,
            !row.rejected,
            row.updated_at == inserted_at,
    {
        OrderRow {
            entity_id,
            customer_id: body.customer_id,
            date: body.date,
            frame_color: body.frame_color,
            frame_id: body.frame_id,
            owner_id: body.owner_id,
            quantity: body.quantity,
            total_bits: body.total_bits,
            processed: false,
            rejected: false,
            updated_at: inserted_at,
        }
    }
}

/// The state of the order projection: the orders it has applied events to.
pub struct OrderProjection {
    pub tracker: Tracker,
}

impl OrderProjection {
    /// A projection that has applied nothing.
    pub fn new() -> (p: OrderProjection)
        ensures
            p.tracker.view() =~= Map::<Seq<char>, i64>::empty(),
    {
        OrderProjection { tracker: Tracker::new() }
    }

    /// The time after which events are read next: the latest one applied,
    /// or the epoch.
    pub fn read_after(&self) -> (w: i64)
        ensures
            is_watermark(self.tracker.view(), w),
    {
        self.tracker.watermark()
    }

    /// Records that an event of `entity_id` inserted at `inserted_at` was
    /// applied (or found to change nothing).
    pub fn applied(&mut self, entity_id: String, inserted_at: i64)
        ensures
            final(self).tracker.view() == old(self).tracker.view().insert(entity_id@, inserted_at),
    {
        self.tracker.track(entity_id, inserted_at);
    }
}

/// What one event of `entity_id` does to the order query store, the store
/// reduced to what the status flags need: for each row, its entity id and
/// its (processed, rejected) flags.
pub open spec fn apply_order_event(
    table: Seq<(Seq<char>, (bool, bool))>,
    entity_id: Seq<char>,
    kind: OrderEventKind,
) -> Seq<(Seq<char>, (bool, bool))> {
    match kind {
        OrderEventKind::Placed => table.push((entity_id, (false, false))),
        OrderEventKind::Unknown => table,
        _ => Seq::new(
            table.len(),
            |i: int|
                if table[i].0 == entity_id {
                    (table[i].0, status_of(kind).unwrap())
                } else {
                    table[i]
                },
        ),
    }
}

/// The store after the events `events` (entity id, kind) are applied one
/// after another.
pub open spec fn apply_order_events(
    table: Seq<(Seq<char>, (bool, bool))>,
    events: Seq<(Seq<char>, OrderEventKind)>,
) -> Seq<(Seq<char>, (bool, bool))>
    decreases events.len(),
{
    if events.len() == 0 {
        table
    } else {
        let before = apply_order_events(table, events.drop_last());
        apply_order_event(before, events.last().0, events.last().1)
    }
}

/// No row is both processed and rejected.
pub open spec fn flags_exclusive(table: Seq<(Seq<char>, (bool, bool))>) -> bool {
    forall|i: int| 0 <= i < table.len() ==> !((#[trigger] table[i]).1.0 && table[i].1.1)
}

/// No stored order is ever both processed and rejected: a placed order is
/// stored as neither, and every status event sets exactly one of the two
/// flags, so this holds after any number of events of any kind.
pub proof fn lemma_flags_stay_exclusive(
    table: Seq<(Seq<char>, (bool, bool))>,
    events: Seq<(Seq<char>, OrderEventKind)>,
)
    requires
        flags_exclusive(table),
    ensures
        flags_exclusive(apply_order_events(table, events)),
    decreases events.len(),
{
    if events.len() > 0 {
        lemma_flags_stay_exclusive(table, events.drop_last());
        let before = apply_order_events(table, events.drop_last());
        let after = apply_order_event(before, events.last().0, events.last().1);
        assert forall|i: int| 0 <= i < after.len() implies !((#[trigger] after[i]).1.0 && after[i].1.1) by {
            if events.last().1 == OrderEventKind::Placed && i == before.len() {
            } else {
                assert(i < before.len());
                assert(!(before[i].1.0 && before[i].1.1));
            }
        }
    }
}

} // verus!
