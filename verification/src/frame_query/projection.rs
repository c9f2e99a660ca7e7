//! Projection of `FrameCreated` events into stored frame rows.

use vstd::prelude::*;
use crate::frame_query::event::FrameCreatedData;
use crate::frame_query::frame::Frame;
use crate::frame_query::frame::get::lists_read_back;
use crate::projection::Tracker;
use crate::text::{join_exec, join_with, lemma_split_join};

verus! {

/// A row of the frame query store. The list columns hold the list items
/// joined with commas; `price_bits` holds the IEEE-754 bits of the price;
/// `updated_at` is the insertion time of the event the row came from, in
/// microseconds since 1970-01-01 00:00:00.
#[derive(Debug, Clone, PartialEq)]
pub struct FrameRow {
    pub entity_id: String,
    pub brand_name: String,
    pub colors: String,
    pub cover_image: Option<String>,
    pub description: Option<String>,
    pub has_case: bool,
    pub materials: String,
    pub model_name: String,
    pub other_images: String,
    pub owner_id: String,
    pub price_bits: u32,
    pub privacy_mode: i16,
    pub updated_at: i64,
}

/// The lists of a `FrameCreated` body as they are stored.
pub open spec fn lists_stored(body: FrameCreatedData, row: FrameRow) -> bool {
    &&& row.colors@ == join_with(body.colors.deep_view(), ',')
    &&& row.materials@ == join_with(body.materials.deep_view(), ',')
    &&& row.other_images@ == join_with(body.other_images.deep_view(), ',')
}

/// A list that survives being stored in one comma-joined column: it has an
/// item, and no item holds a comma.
pub open spec fn storable_list(xs: Seq<Seq<char>>) -> bool {
    &&& xs.len() >= 1
    &&& forall|i: int| 0 <= i < xs.len() ==> !(#[trigger] xs[i]).contains(',')
}

impl FrameRow {
    /// The row a `FrameCreated` event of `entity_id`, inserted at
    /// `inserted_at`, is stored as.
    pub fn from_event(entity_id: String, body: FrameCreatedData, inserted_at: i64) -> (row: FrameRow)
        ensures
            row.entity_id == entity_id,
            row.brand_name == body.brand_name,
            row.cover_image == body.cover_image,
            row.description == body.description,
            row.has_case == body.has_case,
            row.model_name == body.model_name,
            row.owner_id == body.owner_id,
            row.price_bits == body.price_bits,
            row.privacy_mode == body.privacy_mode,
            row.updated_at == inserted_at,
            lists_stored(body, row),
    {
        let colors = join_exec(&body.colors, ',');
        let materials = join_exec(&body.materials, ',');
        let other_images = join_exec(&body.other_images, ',');
        FrameRow {
            entity_id,
            brand_name: body.brand_name,
            colors,
            cover_image: body.cover_image,
            description: body.description,
            has_case: body.has_case,
            materials,
            model_name: body.model_name,
            other_images,
            owner_id: body.owner_id,
            price_bits: body.price_bits,
            privacy_mode: body.privacy_mode,
            updated_at: inserted_at,
        }
    }
}

/// A frame stored from a `FrameCreated` body and read back has the body's
/// lists, as long as each list has an item and no item holds a comma.
pub proof fn lemma_frame_lists_round_trip(body: FrameCreatedData, row: FrameRow, frame: Frame)
    requires
        lists_stored(body, row),
        lists_read_back(row, frame),
        storable_list(body.colors.deep_view()),
        storable_list(body.materials.deep_view()),
        storable_list(body.other_images.deep_view()),
    ensures
        frame.colors.deep_view() == body.colors.deep_view(),
        frame.materials.deep_view() == body.materials.deep_view(),
        frame.other_images.deep_view() == body.other_images.deep_view(),
{
    lemma_split_join(body.colors.deep_view(), ',');
    lemma_split_join(body.materials.deep_view(), ',');
    lemma_split_join(body.other_images.deep_view(), ',');
}

/// Whether the frame projection stores a `FrameCreated` event of
/// `entity_id`: only when the entity was not tracked when the round began.
pub open spec fn frame_needs_insert(tracked_at_round_start: Seq<Seq<char>>, entity_id: Seq<char>) -> bool {
    !tracked_at_round_start.contains(entity_id)
}

/// An event is stored exactly when its frame was not tracked when the round
/// began, however many frames are tracked: a new frame is always stored,
/// and a tracked one never again.
pub proof fn lemma_needs_insert_iff_untracked(snapshot: Seq<Seq<char>>, entity_id: Seq<char>)
    ensures
        frame_needs_insert(snapshot, entity_id) <==> forall|i: int| 0 <= i < snapshot.len() ==> snapshot[i] != entity_id,
        forall|other: Seq<char>|
            #![trigger snapshot.push(other)]
            other != entity_id ==> frame_needs_insert(snapshot.push(other), entity_id) == frame_needs_insert(snapshot, entity_id),
{
    assert forall|other: Seq<char>|
        #![trigger snapshot.push(other)]
        other != entity_id implies frame_needs_insert(snapshot.push(other), entity_id) == frame_needs_insert(snapshot, entity_id) by {
        let t = snapshot.push(other);
        if t.contains(entity_id) {
            let i = choose|i: int| 0 <= i < t.len() && t[i] == entity_id;
            assert(i < snapshot.len());
            assert(snapshot[i] == entity_id);
        }
        if snapshot.contains(entity_id) {
            let i = choose|i: int| 0 <= i < snapshot.len() && snapshot[i] == entity_id;
            assert(t[i] == entity_id);
        }
    }
}

/// Once a frame is stored and tracked, a later round finds it in its
/// snapshot and does not store it again.
pub proof fn lemma_stored_frame_not_stored_again(
    known: Map<Seq<char>, i64>,
    entity_id: Seq<char>,
    inserted_at: i64,
    later_snapshot: Seq<Seq<char>>,
)
    requires
        forall|k: Seq<char>| #[trigger] known.insert(entity_id, inserted_at).dom().contains(k) <==> later_snapshot.contains(k),
    ensures
        !frame_needs_insert(later_snapshot, entity_id),
{
    assert(known.insert(entity_id, inserted_at).dom().contains(entity_id));
}

/// The state of the frame projection: the frames already stored.
pub struct FrameProjection {
    pub tracker: Tracker,
}

impl FrameProjection {
    /// A projection that has stored nothing.
    pub fn new() -> (p: FrameProjection)
        ensures
            p.tracker.view() =~= Map::<Seq<char>, i64>::empty(),
    {
        FrameProjection { tracker: Tracker::new() }
    }

    /// The frames tracked when a round begins.
    pub fn round_snapshot(&self) -> (ids: Vec<String>)
        ensures
            forall|k: Seq<char>| #[trigger] self.tracker.view().dom().contains(k) <==> ids.deep_view().contains(k),
            ids.deep_view().no_duplicates(),
    {
        self.tracker.entity_ids()
    }

    /// Whether an event of `entity_id` is to be stored in this round.
    pub fn needs_insert(snapshot: &Vec<String>, entity_id: &str) -> (r: bool)
        ensures
            r == frame_needs_insert(snapshot.deep_view(), entity_id@),
    {
        let mut i: usize = 0;
        while i < snapshot.len()
            invariant
                i <= snapshot@.len(),
                forall|j: int| 0 <= j < i ==> snapshot.deep_view()[j] != entity_id@,
            decreases snapshot@.len() - i,
        {
            if crate::text::str_eq(snapshot[i].as_str(), entity_id) {
                assert(snapshot.deep_view()[i as int] == entity_id@);
                return false;
            }
            i = i + 1;
        }
        assert(!snapshot.deep_view().contains(entity_id@));
        true
    }

    /// Records that the frame `entity_id` was stored from an event inserted
    /// at `inserted_at`.
    pub fn stored(&mut self, entity_id: String, inserted_at: i64)
        ensures
            final(self).tracker.view() == old(self).tracker.view().insert(entity_id@, inserted_at),
    {
        self.tracker.track(entity_id, inserted_at);
    }
}

/// One round of the frame projection over the `FrameCreated` events it read
/// (entity id, and whether storing the row succeeded), the query store
/// reduced to the entity ids of its rows, with the entities tracked, and the
/// entities that were tracked when the round began. An event is stored, and
/// its entity tracked, when its entity was not tracked at the start of the
/// round and the insert succeeded.
pub open spec fn frame_round(
    table: Seq<Seq<char>>,
    known: Set<Seq<char>>,
    snapshot: Set<Seq<char>>,
    events: Seq<(Seq<char>, bool)>,
) -> (Seq<Seq<char>>, Set<Seq<char>>)
    decreases events.len(),
{
    if events.len() == 0 {
        (table, known)
    } else {
        let (t, k) = frame_round(table, known, snapshot, events.drop_last());
        let (entity_id, stored_ok) = events.last();
        if !snapshot.contains(entity_id) && stored_ok {
            (t.push(entity_id), k.insert(entity_id))
        } else {
            (t, k)
        }
    }
}

/// Rounds one after another, each starting from the entities tracked at
/// its start.
pub open spec fn frame_rounds(
    table: Seq<Seq<char>>,
    known: Set<Seq<char>>,
    rounds: Seq<Seq<(Seq<char>, bool)>>,
) -> (Seq<Seq<char>>, Set<Seq<char>>)
    decreases rounds.len(),
{
    if rounds.len() == 0 {
        (table, known)
    } else {
        let (t, k) = frame_rounds(table, known, rounds.drop_last());
        frame_round(t, k, k, rounds.last())
    }
}

/// The store holds at most one row per frame, and the tracked entities are
/// exactly those with a row.
pub open spec fn frame_store_consistent(table: Seq<Seq<char>>, known: Set<Seq<char>>) -> bool {
    &&& table.no_duplicates()
    &&& forall|k: Seq<char>| #[trigger] known.contains(k) <==> table.contains(k)
}

/// No two events of a round belong to one entity.
pub open spec fn distinct_entities(events: Seq<(Seq<char>, bool)>) -> bool {
    forall|i: int, j: int| 0 <= i < j < events.len() ==> (#[trigger] events[i]).0 != (#[trigger] events[j]).0
}

proof fn lemma_frame_round_prefix(
    table: Seq<Seq<char>>,
    known: Set<Seq<char>>,
    snapshot: Set<Seq<char>>,
    events: Seq<(Seq<char>, bool)>,
)
    requires
        frame_store_consistent(table, known),
        forall|k: Seq<char>| #[trigger] table.contains(k) ==> snapshot.contains(k),
        distinct_entities(events),
    ensures
        frame_store_consistent(frame_round(table, known, snapshot, events).0, frame_round(table, known, snapshot, events).1),
        forall|k: Seq<char>|
            #[trigger] frame_round(table, known, snapshot, events).0.contains(k) ==> snapshot.contains(k)
                || exists|j: int| 0 <= j < events.len() && (#[trigger] events[j]).0 == k,
    decreases events.len(),
{
    if events.len() > 0 {
        let init = events.drop_last();
        let n = events.len() - 1;
        assert forall|i: int, j: int| 0 <= i < j < init.len() implies (#[trigger] init[i]).0 != (#[trigger] init[j]).0 by {
            assert(init[i] == events[i] && init[j] == events[j]);
        }
        lemma_frame_round_prefix(table, known, snapshot, init);
        let (t, k) = frame_round(table, known, snapshot, init);
        let (e, ok) = events.last();
        if !snapshot.contains(e) && ok {
            if t.contains(e) {
                let j = choose|j: int| 0 <= j < init.len() && (#[trigger] init[j]).0 == e;
                assert(init[j] == events[j]);
                assert(events[j].0 != events[n].0);
            }
            let t2 = t.push(e);
            assert forall|a: int, b: int| 0 <= a < t2.len() && 0 <= b < t2.len() && a != b implies t2[a] != t2[b] by {
                if a < t.len() && b < t.len() {
                } else if a == t.len() {
                    assert(t.contains(t2[b]));
                } else {
                    assert(t.contains(t2[a]));
                }
            }
            assert forall|x: Seq<char>| #[trigger] k.insert(e).contains(x) <==> t2.contains(x) by {
                if t.contains(x) {
                    let a = choose|a: int| 0 <= a < t.len() && t[a] == x;
                    assert(t2[a] == x);
                }
                if t2.contains(x) && x != e {
                    let a = choose|a: int| 0 <= a < t2.len() && t2[a] == x;
                    assert(t[a] == x);
                }
                if x == e {
                    assert(t2[t.len() as int] == e);
                }
            }
            assert forall|x: Seq<char>|
                #[trigger] t2.contains(x) implies snapshot.contains(x)
                    || exists|j: int| 0 <= j < events.len() && (#[trigger] events[j]).0 == x by {
                if x == e {
                    assert(events[n].0 == x);
                } else {
                    let a = choose|a: int| 0 <= a < t2.len() && t2[a] == x;
                    assert(t[a] == x);
                    assert(t.contains(x));
                    if !snapshot.contains(x) {
                        let j = choose|j: int| 0 <= j < init.len() && (#[trigger] init[j]).0 == x;
                        assert(init[j] == events[j]);
                    }
                }
            }
        } else {
            assert forall|x: Seq<char>|
                #[trigger] t.contains(x) implies snapshot.contains(x)
                    || exists|j: int| 0 <= j < events.len() && (#[trigger] events[j]).0 == x by {
                if !snapshot.contains(x) {
                    let j = choose|j: int| 0 <= j < init.len() && (#[trigger] init[j]).0 == x;
                    assert(init[j] == events[j]);
                }
            }
        }
    }
}

/// One round keeps the store at most one row per frame, as long as no two
/// `FrameCreated` events it read belong to one frame: an event whose frame
/// was tracked when the round began is skipped.
pub proof fn lemma_frame_round_keeps_one_row_per_frame(
    table: Seq<Seq<char>>,
    known: Set<Seq<char>>,
    events: Seq<(Seq<char>, bool)>,
)
    requires
        frame_store_consistent(table, known),
        distinct_entities(events),
    ensures
        frame_store_consistent(frame_round(table, known, known, events).0, frame_round(table, known, known, events).1),
{
    lemma_frame_round_prefix(table, known, known, events);
}

/// Any number of rounds, each re-reading the whole `FrameCreated` stream,
/// keep the store at most one row per frame, as long as no two events of a
/// round belong to one frame.
pub proof fn lemma_frame_rounds_keep_one_row_per_frame(
    table: Seq<Seq<char>>,
    known: Set<Seq<char>>,
    rounds: Seq<Seq<(Seq<char>, bool)>>,
)
    requires
        frame_store_consistent(table, known),
        forall|r: int| 0 <= r < rounds.len() ==> distinct_entities(#[trigger] rounds[r]),
    ensures
        frame_store_consistent(frame_rounds(table, known, rounds).0, frame_rounds(table, known, rounds).1),
    decreases rounds.len(),
{
    if rounds.len() > 0 {
        let init = rounds.drop_last();
        assert forall|r: int| 0 <= r < init.len() implies distinct_entities(#[trigger] init[r]) by {
            assert(init[r] == rounds[r]);
        }
        lemma_frame_rounds_keep_one_row_per_frame(table, known, init);
        let (t, k) = frame_rounds(table, known, init);
        assert(distinct_entities(rounds[rounds.len() - 1]));
        lemma_frame_round_keeps_one_row_per_frame(t, k, rounds.last());
    }
}

} // verus!
