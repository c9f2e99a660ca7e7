//! Bookkeeping shared by the query-side projections: which entities have
//! been written to the query store, and when their last event was inserted.

use vstd::prelude::*;

verus! {

/// The time the projections start from when nothing is tracked yet:
/// 1970-01-01 00:00:00, in microseconds since that instant.
pub const EPOCH_MICROS: i64 = 0;

/// What a tracker holds: for each entity id, the insertion time of the last
/// event applied for it.
pub open spec fn entries_map(s: Seq<(Seq<char>, i64)>) -> Map<Seq<char>, i64> {
    Map::new(
        |k: Seq<char>| exists|i: int| 0 <= i < s.len() && (#[trigger] s[i]).0 == k,
        |k: Seq<char>| s[choose|i: int| 0 <= i < s.len() && (#[trigger] s[i]).0 == k].1,
    )
}

pub open spec fn distinct_keys(s: Seq<(Seq<char>, i64)>) -> bool {
    forall|i: int, j: int|
        0 <= i < s.len() && 0 <= j < s.len() && i != j ==> (#[trigger] s[i]).0 != (#[trigger] s[j]).0
}

/// `w` is the latest time in `m`, or the epoch when `m` is empty.
pub open spec fn is_watermark(m: Map<Seq<char>, i64>, w: i64) -> bool {
    if m.dom() =~= Set::<Seq<char>>::empty() {
        w == EPOCH_MICROS
    } else {
        &&& exists|k: Seq<char>| #[trigger] m.dom().contains(k) && m[k] == w
        &&& forall|k: Seq<char>| #[trigger] m.dom().contains(k) ==> m[k] <= w
    }
}

pub open spec fn views_of(v: Seq<(String, i64)>) -> Seq<(Seq<char>, i64)> {
    v.map_values(|e: (String, i64)| (e.0@, e.1))
}

/// Entity ids with the insertion time of the last event applied for each.
pub struct Tracker {
    entries: Vec<(String, i64)>,
}

impl View for Tracker {
    type V = Map<Seq<char>, i64>;

    /// The tracked entities and their times.
    closed spec fn view(&self) -> Map<Seq<char>, i64> {
        entries_map(self.entry_views())
    }
}

impl Tracker {
    pub closed spec fn entry_views(&self) -> Seq<(Seq<char>, i64)> {
        views_of(self.entries@)
    }

    #[verifier::type_invariant]
    closed spec fn wf(&self) -> bool {
        distinct_keys(self.entry_views())
    }

    /// A tracker that tracks nothing.
    pub fn new() -> (t: Tracker)
        ensures
            t.view() =~= Map::<Seq<char>, i64>::empty(),
    {
        let t = Tracker { entries: Vec::new() };
        assert(t.entry_views() =~= Seq::<(Seq<char>, i64)>::empty());
        t
    }

    /// The index of `entity_id` among the entries, if it is tracked.
    fn find(&self, entity_id: &str) -> (r: Option<usize>)
        ensures
            match r {
                Some(i) => i < self.entry_views().len() && self.entry_views()[i as int].0
                    == entity_id@,
                None => forall|i: int|
                    0 <= i < self.entry_views().len() ==> (#[trigger] self.entry_views()[i]).0
                        != entity_id@,
            },
    {
        let mut i: usize = 0;
        while i < self.entries.len()
            invariant
                i <= self.entries@.len(),
                self.entry_views().len() == self.entries@.len(),
                forall|j: int| 0 <= j < i ==> (#[trigger] self.entry_views()[j]).0 != entity_id@,
            decreases self.entries@.len() - i,
        {
            if crate::text::str_eq(self.entries[i].0.as_str(), entity_id) {
                return Some(i);
            }
            i = i + 1;
        }
        None
    }

    /// Whether `entity_id` is tracked.
    pub fn contains(&self, entity_id: &str) -> (r: bool)
        ensures
            r == self.view().dom().contains(entity_id@),
    {
        let f = self.find(entity_id);
        match f {
            Some(i) => {
                assert(self.view().dom().contains(entity_id@)) by {
                    assert(self.entry_views()[i as int].0 == entity_id@);
                }
                true
            },
            None => false,
        }
    }

    /// Records that the last event applied for `entity_id` was inserted at `at`.
    pub fn track(&mut self, entity_id: String, at: i64)
        ensures
            final(self).view() == old(self).view().insert(entity_id@, at),
    {
        proof {
            use_type_invariant(&*self);
        }
        let ghost old_views = self.entry_views();
        let ghost key = entity_id@;
        let f = self.find(entity_id.as_str());
        let mut entries: Vec<(String, i64)> = Vec::new();
        std::mem::swap(&mut entries, &mut self.entries);
        assert(views_of(entries@) == old_views);
        match f {
            Some(i) => {
                entries.set(i, (entity_id, at));
                let ghost new_views = views_of(entries@);
                assert(new_views =~= old_views.update(i as int, (key, at)));
                assert forall|k: Seq<char>|
                    #![trigger entries_map(new_views).dom().contains(k)]
                    entries_map(new_views).dom().contains(k) == entries_map(old_views).insert(
                        key,
                        at,
                    ).dom().contains(k) by {
                    if k != key {
                        if entries_map(old_views).dom().contains(k) {
                            let j = choose|j: int| 0 <= j < old_views.len() && (#[trigger] old_views[j]).0 == k;
                            assert(new_views[j].0 == k);
                        }
                        if entries_map(new_views).dom().contains(k) {
                            let j = choose|j: int| 0 <= j < new_views.len() && (#[trigger] new_views[j]).0 == k;
                            assert(old_views[j].0 == k);
                        }
                    } else {
                        assert(new_views[i as int].0 == k);
                    }
                }
                assert forall|k: Seq<char>| #[trigger]
                    entries_map(new_views).dom().contains(k) implies entries_map(new_views)[k]
                    == entries_map(old_views).insert(key, at)[k] by {
                    let j = choose|j: int| 0 <= j < new_views.len() && (#[trigger] new_views[j]).0 == k;
                    if k == key {
                        assert(j == i);
                    } else {
                        assert(old_views[j].0 == k);
                        let j2 = choose|j: int| 0 <= j < old_views.len() && (#[trigger] old_views[j]).0 == k;
                        assert(j2 == j);
                    }
                }
                assert(entries_map(new_views) =~= entries_map(old_views).insert(key, at));
                self.entries = entries;
            },
            None => {
                entries.push((entity_id, at));
                let ghost new_views = views_of(entries@);
                assert(new_views =~= old_views.push((key, at)));
                let ghost n = old_views.len() as int;
                assert forall|k: Seq<char>|
                    #![trigger entries_map(new_views).dom().contains(k)]
                    entries_map(new_views).dom().contains(k) == entries_map(old_views).insert(
                        key,
                        at,
                    ).dom().contains(k) by {
                    if k != key {
                        if entries_map(old_views).dom().contains(k) {
                            let j = choose|j: int| 0 <= j < old_views.len() && (#[trigger] old_views[j]).0 == k;
                            assert(new_views[j].0 == k);
                        }
                        if entries_map(new_views).dom().contains(k) {
                            let j = choose|j: int| 0 <= j < new_views.len() && (#[trigger] new_views[j]).0 == k;
                            assert(j != n);
                            assert(old_views[j].0 == k);
                        }
                    } else {
                        assert(new_views[n].0 == k);
                    }
                }
                assert forall|k: Seq<char>| #[trigger]
                    entries_map(new_views).dom().contains(k) implies entries_map(new_views)[k]
                    == entries_map(old_views).insert(key, at)[k] by {
                    let j = choose|j: int| 0 <= j < new_views.len() && (#[trigger] new_views[j]).0 == k;
                    if k == key {
                        assert(new_views[n].0 == k);
                        assert(j == n);
                    } else {
                        assert(j != n);
                        assert(old_views[j].0 == k);
                        let j2 = choose|j: int| 0 <= j < old_views.len() && (#[trigger] old_views[j]).0 == k;
                        assert(new_views[j2].0 == k);
                        assert(j2 == j);
                    }
                }
                assert(entries_map(new_views) =~= entries_map(old_views).insert(key, at));
                self.entries = entries;
            },
        }
    }

    /// The latest time tracked, or the epoch when nothing is tracked.
    pub fn watermark(&self) -> (w: i64)
        ensures
            is_watermark(self.view(), w),
    {
        proof {
            use_type_invariant(self);
        }
        let ghost views = self.entry_views();
        if self.entries.len() == 0 {
            assert(self.view().dom() =~= Set::<Seq<char>>::empty());
            return EPOCH_MICROS;
        }
        let mut best: i64 = self.entries[0].1;
        let mut at: usize = 0;
        let mut i: usize = 1;
        while i < self.entries.len()
            invariant
                views == self.entry_views(),
                views.len() == self.entries@.len(),
                1 <= i <= views.len(),
                at < i,
                views[at as int].1 == best,
                forall|j: int| 0 <= j < i ==> (#[trigger] views[j]).1 <= best,
            decreases views.len() - i,
        {
            if self.entries[i].1 > best {
                best = self.entries[i].1;
                at = i;
            }
            i = i + 1;
        }
        proof {
            let m = self.view();
            let kb = views[at as int].0;
            assert(m.dom().contains(kb));
            let jb = choose|j: int| 0 <= j < views.len() && (#[trigger] views[j]).0 == kb;
            assert(jb == at as int);
            assert(!(m.dom() =~= Set::<Seq<char>>::empty())) by {
                assert(m.dom().contains(kb));
            }
            assert forall|k: Seq<char>| #[trigger] m.dom().contains(k) implies m[k] <= best by {
                let j = choose|j: int| 0 <= j < views.len() && (#[trigger] views[j]).0 == k;
                assert(views[j].1 <= best);
            }
        }
        best
    }

    /// The tracked entity ids, each once.
    pub fn entity_ids(&self) -> (ids: Vec<String>)
        ensures
            forall|k: Seq<char>| #[trigger] self.view().dom().contains(k) <==> ids.deep_view().contains(k),
            ids.deep_view().no_duplicates(),
    {
        proof {
            use_type_invariant(self);
        }
        let ghost views = self.entry_views();
        let mut ids: Vec<String> = Vec::new();
        let mut i: usize = 0;
        while i < self.entries.len()
            invariant
                views == self.entry_views(),
                views.len() == self.entries@.len(),
                i <= views.len(),
                ids.deep_view().len() == i,
                forall|j: int| 0 <= j < i ==> (#[trigger] ids.deep_view()[j]) == views[j].0,
            decreases views.len() - i,
        {
            let ghost old_ids = ids.deep_view();
            let id = self.entries[i].0.clone();
            assert(id@ == views[i as int].0);
            ids.push(id);
            assert(ids.deep_view() =~= old_ids.push(views[i as int].0));
            i = i + 1;
        }
        proof {
            assert forall|a: int, b: int| 0 <= a < ids.deep_view().len() && 0 <= b < ids.deep_view().len() && a != b
                implies ids.deep_view()[a] != ids.deep_view()[b] by {
                assert(ids.deep_view()[a] == views[a].0);
                assert(ids.deep_view()[b] == views[b].0);
            }
            assert forall|k: Seq<char>| #[trigger]
                self.view().dom().contains(k) <==> ids.deep_view().contains(k) by {
                if self.view().dom().contains(k) {
                    let j = choose|j: int| 0 <= j < views.len() && (#[trigger] views[j]).0 == k;
                    assert(ids.deep_view()[j] == k);
                }
                if ids.deep_view().contains(k) {
                    let j = choose|j: int| 0 <= j < ids.deep_view().len() && ids.deep_view()[j] == k;
                    assert(views[j].0 == k);
                }
            }
        }
        ids
    }
}

/// A tracked time that is not older than the watermark becomes the new
/// watermark: the projection never reads an event twice through its
/// "inserted after the watermark" query once it has applied a later one.
pub proof fn lemma_watermark_after_track(m: Map<Seq<char>, i64>, w: i64, entity_id: Seq<char>, at: i64)
    requires
        is_watermark(m, w),
        at >= w,
    ensures
        is_watermark(m.insert(entity_id, at), at),
{
    let m2 = m.insert(entity_id, at);
    assert(m2.dom().contains(entity_id));
    assert(!(m2.dom() =~= Set::<Seq<char>>::empty()));
    assert forall|k: Seq<char>| #[trigger] m2.dom().contains(k) implies m2[k] <= at by {
        if k != entity_id {
            assert(m.dom().contains(k));
        }
    }
}

/// The watermark of a tracker state is unique.
pub proof fn lemma_watermark_unique(m: Map<Seq<char>, i64>, w1: i64, w2: i64)
    requires
        is_watermark(m, w1),
        is_watermark(m, w2),
    ensures
        w1 == w2,
{
    if !(m.dom() =~= Set::<Seq<char>>::empty()) {
        let k1 = choose|k: Seq<char>| #[trigger] m.dom().contains(k) && m[k] == w1;
        let k2 = choose|k: Seq<char>| #[trigger] m.dom().contains(k) && m[k] == w2;
        assert(m[k1] <= w2);
        assert(m[k2] <= w1);
    }
}

/// The tracker after the events `rows` (entity id, insertion time) are
/// applied one after another.
pub open spec fn track_all(m: Map<Seq<char>, i64>, rows: Seq<(Seq<char>, i64)>) -> Map<Seq<char>, i64>
    decreases rows.len(),
{
    if rows.len() == 0 {
        m
    } else {
        track_all(m, rows.drop_last()).insert(rows.last().0, rows.last().1)
    }
}

/// After a batch, each entity of the batch maps to the time of its last
/// event in the batch, and every other entity keeps what it had.
pub proof fn lemma_track_all(m: Map<Seq<char>, i64>, rows: Seq<(Seq<char>, i64)>)
    ensures
        forall|i: int|
            0 <= i < rows.len() ==> {
                &&& track_all(m, rows).dom().contains(#[trigger] rows[i].0)
                &&& exists|j: int|
                    i <= j < rows.len() && rows[j].0 == rows[i].0 && track_all(m, rows)[rows[i].0]
                        == #[trigger] rows[j].1
            },
        forall|k: Seq<char>|
            (forall|i: int| 0 <= i < rows.len() ==> (#[trigger] rows[i]).0 != k) ==> {
                &&& (#[trigger] track_all(m, rows).dom().contains(k) <==> m.dom().contains(k))
                &&& (m.dom().contains(k) ==> track_all(m, rows)[k] == m[k])
            },
    decreases rows.len(),
{
    if rows.len() > 0 {
        let init = rows.drop_last();
        let n = rows.len() - 1;
        lemma_track_all(m, init);
        let t = track_all(m, init);
        assert forall|i: int| 0 <= i < rows.len() implies {
            &&& track_all(m, rows).dom().contains(#[trigger] rows[i].0)
            &&& exists|j: int|
                i <= j < rows.len() && rows[j].0 == rows[i].0 && track_all(m, rows)[rows[i].0]
                    == #[trigger] rows[j].1
        } by {
            if rows[i].0 == rows[n].0 {
                assert(rows[n].1 == rows[n].1);
            } else {
                assert(init[i] == rows[i]);
                let j = choose|j: int|
                    i <= j < init.len() && init[j].0 == init[i].0 && t[init[i].0] == #[trigger] init[j].1;
                assert(rows[j] == init[j]);
            }
        }
        assert forall|k: Seq<char>|
            (forall|i: int| 0 <= i < rows.len() ==> (#[trigger] rows[i]).0 != k) implies {
                &&& (#[trigger] track_all(m, rows).dom().contains(k) <==> m.dom().contains(k))
                &&& (m.dom().contains(k) ==> track_all(m, rows)[k] == m[k])
            } by {
            assert(rows[n].0 != k);
            assert forall|i: int| 0 <= i < init.len() implies (#[trigger] init[i]).0 != k by {
                assert(init[i] == rows[i]);
            }
        }
    }
}

/// One round of a projection reads the events inserted after the watermark
/// `w` and applies them in the order read: the next watermark is not older
/// than `w`.
pub proof fn lemma_round_advances_watermark(m: Map<Seq<char>, i64>, w: i64, rows: Seq<(Seq<char>, i64)>, next: i64)
    requires
        is_watermark(m, w),
        forall|i: int| 0 <= i < rows.len() ==> (#[trigger] rows[i]).1 > w,
        is_watermark(track_all(m, rows), next),
    ensures
        next >= w,
{
    lemma_track_all(m, rows);
    let t = track_all(m, rows);
    if rows.len() == 0 {
        lemma_watermark_unique(m, w, next);
    } else {
        assert(t.dom().contains(rows[0].0));
        let j0 = choose|j: int|
            0 <= j < rows.len() && rows[j].0 == rows[0].0 && t[rows[0].0] == #[trigger] rows[j].1;
        assert(t[rows[0].0] <= next);
        assert(rows[j0].1 > w);
    }
}

/// A round that reads its events in the order they were inserted ends with a
/// watermark at least as late as every event it applied, so the next round,
/// which reads only events inserted after that watermark, reads none of them
/// again.
pub proof fn lemma_ordered_round_not_read_again(m: Map<Seq<char>, i64>, rows: Seq<(Seq<char>, i64)>, next: i64)
    requires
        forall|i: int, j: int| 0 <= i <= j < rows.len() ==> (#[trigger] rows[i]).1 <= (#[trigger] rows[j]).1,
        is_watermark(track_all(m, rows), next),
    ensures
        forall|i: int| 0 <= i < rows.len() ==> (#[trigger] rows[i]).1 <= next,
{
    lemma_track_all(m, rows);
    let t = track_all(m, rows);
    assert forall|i: int| 0 <= i < rows.len() implies (#[trigger] rows[i]).1 <= next by {
        assert(t.dom().contains(rows[i].0));
        let j = choose|j: int|
            i <= j < rows.len() && rows[j].0 == rows[i].0 && t[rows[i].0] == #[trigger] rows[j].1;
        assert(t[rows[i].0] <= next);
        assert(rows[i].1 <= rows[j].1);
    }
}

/// The events of `log` (entity id, insertion time) inserted after `w`, in
/// the order of the log: what a round reads.
pub open spec fn events_after(log: Seq<(Seq<char>, i64)>, w: i64) -> Seq<(Seq<char>, i64)>
    decreases log.len(),
{
    if log.len() == 0 {
        Seq::empty()
    } else if log.last().1 > w {
        events_after(log.drop_last(), w).push(log.last())
    } else {
        events_after(log.drop_last(), w)
    }
}

/// The log lists its events in the order of their insertion times.
pub open spec fn in_insertion_order(log: Seq<(Seq<char>, i64)>) -> bool {
    forall|i: int, j: int| 0 <= i <= j < log.len() ==> (#[trigger] log[i]).1 <= (#[trigger] log[j]).1
}

proof fn lemma_events_after(log: Seq<(Seq<char>, i64)>, w: i64)
    ensures
        forall|k: int| 0 <= k < events_after(log, w).len() ==> (#[trigger] events_after(log, w)[k]).1 > w
            && log.contains(events_after(log, w)[k]),
        forall|i: int| 0 <= i < log.len() && (#[trigger] log[i]).1 > w ==> events_after(log, w).contains(log[i]),
        in_insertion_order(log) ==> in_insertion_order(events_after(log, w)),
    decreases log.len(),
{
    if log.len() > 0 {
        let init = log.drop_last();
        let n = log.len() - 1;
        lemma_events_after(init, w);
        let before = events_after(init, w);
        let after = events_after(log, w);
        assert forall|k: int| 0 <= k < after.len() implies (#[trigger] after[k]).1 > w && log.contains(after[k]) by {
            if k < before.len() {
                assert(after[k] == before[k]);
                let i = choose|i: int| 0 <= i < init.len() && init[i] == before[k];
                assert(log[i] == init[i]);
            } else {
                assert(log[n] == after[k]);
            }
        }
        assert forall|i: int| 0 <= i < log.len() && (#[trigger] log[i]).1 > w implies after.contains(log[i]) by {
            if i < n {
                assert(init[i] == log[i]);
                let k = choose|k: int| 0 <= k < before.len() && before[k] == init[i];
                assert(after[k] == before[k]);
            } else {
                assert(after[after.len() - 1] == log[n]);
            }
        }
        if in_insertion_order(log) {
            assert forall|i: int, j: int| 0 <= i <= j < init.len() implies (#[trigger] init[i]).1 <= (#[trigger] init[j]).1 by {
                assert(init[i] == log[i] && init[j] == log[j]);
            }
            assert forall|a: int, b: int| 0 <= a <= b < after.len() implies (#[trigger] after[a]).1 <= (#[trigger] after[b]).1 by {
                if b < before.len() {
                    assert(after[a] == before[a] && after[b] == before[b]);
                } else {
                    assert(log.contains(after[a]));
                    let i = choose|i: int| 0 <= i < log.len() && log[i] == after[a];
                    assert(after[b] == log[n]);
                }
            }
        }
    }
}

/// A round reads exactly the events inserted after the watermark `w` and
/// applies them in the order of the log. When the log is in insertion
/// order, the next watermark is not older than `w`, every event the round
/// applied is at or before it, and so the next round, which reads the events
/// inserted after the next watermark, reads none of them again; no event at
/// or before `w` is read at all.
pub proof fn lemma_round_reads_each_event_once(
    m: Map<Seq<char>, i64>,
    w: i64,
    log: Seq<(Seq<char>, i64)>,
    next: i64,
)
    requires
        is_watermark(m, w),
        in_insertion_order(log),
        is_watermark(track_all(m, events_after(log, w)), next),
    ensures
        forall|i: int| 0 <= i < log.len() ==> ((#[trigger] log[i]).1 > w <==> events_after(log, w).contains(log[i])),
        next >= w,
        forall|k: int| 0 <= k < events_after(log, w).len() ==> (#[trigger] events_after(log, w)[k]).1 <= next
            && !events_after(log, next).contains(events_after(log, w)[k]),
{
    let round = events_after(log, w);
    lemma_events_after(log, w);
    lemma_events_after(log, next);
    assert forall|i: int| 0 <= i < log.len() implies ((#[trigger] log[i]).1 > w <==> round.contains(log[i])) by {
        if round.contains(log[i]) {
            let k = choose|k: int| 0 <= k < round.len() && round[k] == log[i];
            assert(round[k].1 > w);
        }
    }
    assert forall|k: int| 0 <= k < round.len() implies (#[trigger] round[k]).1 > w by {}
    lemma_round_advances_watermark(m, w, round, next);
    lemma_ordered_round_not_read_again(m, round, next);
    assert forall|k: int| 0 <= k < round.len() implies (#[trigger] round[k]).1 <= next
        && !events_after(log, next).contains(round[k]) by {
        if events_after(log, next).contains(round[k]) {
            let a = choose|a: int| 0 <= a < events_after(log, next).len() && events_after(log, next)[a] == round[k];
            assert(events_after(log, next)[a].1 > next);
        }
    }
}

} // verus!
