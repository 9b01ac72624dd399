//! The snapshot store: entity id → ordered history of confirmed state.
//! Each side owns one independently — the server's is authoritative, a
//! client's holds confirmed state only. Entities are independent: applying
//! a snapshot for one entity leaves every other history untouched.

use vstd::prelude::*;

use crate::snapshots::{
    ApplyResult, Snapshot, SnapshotHistory, ticks_strictly_sorted,
};

verus! {

/// Entry `i` of `s` belongs to entity `id`.
pub open spec fn entity_at(s: Seq<(u64, Seq<Snapshot>)>, i: int, id: u64) -> bool {
    0 <= i < s.len() && s[i].0 == id
}

/// Some entry of `s` belongs to entity `id`.
pub open spec fn has_entity(s: Seq<(u64, Seq<Snapshot>)>, id: u64) -> bool {
    exists|i: int| entity_at(s, i, id)
}

/// The history stored for entity `id`; meaningful when `id` occurs exactly
/// once.
pub open spec fn history_of(s: Seq<(u64, Seq<Snapshot>)>, id: u64) -> Seq<Snapshot> {
    s[choose|i: int| entity_at(s, i, id)].1
}

/// The history stored for entity `id`, or the empty history when the entity
/// is not yet tracked.
pub open spec fn history_or_empty(s: Seq<(u64, Seq<Snapshot>)>, id: u64) -> Seq<Snapshot> {
    if has_entity(s, id) {
        history_of(s, id)
    } else {
        Seq::empty()
    }
}

/// Each entity id occurs at most once.
pub open spec fn unique_entities(s: Seq<(u64, Seq<Snapshot>)>) -> bool {
    forall|i: int, j: int|
        #![trigger s[i], s[j]]
        0 <= i < j < s.len() ==> s[i].0 != s[j].0
}

/// Every entity other than `entity` is tracked in `s` exactly as in `s0`,
/// with an unchanged history: applying a snapshot touches one entity only.
pub open spec fn frame_except(
    s0: Seq<(u64, Seq<Snapshot>)>,
    s: Seq<(u64, Seq<Snapshot>)>,
    entity: u64,
) -> bool {
    forall|id: u64| id != entity ==> (
        (has_entity(s0, id) <==> #[trigger] has_entity(s, id))
        && (has_entity(s0, id) ==> history_of(s, id) == history_of(s0, id)))
}

/// What applying one snapshot does to one history: appended when strictly
/// newer than everything confirmed, dropped as stale otherwise.
pub open spec fn apply_one(h: Seq<Snapshot>, snap: Snapshot) -> Seq<Snapshot> {
    if h.len() == 0 || h.last().tick < snap.tick {
        h.push(snap)
    } else {
        h
    }
}

/// A tick-indexed history of confirmed state per replicated entity.
pub struct SnapshotStore {
    entries: Vec<(u64, SnapshotHistory)>,
}

impl View for SnapshotStore {
    type V = Seq<(u64, Seq<Snapshot>)>;

    closed spec fn view(&self) -> Seq<(u64, Seq<Snapshot>)> {
        Seq::new(self.entries@.len(), |i: int| (self.entries@[i].0, self.entries@[i].1@))
    }
}

impl SnapshotStore {
    /// Ids are unique and every history is in strict tick order.
    pub open spec fn wf(self) -> bool {
        &&& unique_entities(self@)
        &&& forall|i: int| 0 <= i < self@.len()
            ==> ticks_strictly_sorted((#[trigger] self@[i]).1)
    }

    pub fn new() -> (store: SnapshotStore)
        ensures
            store@ == Seq::<(u64, Seq<Snapshot>)>::empty(),
            store.wf(),
    {
        let store = SnapshotStore { entries: Vec::new() };
        proof {
            assert(store@ =~= Seq::<(u64, Seq<Snapshot>)>::empty());
        }
        store
    }

    /// Finds the slot of `entity`, if tracked.
    fn find(&self, entity: u64) -> (r: Option<usize>)
        ensures
            r is Some <==> has_entity(self@, entity),
            r matches Some(i) ==> entity_at(self@, i as int, entity),
    {
        let n = self.entries.len();
        let mut i: usize = 0;
        while i < n
            invariant
                n == self.entries@.len(),
                i <= n,
                self@.len() == n,
                forall|k: int| 0 <= k < i ==> (#[trigger] self@[k]).0 != entity,
            decreases n - i,
        {
            if self.entries[i].0 == entity {
                proof {
                    assert(entity_at(self@, i as int, entity));
                }
                return Some(i);
            }
            proof {
                assert(self@[i as int].0 == self.entries@[i as int].0);
            }
            i = i + 1;
        }
        proof {
            if has_entity(self@, entity) {
                let j = choose|j: int| entity_at(self@, j, entity);
                assert(self@[j].0 != entity);
            }
        }
        None
    }

    /// Applies one inbound snapshot for `entity`: an untracked entity is
    /// given a fresh history; otherwise the snapshot is appended when
    /// strictly newer, or dropped as stale. No other entity's history moves.
    pub fn apply(&mut self, entity: u64, snap: Snapshot) -> (r: ApplyResult)
        requires
            old(self).wf(),
        ensures
            final(self).wf(),
            has_entity(final(self)@, entity),
            history_of(final(self)@, entity)
                == apply_one(history_or_empty(old(self)@, entity), snap),
            (r is Applied) <==> (history_or_empty(old(self)@, entity).len() == 0
                || history_or_empty(old(self)@, entity).last().tick < snap.tick),
            frame_except(old(self)@, final(self)@, entity),
    {
        let found = self.find(entity);
        match found {
            None => {
                let ghost s0 = self@;
                let mut h = SnapshotHistory::new();
                let r = h.apply(snap);
                self.entries.push((entity, h));
                proof {
                    let s = self@;
                    assert(h@ =~= seq![snap]);
                    assert(s =~= s0.push((entity, seq![snap])));
                    let n = s.len() - 1;
                    assert(entity_at(s, n, entity));
                    assert forall|a: int, b: int|
                        #![trigger s[a], s[b]]
                        0 <= a < b < s.len() implies s[a].0 != s[b].0 by {
                        if b == n {
                            if s[a].0 == entity {
                                assert(entity_at(s0, a, entity));
                            }
                        } else {
                            assert(s[a] == s0[a] && s[b] == s0[b]);
                        }
                    }
                    assert forall|a: int| 0 <= a < s.len()
                        implies ticks_strictly_sorted((#[trigger] s[a]).1) by {
                        if a < n {
                            assert(s[a] == s0[a]);
                        }
                    }
                    let j = choose|j: int| entity_at(s, j, entity);
                    if j != n {
                        assert(entity_at(s0, j, entity));
                    }
                    assert(history_of(s, entity) == seq![snap]);
                    assert(apply_one(Seq::empty(), snap) =~= seq![snap]);
                    assert forall|id: u64| id != entity implies (
                        (has_entity(s0, id) <==> #[trigger] has_entity(s, id))
                        && (has_entity(s0, id) ==> history_of(s, id) == history_of(s0, id))) by {
                        if has_entity(s0, id) {
                            let k = choose|k: int| entity_at(s0, k, id);
                            assert(entity_at(s, k, id));
                            let k2 = choose|k2: int| entity_at(s, k2, id);
                            if k2 == n {
                                assert(s[k2].0 == entity);
                            }
                            assert(entity_at(s0, k2, id));
                            assert(s[k2].1 == s0[k2].1);
                            let k3 = choose|k3: int| entity_at(s0, k3, id);
                            if k3 != k2 {
                                assert(s0[k3].0 == s0[k2].0);
                            }
                        }
                        if has_entity(s, id) {
                            let k = choose|k: int| entity_at(s, k, id);
                            if k == n {
                                assert(s[k].0 == entity);
                            }
                            assert(entity_at(s0, k, id));
                        }
                    }
                    assert(frame_except(s0, s, entity));
                }
                return r;
            },
            Some(i) => {
                let ghost s0 = self@;
                let mut pair = self.entries.remove(i);
                proof {
                    assert(pair.1@ == s0[i as int].1);
                }
                let r = pair.1.apply(snap);
                self.entries.insert(i, pair);
                proof {
                    let s = self@;
                    assert(s =~= s0.update(i as int, (entity, apply_one(s0[i as int].1, snap))));
                    assert(entity_at(s, i as int, entity));
                    assert forall|a: int, b: int|
                        #![trigger s[a], s[b]]
                        0 <= a < b < s.len() implies s[a].0 != s[b].0 by {
                        assert(s[a].0 == s0[a].0 && s[b].0 == s0[b].0);
                    }
                    assert forall|a: int| 0 <= a < s.len()
                        implies ticks_strictly_sorted((#[trigger] s[a]).1) by {
                        if a != i as int {
                            assert(s[a] == s0[a]);
                        }
                    }
                    let j = choose|j: int| entity_at(s, j, entity);
                    if j != i as int {
                        assert(s[j].0 == s[i as int].0);
                    }
                    let k0 = choose|k: int| entity_at(s0, k, entity);
                    if k0 != i as int {
                        assert(entity_at(s0, i as int, entity));
                        assert(s0[k0].0 == s0[i as int].0);
                    }
                    assert(history_of(s, entity) == apply_one(history_of(s0, entity), snap));
                    assert forall|id: u64| id != entity implies (
                        (has_entity(s0, id) <==> #[trigger] has_entity(s, id))
                        && (has_entity(s0, id) ==> history_of(s, id) == history_of(s0, id))) by {
                        if has_entity(s0, id) {
                            let k = choose|k: int| entity_at(s0, k, id);
                            assert(s[k] == s0[k]) by {
                                if k == i as int {
                                    assert(s0[k].0 == entity);
                                }
                            }
                            assert(entity_at(s, k, id));
                            let k2 = choose|k2: int| entity_at(s, k2, id);
                            assert(s[k2] == s0[k2]) by {
                                if k2 == i as int {
                                    assert(s[k2].0 == entity);
                                }
                            }
                            assert(entity_at(s0, k2, id));
                            assert(s[k2].1 == s0[k2].1);
                            let k3 = choose|k3: int| entity_at(s0, k3, id);
                            if k3 != k2 {
                                assert(s0[k3].0 == s0[k2].0);
                            }
                        }
                        if has_entity(s, id) {
                            let k = choose|k: int| entity_at(s, k, id);
                            assert(s[k] == s0[k]) by {
                                if k == i as int {
                                    assert(s[k].0 == entity);
                                }
                            }
                            assert(entity_at(s0, k, id));
                        }
                    }
                    assert(frame_except(s0, s, entity));
                }
                return r;
            },
        }
    }

    /// The stored history for `entity`, if tracked.
    pub fn history(&self, entity: u64) -> (r: Option<&SnapshotHistory>)
        requires
            self.wf(),
        ensures
            r is Some <==> has_entity(self@, entity),
            r matches Some(h) ==> h@ == history_of(self@, entity) && h.wf(),
    {
        let found = self.find(entity);
        match found {
            None => None,
            Some(i) => {
                let h = &self.entries[i].1;
                proof {
                    let j = choose|j: int| entity_at(self@, j, entity);
                    if j != i as int {
                        assert(self@[j].0 == self@[i as int].0);
                    }
                    assert(h@ == self@[i as int].1);
                }
                Some(h)
            },
        }
    }

    /// Evicts, in every entity's history, the snapshots strictly older than
    /// `before`: the retention window for interpolation and rollback has
    /// passed them. Each history keeps exactly its suffix at or after the
    /// horizon; no entity is added or removed.
    pub fn prune_all(&mut self, before: u64)
        requires
            old(self).wf(),
        ensures
            final(self).wf(),
            final(self)@.len() == old(self)@.len(),
            forall|k: int| 0 <= k < old(self)@.len() ==> {
                &&& (#[trigger] final(self)@[k]).0 == old(self)@[k].0
                &&& exists|c: int|
                    #![auto]
                    {
                        &&& 0 <= c <= old(self)@[k].1.len()
                        &&& final(self)@[k].1 == old(self)@[k].1.subrange(
                            c,
                            old(self)@[k].1.len() as int,
                        )
                        &&& forall|m: int| 0 <= m < c ==> old(self)@[k].1[m].tick < before
                        &&& forall|m: int| c <= m < old(self)@[k].1.len()
                            ==> old(self)@[k].1[m].tick >= before
                    }
            },
    {
        let ghost s0 = self@;
        let n = self.entries.len();
        let mut i: usize = 0;
        while i < n
            invariant
                n == self.entries@.len(),
                i <= n,
                self@.len() == n,
                s0.len() == n,
                s0 == old(self)@,
                forall|k: int| i <= k < n ==> #[trigger] self@[k] == s0[k],
                forall|k: int| 0 <= k < i ==> {
                    &&& (#[trigger] self@[k]).0 == s0[k].0
                    &&& exists|c: int|
                        #![auto]
                        {
                            &&& 0 <= c <= s0[k].1.len()
                            &&& self@[k].1 == s0[k].1.subrange(c, s0[k].1.len() as int)
                            &&& forall|m: int| 0 <= m < c ==> s0[k].1[m].tick < before
                            &&& forall|m: int| c <= m < s0[k].1.len() ==> s0[k].1[m].tick
                                >= before
                        }
                },
                forall|k: int| 0 <= k < n
                    ==> ticks_strictly_sorted((#[trigger] self@[k]).1),
                unique_entities(self@),
            decreases n - i,
        {
            let ghost before_step = self@;
            let mut pair = self.entries.remove(i);
            proof {
                assert(pair.1@ == before_step[i as int].1);
            }
            pair.1.prune_before(before);
            self.entries.insert(i, pair);
            proof {
                assert forall|k: int| 0 <= k < n && k != i as int
                    implies #[trigger] self@[k] == before_step[k] by {}
                assert(self@[i as int].0 == before_step[i as int].0);
                let c = choose|c: int|
                    #![auto]
                    {
                        &&& 0 <= c <= before_step[i as int].1.len()
                        &&& pair.1@ == before_step[i as int].1.subrange(
                            c,
                            before_step[i as int].1.len() as int,
                        )
                        &&& forall|m: int| 0 <= m < c ==> before_step[i as int].1[m].tick < before
                        &&& forall|m: int| c <= m < before_step[i as int].1.len()
                            ==> before_step[i as int].1[m].tick >= before
                    };
                assert(self@[i as int].1 == before_step[i as int].1.subrange(
                    c,
                    before_step[i as int].1.len() as int,
                ));
                assert forall|a: int, b: int|
                    #![trigger self@[a], self@[b]]
                    0 <= a < b < self@.len() implies self@[a].0 != self@[b].0 by {
                    assert(self@[a].0 == before_step[a].0 && self@[b].0 == before_step[b].0);
                }
            }
            i = i + 1;
        }
    }

    /// The newest confirmed snapshot for `entity`, if any.
    pub fn latest(&self, entity: u64) -> (r: Option<Snapshot>)
        requires
            self.wf(),
        ensures
            r == (if history_or_empty(self@, entity).len() > 0 {
                Some(history_or_empty(self@, entity).last())
            } else {
                Option::<Snapshot>::None
            }),
    {
        match self.history(entity) {
            None => None,
            Some(h) => h.latest(),
        }
    }
}

} // verus!
