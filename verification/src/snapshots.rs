//! Snapshot storage: an append-only, tick-indexed history of authoritative
//! entity state. Confirmation is monotonic — once a tick's state is stored
//! it is never revised, and anything at or below the newest confirmed tick
//! arriving again is stale and dropped. Out-of-order batches are sorted by
//! tick before application; old entries are evicted once the retention
//! window passes them.

use vstd::prelude::*;

use crate::sim::EntityState;

verus! {

/// One confirmed (tick, state) pair for some entity.
#[derive(Clone, Copy, PartialEq, Eq, Structural, Debug)]
pub struct Snapshot {
    pub tick: u64,
    pub state: EntityState,
}

/// Ticks strictly increase along `s`: at most one state per tick, in order.
pub open spec fn ticks_strictly_sorted(s: Seq<Snapshot>) -> bool {
    forall|i: int, j: int|
        #![trigger s[i], s[j]]
        0 <= i < j < s.len() ==> s[i].tick < s[j].tick
}

/// Ticks never decrease along `s` (an inbound batch after sorting).
pub open spec fn ticks_sorted(s: Seq<Snapshot>) -> bool {
    forall|i: int, j: int|
        #![trigger s[i], s[j]]
        0 <= i < j < s.len() ==> s[i].tick <= s[j].tick
}

/// Entry `i` of `s` is the snapshot for `tick`.
pub open spec fn snap_at(s: Seq<Snapshot>, i: int, tick: u64) -> bool {
    0 <= i < s.len() && s[i].tick == tick
}

/// Some entry of `s` confirms `tick`.
pub open spec fn has_snapshot(s: Seq<Snapshot>, tick: u64) -> bool {
    exists|i: int| snap_at(s, i, tick)
}

/// The state confirmed for `tick`; meaningful when `tick` occurs exactly
/// once, which strict sortedness guarantees.
pub open spec fn snapshot_state_at(s: Seq<Snapshot>, tick: u64) -> EntityState {
    s[choose|i: int| snap_at(s, i, tick)].state
}

/// What applying one inbound snapshot did.
#[derive(Clone, Copy, PartialEq, Eq, Structural, Debug)]
pub enum ApplyResult {
    /// Strictly newer than everything confirmed: appended.
    Applied,
    /// At or below the newest confirmed tick: dropped, no revision.
    Stale,
}

/// The history after applying a tick-ordered batch, one snapshot at a time:
/// each strictly newer snapshot is appended, the rest are stale and dropped.
pub open spec fn apply_all(h: Seq<Snapshot>, batch: Seq<Snapshot>) -> Seq<Snapshot>
    decreases batch.len(),
{
    if batch.len() == 0 {
        h
    } else {
        let prefix = apply_all(h, batch.drop_last());
        if prefix.len() == 0 || prefix.last().tick < batch.last().tick {
            prefix.push(batch.last())
        } else {
            prefix
        }
    }
}

/// Sorts an inbound batch by tick, oldest first, so that out-of-order
/// network arrival is applied tick-ordered. The result holds exactly the
/// snapshots of the input.
pub fn sort_by_tick(batch: Vec<Snapshot>) -> (sorted: Vec<Snapshot>)
    ensures
        ticks_sorted(sorted@),
        sorted@.to_multiset() == batch@.to_multiset(),
        sorted@.len() == batch@.len(),
{
    let mut v = batch;
    let ghost orig = v@;
    let mut i: usize = 0;
    while i < v.len()
        invariant
            i <= v@.len(),
            v@.len() == orig.len(),
            v@.to_multiset() == orig.to_multiset(),
            ticks_sorted(v@.take(i as int)),
        decreases v@.len() - i,
    {
        let ghost before_round = v@;
        let x = v.remove(i);
        let ghost removed = v@;
        let mut j: usize = i;
        while j > 0 && v[j - 1].tick > x.tick
            invariant
                j <= i,
                i < before_round.len(),
                v@ == removed,
                removed == before_round.remove(i as int),
                ticks_sorted(before_round.take(i as int)),
                forall|k: int| j <= k < i ==> (#[trigger] removed[k]).tick > x.tick,
            decreases j,
        {
            j = j - 1;
        }
        v.insert(j, x);
        proof {
            broadcast use vstd::seq_lib::group_to_multiset_ensures;

            assert(before_round.contains(before_round[i as int])) by {
                assert(before_round[i as int] == before_round[i as int]);
            }
            assert(v@.to_multiset() =~= before_round.to_multiset());
            assert forall|a: int, b: int|
                #![trigger v@[a], v@[b]]
                0 <= a < b < i + 1 implies v@[a].tick <= v@[b].tick by {
                if b < j {
                    assert(v@[a] == before_round[a] && v@[b] == before_round[b]);
                } else if b == j {
                    assert(v@[b] == x);
                    assert(v@[a] == before_round[a]);
                    assert(before_round[j - 1].tick <= x.tick);
                    assert(before_round[a].tick <= before_round[j - 1].tick || a == j - 1);
                } else {
                    assert(v@[b] == removed[b - 1]);
                    assert(removed[b - 1].tick > x.tick);
                    assert(removed[b - 1] == before_round[b - 1]);
                    if a == j {
                        assert(v@[a] == x);
                    } else if a < j {
                        assert(v@[a] == before_round[a]);
                        assert(before_round[a].tick <= before_round[b - 1].tick);
                    } else {
                        assert(v@[a] == removed[a - 1]);
                        assert(before_round[a - 1].tick <= before_round[b - 1].tick);
                    }
                }
            }
        }
        i = i + 1;
    }
    proof {
        assert(v@.take(v@.len() as int) =~= v@);
    }
    v
}

/// One entity's ordered history of confirmed states, bounded by pruning.
pub struct SnapshotHistory {
    snaps: Vec<Snapshot>,
}

impl View for SnapshotHistory {
    type V = Seq<Snapshot>;

    closed spec fn view(&self) -> Seq<Snapshot> {
        self.snaps@
    }
}

impl SnapshotHistory {
    /// Strict tick order: append-only confirmation, never revised.
    pub open spec fn wf(self) -> bool {
        ticks_strictly_sorted(self@)
    }

    pub fn new() -> (h: SnapshotHistory)
        ensures
            h@ == Seq::<Snapshot>::empty(),
            h.wf(),
    {
        SnapshotHistory { snaps: Vec::new() }
    }

    pub fn len(&self) -> (n: usize)
        ensures
            n == self@.len(),
    {
        self.snaps.len()
    }

    /// The newest confirmed snapshot, if any.
    pub fn latest(&self) -> (r: Option<Snapshot>)
        ensures
            self@.len() == 0 ==> r is None,
            self@.len() > 0 ==> r == Some(self@.last()),
    {
        if self.snaps.len() == 0 {
            None
        } else {
            Some(self.snaps[self.snaps.len() - 1])
        }
    }

    /// Applies one inbound snapshot: appended when strictly newer than every
    /// confirmed tick, dropped as stale otherwise. An older tick is never
    /// revised; a duplicate of a confirmed tick is a no-op.
    pub fn apply(&mut self, snap: Snapshot) -> (r: ApplyResult)
        requires
            old(self).wf(),
        ensures
            final(self).wf(),
            (r is Applied) <==> (old(self)@.len() == 0 || old(self)@.last().tick < snap.tick),
            r is Applied ==> final(self)@ == old(self)@.push(snap),
            r is Stale ==> final(self)@ == old(self)@,
    {
        let n = self.snaps.len();
        if n == 0 || self.snaps[n - 1].tick < snap.tick {
            self.snaps.push(snap);
            ApplyResult::Applied
        } else {
            ApplyResult::Stale
        }
    }

    /// Applies a whole tick-ordered inbound batch, oldest first.
    pub fn apply_ordered(&mut self, batch: &Vec<Snapshot>)
        requires
            old(self).wf(),
            ticks_sorted(batch@),
        ensures
            final(self).wf(),
            final(self)@ == apply_all(old(self)@, batch@),
    {
        let n = batch.len();
        let mut i: usize = 0;
        while i < n
            invariant
                n == batch.len(),
                i <= n,
                self.wf(),
                self@ == apply_all(old(self)@, batch@.take(i as int)),
            decreases n - i,
        {
            proof {
                assert(batch@.take(i + 1).drop_last() =~= batch@.take(i as int));
                assert(batch@.take(i + 1).last() == batch@[i as int]);
            }
            self.apply(batch[i]);
            i = i + 1;
        }
        proof {
            assert(batch@.take(n as int) =~= batch@);
        }
    }

    /// The state confirmed for exactly `tick`, if any.
    pub fn get(&self, tick: u64) -> (r: Option<EntityState>)
        requires
            self.wf(),
        ensures
            r is Some <==> has_snapshot(self@, tick),
            r matches Some(st) ==> st == snapshot_state_at(self@, tick),
    {
        let n = self.snaps.len();
        let mut i: usize = 0;
        while i < n
            invariant
                n == self@.len(),
                i <= n,
                self.wf(),
                forall|k: int| 0 <= k < i ==> (#[trigger] self@[k]).tick != tick,
            decreases n - i,
        {
            let sn = self.snaps[i];
            if sn.tick == tick {
                proof {
                    assert(snap_at(self@, i as int, tick));
                    let j = choose|j: int| snap_at(self@, j, tick);
                    assert(self@[j] == self@[i as int]) by {
                        if j != i as int {
                            assert(self@[j].tick < self@[i as int].tick
                                || self@[i as int].tick < self@[j].tick);
                        }
                    }
                }
                return Some(sn.state);
            }
            i = i + 1;
        }
        proof {
            if has_snapshot(self@, tick) {
                let j = choose|j: int| snap_at(self@, j, tick);
                assert((self@[j]).tick != tick);
            }
        }
        None
    }

    /// The newest confirmed snapshot at or before `tick` — the lower end of
    /// an interpolation bracket.
    pub fn latest_at_or_before(&self, tick: u64) -> (r: Option<Snapshot>)
        requires
            self.wf(),
        ensures
            r matches Some(sn) ==> {
                &&& exists|i: int| 0 <= i < self@.len() && self@[i] == sn
                &&& sn.tick <= tick
                &&& forall|j: int| 0 <= j < self@.len() && (#[trigger] self@[j]).tick <= tick
                    ==> self@[j].tick <= sn.tick
            },
            r is None ==> forall|j: int| 0 <= j < self@.len()
                ==> (#[trigger] self@[j]).tick > tick,
    {
        let n = self.snaps.len();
        let mut i: usize = n;
        while i > 0
            invariant
                n == self@.len(),
                i <= n,
                self.wf(),
                forall|j: int| i <= j < n ==> (#[trigger] self@[j]).tick > tick,
            decreases i,
        {
            i = i - 1;
            let sn = self.snaps[i];
            if sn.tick <= tick {
                proof {
                    assert forall|j: int| 0 <= j < self@.len()
                        && (#[trigger] self@[j]).tick <= tick implies self@[j].tick <= sn.tick by {
                        if j > i as int {
                            assert(self@[j].tick > tick);
                        } else if j < i as int {
                            assert(self@[j].tick < self@[i as int].tick);
                        }
                    }
                }
                return Some(sn);
            }
        }
        None
    }

    /// The oldest confirmed snapshot at or after `tick` — the upper end of
    /// an interpolation bracket.
    pub fn earliest_at_or_after(&self, tick: u64) -> (r: Option<Snapshot>)
        requires
            self.wf(),
        ensures
            r matches Some(sn) ==> {
                &&& exists|i: int| 0 <= i < self@.len() && self@[i] == sn
                &&& sn.tick >= tick
                &&& forall|j: int| 0 <= j < self@.len() && (#[trigger] self@[j]).tick >= tick
                    ==> self@[j].tick >= sn.tick
            },
            r is None ==> forall|j: int| 0 <= j < self@.len()
                ==> (#[trigger] self@[j]).tick < tick,
    {
        let n = self.snaps.len();
        let mut i: usize = 0;
        while i < n
            invariant
                n == self@.len(),
                i <= n,
                self.wf(),
                forall|j: int| 0 <= j < i ==> (#[trigger] self@[j]).tick < tick,
            decreases n - i,
        {
            let sn = self.snaps[i];
            if sn.tick >= tick {
                proof {
                    assert forall|j: int| 0 <= j < self@.len()
                        && (#[trigger] self@[j]).tick >= tick implies self@[j].tick >= sn.tick by {
                        if j < i as int {
                            assert(self@[j].tick < tick);
                        } else if j > i as int {
                            assert(self@[i as int].tick < self@[j].tick);
                        }
                    }
                }
                return Some(sn);
            }
            i = i + 1;
        }
        None
    }

    /// Evicts every snapshot strictly older than `before`: the retention
    /// window (for interpolation and rollback) has passed them. The kept
    /// entries are exactly the suffix at or after the horizon.
    pub fn prune_before(&mut self, before: u64)
        requires
            old(self).wf(),
        ensures
            final(self).wf(),
            exists|c: int|
                #![auto]
                {
                    &&& 0 <= c <= old(self)@.len()
                    &&& final(self)@ == old(self)@.subrange(c, old(self)@.len() as int)
                    &&& forall|k: int| 0 <= k < c ==> old(self)@[k].tick < before
                    &&& forall|k: int| c <= k < old(self)@.len() ==> old(self)@[k].tick >= before
                },
    {
        let ghost s = self@;
        let n = self.snaps.len();
        let mut c: usize = 0;
        while c < n && self.snaps[c].tick < before
            invariant
                n == self@.len(),
                c <= n,
                s == self@,
                self.wf(),
                forall|k: int| 0 <= k < c ==> (#[trigger] self@[k]).tick < before,
            decreases n - c,
        {
            c = c + 1;
        }
        proof {
            assert forall|k: int| c <= k < s.len() implies (#[trigger] s[k]).tick >= before by {
                if c < n {
                    assert(s[c as int].tick >= before);
                    if k > c as int {
                        assert(s[c as int].tick < s[k].tick);
                    }
                }
            }
        }
        let mut kept: Vec<Snapshot> = Vec::new();
        let mut i: usize = c;
        while i < n
            invariant
                n == self@.len(),
                c <= i <= n,
                s == self@,
                kept@ == s.subrange(c as int, i as int),
            decreases n - i,
        {
            proof {
                assert(s.subrange(c as int, i + 1) =~= s.subrange(c as int, i as int).push(
                    s[i as int],
                ));
            }
            kept.push(self.snaps[i]);
            i = i + 1;
        }
        self.snaps = kept;
    }
}

} // verus!
