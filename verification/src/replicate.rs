//! The replicator: the server-side policy deciding, once per send-interval
//! boundary, which entities' state is pushed to which clients. Each
//! replication group carries a sync mode — predicted entities get periodic
//! authoritative corrections, interpolated entities get every update,
//! once-only state is sent at spawn alone — and a visibility selecting the
//! receiving clients. Spawn and identity data go over the reliable ordered
//! channel; high-frequency state goes unreliable, since a lost snapshot is
//! superseded by the next one.

use vstd::prelude::*;

use crate::snapshots::Snapshot;
use crate::store::{SnapshotStore, history_or_empty};

verus! {

/// How the receiving side treats an entity of this group.
#[derive(Clone, Copy, PartialEq, Eq, Structural, Debug)]
pub enum SyncMode {
    /// The owning client simulates it; the server sends periodic
    /// authoritative corrections.
    Predicted,
    /// Receivers never simulate it; they render a delayed interpolation.
    Interpolated,
    /// Sent on spawn only: identity or cosmetic data that rarely changes.
    Once,
}

/// Which connected clients receive a message.
#[derive(Clone, Copy, PartialEq, Eq, Structural, Debug)]
pub enum Visibility {
    All,
    AllExcept { client: u64 },
    Only { client: u64 },
}

/// Transport channel semantics.
#[derive(Clone, Copy, PartialEq, Eq, Structural, Debug)]
pub enum Channel {
    /// For identity and spawn events, which must not be lost or reordered.
    ReliableOrdered,
    /// For high-frequency state: loss is acceptable, the next snapshot
    /// supersedes it.
    Unreliable,
}

impl Visibility {
    /// Whether `client` is among the receivers.
    pub open spec fn includes_spec(self, client: u64) -> bool {
        match self {
            Visibility::All => true,
            Visibility::AllExcept { client: excluded } => client != excluded,
            Visibility::Only { client: only } => client == only,
        }
    }

    /// Whether `client` is among the receivers.
    pub fn includes(&self, client: u64) -> (r: bool)
        ensures
            r == self.includes_spec(client),
    {
        match self {
            Visibility::All => true,
            Visibility::AllExcept { client: excluded } => client != *excluded,
            Visibility::Only { client: only } => client == *only,
        }
    }
}

/// The channel an update of this mode travels on.
pub open spec fn channel_for(mode: SyncMode) -> Channel {
    match mode {
        SyncMode::Once => Channel::ReliableOrdered,
        _ => Channel::Unreliable,
    }
}

/// How a newly connected player's entity is replicated to the other
/// clients: either everyone predicts it, or everyone but its owner renders
/// a delayed interpolation of it.
pub fn decide_player_sync(predict_all: bool, owner: u64) -> (r: (SyncMode, Visibility))
    ensures
        predict_all ==> r == (SyncMode::Predicted, Visibility::All),
        !predict_all ==> r == (
            SyncMode::Interpolated,
            Visibility::AllExcept { client: owner },
        ),
{
    if predict_all {
        (SyncMode::Predicted, Visibility::All)
    } else {
        (SyncMode::Interpolated, Visibility::AllExcept { client: owner })
    }
}

/// One serialized state update, keyed by target clients and channel.
#[derive(Clone, Copy, PartialEq, Eq, Structural, Debug)]
pub struct OutboundMessage {
    pub target: Visibility,
    pub channel: Channel,
    pub entity: u64,
    pub snapshot: Snapshot,
}

/// Entities that must be serialized and prioritized together, with one sync
/// mode and one visibility for all members.
pub struct ReplicationGroup {
    pub id: u64,
    pub members: Vec<u64>,
    pub mode: SyncMode,
    pub visibility: Visibility,
    /// Whether the spawn-time send already happened (mode `Once`).
    pub spawn_sent: bool,
}

/// The mathematical image of a replication group.
pub struct GroupModel {
    pub id: u64,
    pub members: Seq<u64>,
    pub mode: SyncMode,
    pub visibility: Visibility,
    pub spawn_sent: bool,
}

impl View for ReplicationGroup {
    type V = GroupModel;

    open spec fn view(&self) -> GroupModel {
        GroupModel {
            id: self.id,
            members: self.members@,
            mode: self.mode,
            visibility: self.visibility,
            spawn_sent: self.spawn_sent,
        }
    }
}

/// Whether this group emits anything at a send boundary: once-only groups
/// emit at spawn alone.
pub open spec fn group_due(g: GroupModel) -> bool {
    !(g.mode is Once && g.spawn_sent)
}

/// The updates for the given members, in order: one message per member that
/// has confirmed state, carrying its newest snapshot.
pub open spec fn member_messages(
    members: Seq<u64>,
    mode: SyncMode,
    visibility: Visibility,
    store: Seq<(u64, Seq<Snapshot>)>,
) -> Seq<OutboundMessage>
    decreases members.len(),
{
    if members.len() == 0 {
        Seq::empty()
    } else {
        let rest = member_messages(members.drop_last(), mode, visibility, store);
        let entity = members.last();
        if history_or_empty(store, entity).len() > 0 {
            rest.push(
                OutboundMessage {
                    target: visibility,
                    channel: channel_for(mode),
                    entity,
                    snapshot: history_or_empty(store, entity).last(),
                },
            )
        } else {
            rest
        }
    }
}

/// Everything one group emits at a send boundary.
pub open spec fn group_messages(g: GroupModel, store: Seq<(u64, Seq<Snapshot>)>) -> Seq<
    OutboundMessage,
> {
    if group_due(g) {
        member_messages(g.members, g.mode, g.visibility, store)
    } else {
        Seq::empty()
    }
}

/// Everything all groups emit at a send boundary, group by group.
pub open spec fn due_messages(groups: Seq<GroupModel>, store: Seq<(u64, Seq<Snapshot>)>) -> Seq<
    OutboundMessage,
>
    decreases groups.len(),
{
    if groups.len() == 0 {
        Seq::empty()
    } else {
        due_messages(groups.drop_last(), store) + group_messages(groups.last(), store)
    }
}

/// The groups after a send boundary: once-only groups have their spawn send
/// recorded, nothing else moves.
pub open spec fn mark_spawns_sent(groups: Seq<GroupModel>) -> Seq<GroupModel> {
    Seq::new(
        groups.len(),
        |i: int|
            GroupModel {
                spawn_sent: groups[i].spawn_sent || groups[i].mode is Once,
                ..groups[i]
            },
    )
}

/// The server-side replication schedule: what to push, at what cadence,
/// to whom. The send interval is in ticks, decoupled from the simulation
/// rate to bound bandwidth.
pub struct Replicator {
    send_interval: u64,
    groups: Vec<ReplicationGroup>,
}

impl Replicator {
    /// The send cadence, in ticks.
    pub closed spec fn send_interval(self) -> u64 {
        self.send_interval
    }

    /// The groups' mathematical image.
    pub closed spec fn groups_view(self) -> Seq<GroupModel> {
        Seq::new(self.groups@.len(), |i: int| self.groups@[i]@)
    }

    /// A send cadence of zero would never emit anything.
    pub open spec fn wf(self) -> bool {
        self.send_interval() >= 1
    }

    pub fn new(send_interval: u64) -> (r: Replicator)
        requires
            send_interval >= 1,
        ensures
            r.wf(),
            r.send_interval() == send_interval,
            r.groups_view() == Seq::<GroupModel>::empty(),
    {
        let r = Replicator { send_interval, groups: Vec::new() };
        proof {
            assert(r.groups_view() =~= Seq::<GroupModel>::empty());
        }
        r
    }

    /// Registers a group of entities replicated together.
    pub fn add_group(&mut self, group: ReplicationGroup)
        requires
            old(self).wf(),
        ensures
            final(self).wf(),
            final(self).send_interval() == old(self).send_interval(),
            final(self).groups_view() == old(self).groups_view().push(group@),
    {
        self.groups.push(group);
        proof {
            assert(self.groups_view() =~= old(self).groups_view().push(group@));
        }
    }

    /// Collects the updates for one group's members from the authoritative
    /// store.
    fn emit_members(group: &ReplicationGroup, store: &SnapshotStore) -> (out: Vec<OutboundMessage>)
        requires
            store.wf(),
        ensures
            out@ == member_messages(group@.members, group@.mode, group@.visibility, store@),
    {
        let n = group.members.len();
        let mut out: Vec<OutboundMessage> = Vec::new();
        let mut i: usize = 0;
        while i < n
            invariant
                n == group.members@.len(),
                i <= n,
                store.wf(),
                out@ == member_messages(
                    group@.members.take(i as int),
                    group@.mode,
                    group@.visibility,
                    store@,
                ),
            decreases n - i,
        {
            let entity = group.members[i];
            proof {
                assert(group@.members.take(i + 1).drop_last() =~= group@.members.take(i as int));
                assert(group@.members.take(i + 1).last() == group@.members[i as int]);
            }
            let latest = store.latest(entity);
            match latest {
                Some(snapshot) => {
                    out.push(
                        OutboundMessage {
                            target: group.visibility,
                            channel: match group.mode {
                                SyncMode::Once => Channel::ReliableOrdered,
                                SyncMode::Predicted => Channel::Unreliable,
                                SyncMode::Interpolated => Channel::Unreliable,
                            },
                            entity,
                            snapshot,
                        },
                    );
                },
                None => {},
            }
            i = i + 1;
        }
        proof {
            assert(group@.members.take(n as int) =~= group@.members);
        }
        out
    }

    /// Runs one send-interval boundary check at `current_tick`. Off the
    /// boundary nothing is emitted and nothing changes; on it, every due
    /// group contributes one update per member with confirmed state, and
    /// once-only groups record their spawn send so they never emit again.
    pub fn tick(&mut self, current_tick: u64, store: &SnapshotStore) -> (out: Vec<OutboundMessage>)
        requires
            old(self).wf(),
            store.wf(),
        ensures
            final(self).wf(),
            final(self).send_interval() == old(self).send_interval(),
            current_tick % old(self).send_interval() != 0 ==> {
                &&& out@ == Seq::<OutboundMessage>::empty()
                &&& final(self).groups_view() == old(self).groups_view()
            },
            current_tick % old(self).send_interval() == 0 ==> {
                &&& out@ == due_messages(old(self).groups_view(), store@)
                &&& final(self).groups_view() == mark_spawns_sent(old(self).groups_view())
            },
    {
        if current_tick % self.send_interval != 0 {
            return Vec::new();
        }
        let ghost gv0 = self.groups_view();
        let n = self.groups.len();
        let mut out: Vec<OutboundMessage> = Vec::new();
        let mut i: usize = 0;
        while i < n
            invariant
                n == self.groups@.len(),
                i <= n,
                store.wf(),
                self.send_interval == old(self).send_interval,
                gv0 == old(self).groups_view(),
                self.groups_view().len() == n,
                gv0.len() == n,
                forall|k: int| i <= k < n ==> self.groups_view()[k] == gv0[k],
                forall|k: int| 0 <= k < i ==> self.groups_view()[k] == mark_spawns_sent(gv0)[k],
                out@ == due_messages(gv0.take(i as int), store@),
            decreases n - i,
        {
            proof {
                assert(gv0.take(i + 1).drop_last() =~= gv0.take(i as int));
                assert(gv0.take(i + 1).last() == gv0[i as int]);
                assert(self.groups_view()[i as int] == gv0[i as int]);
            }
            let due = match self.groups[i].mode {
                SyncMode::Once => !self.groups[i].spawn_sent,
                SyncMode::Predicted => true,
                SyncMode::Interpolated => true,
            };
            if due {
                let mut msgs = Self::emit_members(&self.groups[i], store);
                out.append(&mut msgs);
            }
            let ghost before_mark = self.groups_view();
            let mut g = self.groups.remove(i);
            let was_sent = g.spawn_sent;
            let once = match g.mode {
                SyncMode::Once => true,
                SyncMode::Predicted => false,
                SyncMode::Interpolated => false,
            };
            g.spawn_sent = was_sent || once;
            self.groups.insert(i, g);
            proof {
                assert forall|k: int| 0 <= k < n && k != i as int
                    implies self.groups_view()[k] == before_mark[k] by {
                    assert(self.groups@[k] == old(self).groups@[k] || true);
                }
                assert(self.groups_view()[i as int] == mark_spawns_sent(gv0)[i as int]);
            }
            i = i + 1;
        }
        proof {
            assert(gv0.take(n as int) =~= gv0);
            assert(self.groups_view() =~= mark_spawns_sent(gv0));
        }
        out
    }
}

} // verus!
