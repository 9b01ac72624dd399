//! The wire vocabulary between client and server, and what receiving each
//! message does to the receiving side's state. Input travels reliable and
//! ordered — a lost command would otherwise read as neutral for good —
//! while state updates travel unreliable: a lost snapshot is superseded by
//! the next one.

use vstd::prelude::*;

use crate::commands::{CommandBuffer, CommandEntry, has_command};
use crate::replicate::Channel;
use crate::sim::Command;
use crate::snapshots::{ApplyResult, Snapshot};
use crate::store::{SnapshotStore, apply_one, frame_except, has_entity, history_of, history_or_empty};

verus! {

/// What a client sends to the server.
#[derive(Clone, Copy, PartialEq, Eq, Structural, Debug)]
pub enum ClientMessage {
    /// One entity's intent for one tick.
    PlayerInput { tick: u64, player: u64, command: Command },
}

/// What the server sends to a client.
#[derive(Clone, Copy, PartialEq, Eq, Structural, Debug)]
pub enum ServerMessage {
    /// The handshake: which client this connection is.
    InitClient { client: u64 },
    /// A newly spawned entity, with its owner and initial state.
    SpawnEntity { owner: u64, entity: u64, snapshot: Snapshot },
    /// An entity's authoritative state for one tick.
    EntityMoved { entity: u64, snapshot: Snapshot },
}

/// The channel a server message travels on: identity and spawn events must
/// not be lost or reordered; movement updates may be, the next one wins.
pub open spec fn server_channel_spec(msg: ServerMessage) -> Channel {
    match msg {
        ServerMessage::InitClient { .. } => Channel::ReliableOrdered,
        ServerMessage::SpawnEntity { .. } => Channel::ReliableOrdered,
        ServerMessage::EntityMoved { .. } => Channel::Unreliable,
    }
}

/// The channel a server message travels on.
pub fn server_message_channel(msg: ServerMessage) -> (c: Channel)
    ensures
        c == server_channel_spec(msg),
{
    match msg {
        ServerMessage::InitClient { .. } => Channel::ReliableOrdered,
        ServerMessage::SpawnEntity { .. } => Channel::ReliableOrdered,
        ServerMessage::EntityMoved { .. } => Channel::Unreliable,
    }
}

/// The channel a client message travels on: input is reliable and ordered,
/// since a lost command would read as neutral input forever.
pub fn client_message_channel(msg: ClientMessage) -> (c: Channel)
    ensures
        c == Channel::ReliableOrdered,
{
    match msg {
        ClientMessage::PlayerInput { .. } => Channel::ReliableOrdered,
    }
}

/// Receives one client message on the server: the carried command is
/// recorded under its (entity, tick) key, write-once. Returns whether it
/// was recorded (false: a duplicate, dropped).
pub fn receive_client_message(buf: &mut CommandBuffer, msg: ClientMessage) -> (recorded: bool)
    requires
        old(buf).wf(),
    ensures
        final(buf).wf(),
        msg matches ClientMessage::PlayerInput { tick, player, command } ==> {
            &&& recorded == !has_command(old(buf)@, tick, player)
            &&& recorded ==> final(buf)@ == old(buf)@.push(
                CommandEntry { tick, entity: player, command },
            )
            &&& !recorded ==> final(buf)@ == old(buf)@
        },
{
    match msg {
        ClientMessage::PlayerInput { tick, player, command } => {
            buf.record(tick, player, command)
        },
    }
}

/// Receives one server message on a client: a handshake changes nothing
/// here, a spawn or movement update applies its snapshot to that entity's
/// confirmed history (appended when strictly newer, dropped as stale), and
/// no other entity's history moves.
pub fn receive_server_message(store: &mut SnapshotStore, msg: ServerMessage) -> (r: Option<
    ApplyResult,
>)
    requires
        old(store).wf(),
    ensures
        final(store).wf(),
        msg matches ServerMessage::InitClient { .. } ==> {
            &&& final(store)@ == old(store)@
            &&& r is None
        },
        msg matches ServerMessage::SpawnEntity { entity, snapshot, .. } ==> {
            &&& has_entity(final(store)@, entity)
            &&& history_of(final(store)@, entity) == apply_one(
                history_or_empty(old(store)@, entity),
                snapshot,
            )
            &&& frame_except(old(store)@, final(store)@, entity)
            &&& r is Some
        },
        msg matches ServerMessage::EntityMoved { entity, snapshot } ==> {
            &&& has_entity(final(store)@, entity)
            &&& history_of(final(store)@, entity) == apply_one(
                history_or_empty(old(store)@, entity),
                snapshot,
            )
            &&& frame_except(old(store)@, final(store)@, entity)
            &&& r is Some
        },
{
    match msg {
        ServerMessage::InitClient { .. } => None,
        ServerMessage::SpawnEntity { entity, snapshot, .. } => {
            Some(store.apply(entity, snapshot))
        },
        ServerMessage::EntityMoved { entity, snapshot } => {
            Some(store.apply(entity, snapshot))
        },
    }
}

} // verus!
