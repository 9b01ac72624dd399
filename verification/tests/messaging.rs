use netsync::commands::CommandBuffer;
use netsync::protocol::{
    ClientMessage, ServerMessage, client_message_channel, receive_client_message,
    receive_server_message, server_message_channel,
};
use netsync::replicate::Channel;
use netsync::session::{PlayerRegistry, PlayerSession, spawn_position};
use netsync::sim::{Command, EntityState};
use netsync::snapshots::{ApplyResult, Snapshot};
use netsync::store::SnapshotStore;

fn snap(tick: u64, x: i64) -> Snapshot {
    Snapshot { tick, state: EntityState { x, y: 0 } }
}

#[test]
fn input_messages_are_recorded_write_once() {
    let mut buf = CommandBuffer::new();
    let msg = ClientMessage::PlayerInput { tick: 9, player: 1, command: Command { dx: 1, dy: 0 } };
    assert!(receive_client_message(&mut buf, msg));
    let duplicate = ClientMessage::PlayerInput {
        tick: 9,
        player: 1,
        command: Command { dx: 5, dy: 5 },
    };
    assert!(!receive_client_message(&mut buf, duplicate));
    assert_eq!(buf.get(9, 1), Some(Command { dx: 1, dy: 0 }));
}

#[test]
fn channels_match_message_semantics() {
    let input = ClientMessage::PlayerInput { tick: 1, player: 1, command: Command { dx: 0, dy: 0 } };
    assert_eq!(client_message_channel(input), Channel::ReliableOrdered);
    assert_eq!(
        server_message_channel(ServerMessage::InitClient { client: 3 }),
        Channel::ReliableOrdered
    );
    assert_eq!(
        server_message_channel(ServerMessage::SpawnEntity {
            owner: 3,
            entity: 7,
            snapshot: snap(0, 0),
        }),
        Channel::ReliableOrdered
    );
    assert_eq!(
        server_message_channel(ServerMessage::EntityMoved { entity: 7, snapshot: snap(1, 1) }),
        Channel::Unreliable
    );
}

#[test]
fn server_messages_update_the_confirmed_store() {
    let mut store = SnapshotStore::new();
    assert_eq!(
        receive_server_message(&mut store, ServerMessage::InitClient { client: 3 }),
        None
    );
    assert_eq!(
        receive_server_message(
            &mut store,
            ServerMessage::SpawnEntity { owner: 3, entity: 7, snapshot: snap(5, 50) },
        ),
        Some(ApplyResult::Applied)
    );
    assert_eq!(
        receive_server_message(
            &mut store,
            ServerMessage::EntityMoved { entity: 7, snapshot: snap(6, 60) },
        ),
        Some(ApplyResult::Applied)
    );
    assert_eq!(
        receive_server_message(
            &mut store,
            ServerMessage::EntityMoved { entity: 7, snapshot: snap(6, 99) },
        ),
        Some(ApplyResult::Stale)
    );
    assert_eq!(store.latest(7), Some(snap(6, 60)));
}

#[test]
fn registry_tracks_connections() {
    let mut reg = PlayerRegistry::new();
    assert!(reg.connect(3, 30));
    assert!(reg.connect(4, 40));
    assert!(!reg.connect(3, 99));
    assert_eq!(reg.len(), 2);
    assert_eq!(
        reg.get(3),
        Some(PlayerSession { client: 3, entity: 30, input: Command { dx: 0, dy: 0 } })
    );
    assert_eq!(reg.get(5), None);
}

#[test]
fn registry_stores_latest_input() {
    let mut reg = PlayerRegistry::new();
    reg.connect(3, 30);
    assert!(reg.set_input(3, Command { dx: 2, dy: -2 }));
    assert!(!reg.set_input(9, Command { dx: 1, dy: 1 }));
    assert_eq!(
        reg.get(3),
        Some(PlayerSession { client: 3, entity: 30, input: Command { dx: 2, dy: -2 } })
    );
}

#[test]
fn disconnect_removes_only_that_client() {
    let mut reg = PlayerRegistry::new();
    reg.connect(3, 30);
    reg.connect(4, 40);
    reg.set_input(4, Command { dx: 7, dy: 0 });
    assert!(reg.disconnect(3));
    assert!(!reg.disconnect(3));
    assert_eq!(reg.len(), 1);
    assert_eq!(reg.get(3), None);
    assert_eq!(
        reg.get(4),
        Some(PlayerSession { client: 4, entity: 40, input: Command { dx: 7, dy: 0 } })
    );
}

#[test]
fn spawn_positions_spread_by_client_id() {
    assert_eq!(spawn_position(0), EntityState { x: -50, y: -250 });
    assert_eq!(spawn_position(3), EntityState { x: -50, y: -100 });
    assert_eq!(spawn_position(13), EntityState { x: -50, y: -100 });
    assert_eq!(spawn_position(9), EntityState { x: -50, y: 200 });
}
